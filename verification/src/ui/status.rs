//! The text of the status line: mode and file, the cursor's path, the
//! unsaved marker, the chosen register, the search results, and the cursor's
//! line out of all lines, right-aligned.

use vstd::prelude::*;
use crate::editor::state::selection::current_path_text;
use crate::editor::state::{line_index, EditorState, SearchType};
use crate::text::{format_usize, nat_text, push_char, push_str, str_to_string};
use crate::ui::preview::{byte_len, str_byte_len};

verus! {

/// ASCII upper-casing of a character (other characters are unchanged).
pub open spec fn upper_char(c: char) -> char {
    if 'a' <= c && c <= 'z' {
        ((c as u32) - 32) as char
    } else {
        c
    }
}

fn to_ascii_uppercase(c: char) -> (r: char)
    ensures
        r == upper_char(c),
{
    if 'a' <= c && c <= 'z' {
        let x: u32 = c as u32;
        let b: u8 = (x - 32) as u8;
        assert(b as u32 == x - 32);
        b as char
    } else {
        c
    }
}

/// The parts of the status line, left to right.
pub struct StatusParts {
    /// The mode and the file name (`[No Name]` without one)
    pub mode_and_file: String,
    /// The cursor's path after a space, empty at the root
    pub path: String,
    /// ` [+]` when there are unsaved changes
    pub dirty: String,
    /// The register chosen for the next command, upper-case when appending
    pub register: String,
    /// The search and the match the cursor is on, when there are matches
    pub search: String,
    /// Spaces between the left part and the position
    pub padding: usize,
    /// The cursor's line (0 when on none) out of all lines
    pub position: String,
}

/// Mode and file.
pub open spec fn mode_file_text(s: EditorState) -> Seq<char> {
    s.mode_value().label() + " | "@ + match s.file_name() {
        Some(f) => f,
        None => "[No Name]"@,
    }
}

/// The cursor's path, after a space; nothing at the root.
pub open spec fn path_part(s: EditorState) -> Seq<char> {
    if s.cursor_at().len() == 0 {
        Seq::empty()
    } else {
        " "@ + current_path_text(s.doc().root, s.cursor_at())
    }
}

/// The unsaved marker.
pub open spec fn dirty_part(s: EditorState) -> Seq<char> {
    if s.dirty_flag() { " [+]"@ } else { Seq::empty() }
}

/// The chosen register.
pub open spec fn register_part(s: EditorState) -> Seq<char> {
    match s.pending_reg() {
        Some(c) => " \""@ + seq![if s.appending() { upper_char(c) } else { c }],
        None => Seq::empty(),
    }
}

/// The search and its matches: which match (from 1) out of how many.
pub open spec fn search_part(s: EditorState) -> Seq<char> {
    if s.results().len() == 0 {
        Seq::empty()
    } else {
        let counts = " Match "@ + nat_text(s.result_at() + 1) + "/"@ + nat_text(s.results().len());
        match s.search_kind() {
            Some(None) => " [Search: \""@ + s.search_text() + "\"]"@ + counts,
            Some(Some(q)) => " [YAMLPath: "@ + q + "]"@ + counts,
            None => counts,
        }
    }
}

/// The cursor's line out of all lines.
pub open spec fn position_part(s: EditorState) -> Seq<char> {
    let row: nat = match line_index(s.shown(), s.cursor_at()) {
        Some(i) => (i + 1) as nat,
        None => 0,
    };
    nat_text(row) + "/"@ + nat_text(s.shown().len())
}

/// Everything left of the padding.
pub open spec fn left_text(s: EditorState) -> Seq<char> {
    mode_file_text(s) + path_part(s) + dirty_part(s) + register_part(s) + search_part(s)
}

/// The padding on a line `width` bytes wide: the room left between the
/// left part and the position, or a single space when there is none.
pub open spec fn status_padding(s: EditorState, width: nat) -> nat {
    let l = byte_len(left_text(s));
    let p = byte_len(position_part(s));
    if l + p + 1 < width { (width - l - p) as nat } else { 1 }
}

/// The status line's parts for a line `width` bytes wide.
pub fn status_line_parts(state: &EditorState, width: usize) -> (r: StatusParts)
    requires
        state.wf(),
    ensures
        r.mode_and_file@ == mode_file_text(*state),
        r.path@ == path_part(*state),
        r.dirty@ == dirty_part(*state),
        r.register@ == register_part(*state),
        r.search@ == search_part(*state),
        r.position@ == position_part(*state),
        r.padding == status_padding(*state, width as nat),
{
    let mut mode_and_file = state.mode().to_string();
    push_str(&mut mode_and_file, " | ");
    match state.filename() {
        Some(f) => push_str(&mut mode_and_file, f),
        None => push_str(&mut mode_and_file, "[No Name]"),
    }
    let path = if state.cursor().path().len() == 0 {
        String::new()
    } else {
        let mut p = str_to_string(" ");
        let cp = state.get_current_path();
        push_str(&mut p, cp.as_str());
        p
    };
    let dirty = if state.is_dirty() { str_to_string(" [+]") } else { String::new() };
    let register = match state.get_pending_register() {
        Some(c) => {
            let mut t = str_to_string(" \"");
            if state.get_append_mode() {
                push_char(&mut t, to_ascii_uppercase(c));
            } else {
                push_char(&mut t, c);
            }
            t
        },
        None => String::new(),
    };
    let search = match state.search_results_info() {
        Some((current, total)) => {
            let mut counts = str_to_string(" Match ");
            let c = format_usize(current);
            push_str(&mut counts, c.as_str());
            push_str(&mut counts, "/");
            let t = format_usize(total);
            push_str(&mut counts, t.as_str());
            let mut text = String::new();
            match state.search_type() {
                Some(SearchType::Text) => {
                    push_str(&mut text, " [Search: \"");
                    push_str(&mut text, state.search_buffer());
                    push_str(&mut text, "\"]");
                },
                Some(SearchType::YamlPath(q)) => {
                    push_str(&mut text, " [YAMLPath: ");
                    push_str(&mut text, q.as_str());
                    push_str(&mut text, "]");
                },
                None => {},
            }
            push_str(&mut text, counts.as_str());
            text
        },
        None => String::new(),
    };
    let (row, _col) = state.cursor_position();
    let mut position = format_usize(row);
    push_str(&mut position, "/");
    let total_text = format_usize(state.total_lines());
    push_str(&mut position, total_text.as_str());
    let mut left = str_to_string(mode_and_file.as_str());
    push_str(&mut left, path.as_str());
    push_str(&mut left, dirty.as_str());
    push_str(&mut left, register.as_str());
    push_str(&mut left, search.as_str());
    assert(left@ =~= left_text(*state));
    assert(position@ =~= position_part(*state));
    let left_len = str_byte_len(left.as_str());
    let pos_len = str_byte_len(position.as_str());
    let padding = if left_len < width && pos_len < width - left_len && width - left_len - pos_len > 1 {
        width - left_len - pos_len
    } else {
        1
    };
    StatusParts { mode_and_file, path, dirty, register, search, padding, position }
}

} // verus!
