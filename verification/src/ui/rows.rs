//! The rows of the tree view: which lines show, their numbers (absolute,
//! or distances from the cursor's line like vim's relative numbers), their
//! indentation, their marker, and whether they are the cursor's line or
//! selected.

use vstd::prelude::*;
use crate::editor::state::{cursor_line, find_line};
use crate::paths::paths_equal;
use crate::text::{format_usize, nat_text};
use crate::ui::preview::{byte_len, str_byte_len};
use crate::ui::tree_view::{lines_view, LineModel, TreeViewLine};

verus! {

/// The marker before a line's text.
#[derive(Debug, Clone, Copy, PartialEq, Eq, Structural)]
pub enum Marker {
    /// `▼`: an expanded container
    Expanded,
    /// `▶`: a collapsed container
    Collapsed,
    /// `▶`: a scalar on the cursor's line
    Cursor,
    /// Two spaces
    Blank,
}

/// One row of the tree view. Its text is the number right-aligned to
/// `number_width` and a space (when numbers are shown), two spaces per
/// level of `depth`, the marker, then the line's key and value.
#[derive(Debug, Clone, Copy, PartialEq, Eq, Structural)]
pub struct RowText {
    /// The index of the line shown
    pub line: usize,
    /// The number shown, if numbers are shown
    pub number: Option<usize>,
    /// The width numbers are aligned to
    pub number_width: usize,
    /// The line's depth
    pub depth: usize,
    pub marker: Marker,
    pub is_cursor: bool,
    pub is_selected: bool,
}

/// How many rows show `len` lines from `scroll` in `height` rows.
pub open spec fn row_count(len: nat, scroll: nat, height: nat) -> nat {
    if scroll >= len {
        0
    } else if len - scroll < height {
        (len - scroll) as nat
    } else {
        height
    }
}

/// The distance between two line indices.
pub open spec fn distance(a: int, b: int) -> nat {
    if a >= b { (a - b) as nat } else { (b - a) as nat }
}

/// The marker of line `l`.
pub open spec fn marker_of(l: LineModel, is_cursor: bool) -> Marker {
    if l.expandable {
        if l.expanded { Marker::Expanded } else { Marker::Collapsed }
    } else if is_cursor {
        Marker::Cursor
    } else {
        Marker::Blank
    }
}

/// `p` is among the selected paths.
pub open spec fn is_selected_path(selection: Seq<Seq<usize>>, p: Seq<usize>) -> bool {
    exists|j: int| 0 <= j < selection.len() && selection[j] == p
}

/// The row showing line `n`: numbered from 1, or, with relative numbers,
/// by its distance from the cursor's line except on the cursor's line.
pub open spec fn row_of(
    lines: Seq<LineModel>,
    cursor: Seq<usize>,
    show: bool,
    relative: bool,
    selection: Seq<Seq<usize>>,
    n: int,
) -> RowText {
    let l = lines[n];
    let is_cursor = l.path == cursor;
    RowText {
        line: n as usize,
        number: if !show {
            None
        } else if relative && !is_cursor {
            Some(distance(n, cursor_line(lines, cursor)) as usize)
        } else {
            Some((n + 1) as usize)
        },
        number_width: if show { byte_len(nat_text(lines.len())) as usize } else { 0 },
        depth: l.depth as usize,
        marker: marker_of(l, is_cursor),
        is_cursor,
        is_selected: is_selected_path(selection, l.path),
    }
}

fn in_selection(selection: &[Vec<usize>], p: &[usize]) -> (r: bool)
    ensures
        r == is_selected_path(selection@.map_values(|v: Vec<usize>| v@), p@),
{
    let ghost sel = selection@.map_values(|v: Vec<usize>| v@);
    let mut j: usize = 0;
    while j < selection.len()
        invariant
            j <= selection@.len(),
            sel == selection@.map_values(|v: Vec<usize>| v@),
            forall|m: int| 0 <= m < j ==> sel[m] != p@,
        decreases selection@.len() - j,
    {
        if paths_equal(selection[j].as_slice(), p) {
            assert(sel[j as int] == p@);
            return true;
        }
        j = j + 1;
    }
    false
}

/// The rows shown in a view `height` rows high whose first row is line
/// `scroll_offset`.
pub fn tree_view_rows(
    lines: &[TreeViewLine],
    cursor_path: &[usize],
    show_line_numbers: bool,
    relative: bool,
    scroll_offset: usize,
    height: usize,
    selection: &[Vec<usize>],
) -> (r: Vec<RowText>)
    ensures
        r@.len() == row_count(lines@.len() as nat, scroll_offset as nat, height as nat),
        forall|i: int| 0 <= i < r@.len() ==> #[trigger] r@[i] == row_of(
            lines_view(lines@),
            cursor_path@,
            show_line_numbers,
            relative,
            selection@.map_values(|v: Vec<usize>| v@),
            scroll_offset + i,
        ),
{
    let ghost lv = lines_view(lines@);
    let ghost sel = selection@.map_values(|v: Vec<usize>| v@);
    let number_width: usize = if show_line_numbers {
        let t = format_usize(lines.len());
        str_byte_len(t.as_str())
    } else {
        0
    };
    let cur: usize = match find_line(lines, cursor_path) {
        Some(i) => i,
        None => 0,
    };
    let end: usize = if scroll_offset >= lines.len() {
        scroll_offset
    } else if lines.len() - scroll_offset < height {
        lines.len()
    } else {
        scroll_offset + height
    };
    let mut out: Vec<RowText> = Vec::new();
    let mut n: usize = scroll_offset;
    while n < end
        invariant
            scroll_offset <= n,
            n <= end,
            end <= scroll_offset || end <= lines@.len(),
            end - scroll_offset == row_count(lines@.len() as nat, scroll_offset as nat, height as nat),
            lv == lines_view(lines@),
            sel == selection@.map_values(|v: Vec<usize>| v@),
            cur == cursor_line(lv, cursor_path@),
            number_width == (if show_line_numbers { byte_len(nat_text(lines@.len() as nat)) as usize } else { 0usize }),
            out@.len() == n - scroll_offset,
            forall|i: int| 0 <= i < out@.len() ==> #[trigger] out@[i] == row_of(lv, cursor_path@, show_line_numbers, relative, sel, scroll_offset + i),
        decreases end - n,
    {
        let l = &lines[n];
        let is_cursor = paths_equal(cursor_path, l.path.as_slice());
        let is_selected = in_selection(selection, l.path.as_slice());
        let number: Option<usize> = if !show_line_numbers {
            None
        } else if relative && !is_cursor {
            Some(if n >= cur { n - cur } else { cur - n })
        } else {
            Some(n + 1)
        };
        let marker = if l.expandable {
            if l.expanded { Marker::Expanded } else { Marker::Collapsed }
        } else if is_cursor {
            Marker::Cursor
        } else {
            Marker::Blank
        };
        let row = RowText { line: n, number, number_width, depth: l.depth, marker, is_cursor, is_selected };
        assert(row == row_of(lv, cursor_path@, show_line_numbers, relative, sel, n as int));
        out.push(row);
        n = n + 1;
    }
    out
}

} // verus!
