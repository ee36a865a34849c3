//! What a terminal event does to the editor: the key and mouse bindings of
//! each mode, applied to the state. Work that needs the outside world
//! (files, the clipboard, `:` commands) is handed back as an action.

use vstd::prelude::*;
use crate::editor::mode::EditorMode;
use crate::editor::repeat::RepeatableCommand;
use crate::input::backend::{BackendEvent, BackendKey, BackendMouse};
use crate::input::keys::{key_action, map_key_event, InputEvent};
use crate::text::{digit_value, format_usize, lower_char, nat_text, push_char, push_str, str_to_string, to_ascii_lowercase};
use crate::editor::state::selection::path_text;
use super::{cursor_line, line_index, AddModeStage, EditError, EditorState, MessageLevel};
use super::editing::edit_commit;
use super::adding::{add_commit, container_commit, rename_commit};
use super::visual::range_to;
use super::selection::{content_at, present, store_yank, yank_walk};
use super::removal::{delete_succeeds, deletes_chain, repeated_delete};
use super::delete_outcome;
use super::paste_outcome;
use super::text_input::{backspaced_text, typed_text};
use crate::document::parser::opt_view;
use crate::ui::tree_view::{node_and_descendants, LineModel};
use crate::document::node::{node_at, NodeModel};
use crate::editor::jumplist::record_model;
use super::editing::start_text;
use super::adding::{add_keeps, add_start, add_started, container_started, rename_start};
use super::{next_shallower, page_down_effect, page_up_effect, previous_shallower};

verus! {

/// What is left to do after an event, outside the editor state.
#[derive(Debug, Clone, PartialEq, Eq)]
pub enum HandlerAction {
    /// Nothing more
    Continue,
    /// Leave the editor
    Quit,
    /// Save the document to this file and leave when that succeeds
    SaveAndQuit(String),
    /// Run this `:` command
    RunCommand(String),
    /// Put this path on the system clipboard; the second text names its
    /// notation
    CopyPath(String, String),
}

/// The register named by the key after `"`: a letter, a digit or `"`.
pub open spec fn register_typed(event: BackendEvent) -> Option<char> {
    match event {
        BackendEvent::Key(BackendKey::Char(c)) => if ('a' <= c && c <= 'z') || ('A' <= c && c <= 'Z') || ('0' <= c
            && c <= '9') || c == '"' {
            Some(c)
        } else {
            None
        },
        _ => None,
    }
}

/// The mark named by the key after `m` or `'`: a lower-case letter.
pub open spec fn mark_typed(event: BackendEvent) -> Option<char> {
    match event {
        BackendEvent::Key(BackendKey::Char(c)) => if 'a' <= c && c <= 'z' {
            Some(c)
        } else {
            None
        },
        _ => None,
    }
}

/// The message about `n` nodes that went through `what`.
pub open spec fn nodes_text(n: nat, what: Seq<char>) -> Seq<char> {
    if n > 1 {
        nat_text(n) + " nodes "@ + what
    } else {
        "Node "@ + what
    }
}

/// The notation `c` asks for after `y`: `p` dot, `b` bracket, else jq.
pub open spec fn path_format(c: char) -> (Seq<char>, Seq<char>) {
    if c == 'p' {
        ("dot"@, "dot notation"@)
    } else if c == 'b' {
        ("bracket"@, "bracket notation"@)
    } else {
        ("jq"@, "jq style"@)
    }
}

/// The cursor after one move down (or up) among the lines `l`, as
/// `move_cursor_down` and `move_cursor_up` move it.
pub open spec fn line_step(l: Seq<LineModel>, p: Seq<usize>, down: bool) -> Seq<usize> {
    if l.len() == 0 {
        p
    } else {
        match line_index(l, p) {
            Some(i) => if down {
                if i + 1 < l.len() { l[i + 1].path } else { p }
            } else {
                if i > 0 { l[i - 1].path } else { p }
            },
            None => l[0].path,
        }
    }
}

/// The cursor after `n` moves down (or up) from `p`.
pub open spec fn lines_stepped(l: Seq<LineModel>, p: Seq<usize>, n: nat, down: bool) -> Seq<usize>
    decreases n,
{
    if n == 0 {
        p
    } else {
        line_step(l, lines_stepped(l, p, (n - 1) as nat, down), down)
    }
}

/// The help offset after `n` lines of scrolling down (or up), stopping at
/// the ends.
pub open spec fn help_stepped(h: nat, n: nat, down: bool) -> nat
    decreases n,
{
    if n == 0 {
        h
    } else {
        let g = help_stepped(h, (n - 1) as nat, down);
        if down {
            if g < usize::MAX { g + 1 } else { g }
        } else {
            if g > 0 { (g - 1) as nat } else { 0 }
        }
    }
}

/// A normal-mode key taken before the key bindings: a count digit, the
/// notation after `y`, the position after `z`, or any key while the key of
/// a new entry is typed.
pub open spec fn normal_prefix(s: EditorState, k: BackendKey) -> bool {
    s.mode_value() == EditorMode::Normal && (match k {
        BackendKey::Char(c) => ('1' <= c && c <= '9') || (c == '0' && s.count_typed() is Some) || (s.pending_cmd()
            == Some('y') && (c == 'p' || c == 'b' || c == 'q')) || (s.pending_cmd() == Some('z') && (c == 'z' || c
            == 't' || c == 'b')),
        _ => false,
    } || s.add_stage() == AddModeStage::AwaitingKey)
}

/// A key reaches the key bindings: no register or mark name is awaited,
/// the editor is not typing text, and no picker, help or prefix takes it.
pub open spec fn reaches_bindings(s: EditorState, awaiting: bool, k: BackendKey) -> bool {
    &&& !awaiting
    &&& !s.mark_waits().0
    &&& !s.mark_waits().1
    &&& s.mode_value() != EditorMode::Insert
    &&& s.mode_value() != EditorMode::Command
    &&& s.mode_value() != EditorMode::Search
    &&& !s.picker_shown()
    &&& !s.help_shown()
    &&& !normal_prefix(s, k)
}

/// `p` pastes after the cursor, `P` before it.
pub open spec fn pastes_after(before: bool) -> bool {
    !before
}

/// `a`, then `b`, then `c`.
fn text3(a: &str, b: &str, c: &str) -> (r: String)
    ensures
        r@ == a@ + b@ + c@,
{
    let mut s = str_to_string(a);
    push_str(&mut s, b);
    push_str(&mut s, c);
    s
}

/// The one-character text `c`.
fn char_text(c: char) -> (r: String)
    ensures
        r@ == seq![c],
{
    let mut s = String::new();
    push_char(&mut s, c);
    assert(s@ =~= seq![c]);
    s
}

/// `n` in decimal.
fn count_text(n: usize) -> (r: String)
    ensures
        r@ == nat_text(n as nat),
{
    format_usize(n)
}

/// An ASCII letter or digit.
fn is_ascii_alnum(c: char) -> (r: bool)
    ensures
        r == (('a' <= c && c <= 'z') || ('A' <= c && c <= 'Z') || ('0' <= c && c <= '9')),
{
    ('a' <= c && c <= 'z') || ('A' <= c && c <= 'Z') || ('0' <= c && c <= '9')
}

/// A printable ASCII character.
fn is_printable_ascii(c: char) -> (r: bool)
    ensures
        r == (' ' <= c && c <= '~'),
{
    ' ' <= c && c <= '~'
}

/// What a key does in insert mode (see `EditorState::insert_key`).
pub open spec fn insert_key_outcome(s0: EditorState, s1: EditorState, key: BackendKey, value_float: Option<String>, trimmed_float: Option<String>) -> bool {
    &&& match key {
            BackendKey::Char('\n') => if s0.renaming() {
                &&& s1.mode_value() == EditorMode::Normal
                &&& exists|mid: EditorState, res: Result<(), EditError>| {
                    &&& #[trigger] rename_commit(s0, mid, res)
                    &&& s1.doc() == mid.doc()
                    &&& res matches Err(e) ==> !s1.renaming() && s1.msg() == Some(
                        ("Rename failed: "@ + e.message_text(), MessageLevel::Error),
                    )
                }
            } else if s0.add_stage() == AddModeStage::AwaitingValue {
                exists|mid: EditorState, res: Result<(), EditError>| {
                    &&& #[trigger] add_commit(s0, mid, opt_view(trimmed_float), res)
                    &&& s1.doc() == mid.doc()
                    &&& res is Ok ==> s1.mode_value() == EditorMode::Normal
                    &&& res matches Err(e) ==> s1.add_stage() == AddModeStage::Inactive && s1.msg()
                        == Some(("Add failed: "@ + e.message_text(), MessageLevel::Error))
                }
            } else {
                exists|mid: EditorState, res: Result<(), EditError>| {
                    &&& #[trigger] edit_commit(s0, mid, value_float, res)
                    &&& s1.doc() == mid.doc()
                    &&& res is Ok ==> s1.mode_value() == EditorMode::Normal && s1.msg() == Some(
                        ("Value updated"@, MessageLevel::Info),
                    )
                    &&& res matches Err(e) ==> s1.msg() == Some(
                        ("Invalid value: "@ + e.message_text(), MessageLevel::Error),
                    )
                }
            },
            BackendKey::Char(c) => s1.same_document(&s0) && s1.edit_text() == match s0.edit_text() {
                Some(t) => Some(typed_text(t, s0.edit_pos(), c)),
                None => None,
            },
            BackendKey::Backspace => s1.same_document(&s0) && s1.edit_text() == match s0.edit_text() {
                Some(t) => if s0.edit_pos() > 0 { Some(backspaced_text(t, s0.edit_pos())) } else { Some(t) },
                None => None,
            },
            BackendKey::Left | BackendKey::Right | BackendKey::Ctrl('a') | BackendKey::Ctrl('e') => s1.same_document(&s0) && s1.edit_text() == s0.edit_text() && s1.edit_pos()
                == match key {
                BackendKey::Left => if s0.edit_text() is Some && s0.edit_pos() > 0 {
                    (s0.edit_pos() - 1) as nat
                } else {
                    s0.edit_pos()
                },
                BackendKey::Right => match s0.edit_text() {
                    Some(t) => if s0.edit_pos() < t.len() { s0.edit_pos() + 1 } else { s0.edit_pos() },
                    None => s0.edit_pos(),
                },
                BackendKey::Ctrl('a') => 0,
                _ => match s0.edit_text() {
                    Some(t) => t.len(),
                    None => s0.edit_pos(),
                },
            },
            BackendKey::Ctrl('d') => s1.same_document(&s0) && s1.edit_text() == match s0.edit_text() {
                Some(t) => if s0.edit_pos() < t.len() {
                    Some(t.take(s0.edit_pos() as int) + t.skip(s0.edit_pos() + 1int))
                } else {
                    Some(t)
                },
                None => None,
            },
            BackendKey::Ctrl('k') => s1.same_document(&s0) && s1.edit_text() == match s0.edit_text() {
                Some(t) => Some(t.take(s0.edit_pos() as int)),
                None => None,
            },
            BackendKey::Esc => {
                &&& s1.same_document(&s0)
                &&& s1.mode_value() == EditorMode::Normal
                &&& s1.edit_text() is None
                &&& s1.msg() == Some((
                    if s0.renaming() { "Rename cancelled"@ } else { "Edit cancelled"@ },
                    MessageLevel::Info,
                ))
            },
            _ => s1 == s0,
        }
}

/// What a key does in command mode (see `EditorState::command_key`).
pub open spec fn command_key_outcome(s0: EditorState, s1: EditorState, key: BackendKey, r: HandlerAction) -> bool {
    &&& s1.doc() == s0.doc()
    &&& s1.same_document(&s0)
    &&& r matches HandlerAction::RunCommand(c) ==> c@ == s0.command_text() && key == BackendKey::Char('\n')
    &&& !(r is RunCommand) ==> r == HandlerAction::Continue
    &&& match key {
            BackendKey::Char('\n') => r matches HandlerAction::RunCommand(c) && c@ == s0.command_text()
                && s1.command_text().len() == 0 && s1.mode_value() == EditorMode::Normal,
            BackendKey::Char('\t') => s1.mode_value() == s0.mode_value() && (
            s0.completion_list().len() == 0 ==> s1.completion_list() == super::text_input::completions_for(
                s0.command_text(),
            )),
            BackendKey::Char(c) => s1.command_text() == s0.command_text().push(c)
                && s1.mode_value() == s0.mode_value(),
            BackendKey::Backspace => {
                &&& s1.command_text() == (if s0.command_text().len() > 0 {
                    s0.command_text().drop_last()
                } else {
                    s0.command_text()
                })
                &&& s1.mode_value() == (if s1.command_text().len() == 0 {
                    EditorMode::Normal
                } else {
                    s0.mode_value()
                })
            },
            BackendKey::Esc => s1.command_text().len() == 0 && s1.mode_value() == EditorMode::Normal,
            _ => s1 == s0,
        }
}

/// What a key does in search mode (see `EditorState::search_key`).
pub open spec fn search_key_outcome(s0: EditorState, s1: EditorState, key: BackendKey) -> bool {
    &&& s1.doc() == s0.doc()
    &&& match key {
            BackendKey::Char('\n') => {
                &&& s1.mode_value() == EditorMode::Normal
                &&& s1.same_document(&s0)
                &&& s1.msg() == if s0.results().len() > 0 {
                    Some(("Found "@ + nat_text(s0.results().len()) + " matches"@, MessageLevel::Info))
                } else {
                    Some(("No matches found"@, MessageLevel::Warning))
                }
            },
            BackendKey::Char(c) => s1.search_text() == s0.search_text().push(c)
                && s1.results() == super::search::search_hits(s0.shown(), s0.search_text().push(c))
                && s1.mode_value() == s0.mode_value(),
            BackendKey::Backspace => s1.search_text() == (if s0.search_text().len() > 0 {
                s0.search_text().drop_last()
            } else {
                s0.search_text()
            }) && s1.mode_value() == s0.mode_value(),
            BackendKey::Esc => s1.search_text().len() == 0 && s1.mode_value() == EditorMode::Normal
                && s1.same_document(&s0),
            _ => s1 == s0,
        }
}

/// What a key does while the theme picker is shown (see `EditorState::picker_key`).
pub open spec fn picker_key_outcome(s0: EditorState, s1: EditorState, key: BackendKey) -> bool {
    &&& s1.same_document(&s0)
    &&& match key {
            BackendKey::Up | BackendKey::Char('k') => match s0.picker() {
                Some((t, i, o, c)) => if i > 0 {
                    s1.picker() == Some((t, (i - 1) as nat, o, t[i - 1])) && s1.theme_name() == t[i - 1]
                } else {
                    s1.picker() == s0.picker() && s1.theme_name() == s0.theme_name()
                },
                None => s1.picker() is None && s1.theme_name() == s0.theme_name(),
            },
            BackendKey::Down | BackendKey::Char('j') => match s0.picker() {
                Some((t, i, o, c)) => if i + 1 < t.len() {
                    s1.picker() == Some((t, i + 1, o, t[i + 1int])) && s1.theme_name() == t[i + 1int]
                } else {
                    s1.picker() == s0.picker() && s1.theme_name() == s0.theme_name()
                },
                None => s1.picker() is None && s1.theme_name() == s0.theme_name(),
            },
            BackendKey::Char('\n') => s1.picker() is None && !s1.picker_shown()
                && s1.theme_name() == match s0.picker() {
                Some((_t, _i, _o, c)) => c,
                None => s0.theme_name(),
            },
            BackendKey::Esc | BackendKey::Char('q') => s1.picker() is None && !s1.picker_shown()
                && s1.theme_name() == match s0.picker() {
                Some((_t, _i, o, _c)) => o,
                None => s0.theme_name(),
            },
            _ => s1 == s0,
        }
}

/// What a key does while the help is shown (see `EditorState::help_key`).
pub open spec fn help_key_outcome(s0: EditorState, s1: EditorState, key: BackendKey) -> bool {
    &&& s1.same_document(&s0)
    &&& match key {
            BackendKey::Esc | BackendKey::F(1) => s1.help_shown() == !s0.help_shown(),
            BackendKey::Down | BackendKey::Char('j') => s1.help_offset() == (if s0.help_offset()
                < usize::MAX {
                s0.help_offset() + 1
            } else {
                s0.help_offset()
            }),
            BackendKey::Up | BackendKey::Char('k') => s1.help_offset() == (if s0.help_offset() > 0 {
                (s0.help_offset() - 1) as nat
            } else {
                0
            }),
            _ => s1 == s0,
        }
}

impl EditorState {
    /// The register name typed after `"`: a letter or digit (or `"`)
    /// selects that register, an upper-case letter in append mode; anything
    /// else cancels.
    fn register_key(&mut self, event: BackendEvent)
        requires
            old(self).wf(),
        ensures
            final(self).wf(),
            match register_typed(event) {
                Some(c) => {
                    &&& final(self).pending_reg() == Some(lower_char(c))
                    &&& final(self).appending() == ('A' <= c && c <= 'Z')
                    &&& final(self).pending_cmd() == old(self).pending_cmd()
                    &&& final(self).count_typed() == old(self).count_typed()
                    &&& final(self).same_document(old(self))
                },
                None => *final(self) == *old(self),
            },
    {
        if let BackendEvent::Key(BackendKey::Char(c)) = event {
            if is_ascii_alnum(c) || c == '"' {
                if 'A' <= c && c <= 'Z' {
                    self.set_pending_register(to_ascii_lowercase(c), true);
                } else {
                    self.set_pending_register(c, false);
                }
            }
        }
    }

    /// The mark name typed after `m`: a lower-case letter sets that mark.
    fn mark_set_key(&mut self, event: BackendEvent)
        requires
            old(self).wf(),
        ensures
            final(self).wf(),
            final(self).same_document(old(self)),
            final(self).mark_waits() == (false, old(self).mark_waits().1),
            match mark_typed(event) {
                Some(c) => final(self).mark_map() == old(self).mark_map().insert(c, old(self).cursor_at())
                    && final(self).msg() == Some(("Mark "@ + seq![c] + " set"@, MessageLevel::Info)),
                None => final(self).mark_map() == old(self).mark_map() && final(self).msg() == Some(
                    ("Invalid mark name"@, MessageLevel::Error),
                ),
            },
    {
        self.set_pending_mark_set(false);
        if let BackendEvent::Key(BackendKey::Char(c)) = event {
            if 'a' <= c && c <= 'z' {
                self.set_mark(c);
                self.set_message(text3("Mark ", char_text(c).as_str(), " set"), MessageLevel::Info);
                return;
            }
        }
        self.set_message(str_to_string("Invalid mark name"), MessageLevel::Error);
    }

    /// The mark name typed after `'`: with a pending `d` or `y`, deletes or
    /// yanks from the cursor to the mark; else jumps to the mark.
    #[verifier::rlimit(30)]
    fn mark_jump_key(&mut self, event: BackendEvent)
        requires
            old(self).wf(),
        ensures
            final(self).wf(),
            match mark_typed(event) {
                None => final(self).msg() == Some(("Invalid mark name"@, MessageLevel::Error)) && final(self).same_document(
                    old(self),
                ),
                Some(c) => if old(self).pending_cmd() == Some('d') || old(self).pending_cmd() == Some('y') {
                    let y = old(self).pending_cmd() == Some('y');
                    &&& final(self).pending_cmd() is None
                    &&& !old(self).mark_map().contains_key(c) ==> final(self).doc() == old(self).doc() && final(self).msg()
                        == Some(("Mark '"@ + seq![c] + "' not set"@, MessageLevel::Error))
                    &&& y ==> final(self).doc() == old(self).doc()
                    &&& old(self).mark_map().contains_key(c) ==> match range_to(
                        old(self).shown(),
                        old(self).cursor_at(),
                        old(self).mark_map()[c],
                    ) {
                        Err(e) => final(self).doc() == old(self).doc() && final(self).msg() == Some(
                            ("Error: "@ + e.message_text(), MessageLevel::Error),
                        ),
                        Ok(s) => if present(old(self).doc().root, s, s.len() as int).len() == 0 {
                            final(self).doc() == old(self).doc() && final(self).msg() == Some(
                                ("Error: "@ + EditError::NoNodesCollected.message_text(), MessageLevel::Error),
                            )
                        } else if y {
                            final(self).msg() == Some(("Yanked"@ + " to mark '"@ + seq![c] + "'"@, MessageLevel::Info))
                        } else {
                            final(self).msg() == Some(("Deleted"@ + " to mark '"@ + seq![c] + "'"@, MessageLevel::Info))
                                || final(self).msg() matches Some((t, MessageLevel::Error))
                        },
                    }
                } else {
                    &&& final(self).doc() == old(self).doc()
                    &&& old(self).mark_map().contains_key(c) ==> final(self).cursor_at() == old(self).mark_map()[c]
                        && final(self).msg() == Some((Seq::<char>::empty(), MessageLevel::Info))
                    &&& !old(self).mark_map().contains_key(c) ==> final(self).cursor_at() == old(self).cursor_at()
                        && final(self).msg() == Some(("Mark "@ + seq![c] + " not set"@, MessageLevel::Error))
                },
            },
    {
        self.set_pending_mark_jump(false);
        if let BackendEvent::Key(BackendKey::Char(c)) = event {
            if 'a' <= c && c <= 'z' {
                let pending = self.pending_command();
                if pending == Some('d') || pending == Some('y') {
                    let mark = match self.marks.get_mark(c) {
                        Some(p) => Some(crate::paths::path_to_vec(p.as_slice())),
                        None => None,
                    };
                    match mark {
                        Some(mark_path) => {
                            let count = self.get_count();
                            let is_delete = pending == Some('d');
                            let result = if is_delete {
                                self.delete_to_mark(mark_path.as_slice(), count)
                            } else {
                                self.yank_to_mark(mark_path.as_slice(), count)
                            };
                            self.clear_pending();
                            match result {
                                Ok(()) => {
                                    let op = if is_delete { "Deleted" } else { "Yanked" };
                                    let head = text3(op, " to mark '", char_text(c).as_str());
                                    self.set_message(crate::text::concat(head.as_str(), "'"), MessageLevel::Info);
                                },
                                Err(e) => {
                                    let m = e.message();
                                    self.set_message(crate::text::concat("Error: ", m.as_str()), MessageLevel::Error);
                                },
                            }
                        },
                        None => {
                            self.clear_pending();
                            self.set_message(
                                text3("Mark '", char_text(c).as_str(), "' not set"),
                                MessageLevel::Error,
                            );
                        },
                    }
                    return;
                }
                if self.jump_to_mark(c) {
                    self.set_message(String::new(), MessageLevel::Info);
                } else {
                    self.set_message(text3("Mark ", char_text(c).as_str(), " not set"), MessageLevel::Error);
                }
                return;
            }
        }
        self.set_message(str_to_string("Invalid mark name"), MessageLevel::Error);
    }

    /// The mouse wheel scrolls the help by three lines when it is shown,
    /// else moves the cursor by three lines; nothing when the mouse is off.
    fn mouse_event(&mut self, m: BackendMouse)
        requires
            old(self).wf(),
        ensures
            final(self).wf(),
            mouse_outcome(*old(self), *final(self), m),
            final(self).doc() == old(self).doc(),
            !old(self).settings().2 ==> *final(self) == *old(self),
            old(self).settings().2 && old(self).help_shown() ==> final(self).cursor_at() == old(self).cursor_at()
                && final(self).help_offset() == help_stepped(old(self).help_offset(), 3, m == BackendMouse::WheelDown),
            old(self).settings().2 && !old(self).help_shown() ==> final(self).cursor_at() == lines_stepped(
                old(self).shown(),
                old(self).cursor_at(),
                3,
                m == BackendMouse::WheelDown,
            ),
    {
        if !self.enable_mouse() {
            return;
        }
        let help = self.show_help();
        let ghost down = m == BackendMouse::WheelDown;
        let mut i: u32 = 0;
        while i < 3
            invariant
                self.wf(),
                i <= 3,
                help == old(self).help_shown(),
                down == (m == BackendMouse::WheelDown),
                self.doc() == old(self).doc(),
                self.shown() == old(self).shown(),
                help ==> self.cursor_at() == old(self).cursor_at() && self.help_offset() == help_stepped(
                    old(self).help_offset(),
                    i as nat,
                    down,
                ),
                !help ==> self.cursor_at() == lines_stepped(old(self).shown(), old(self).cursor_at(), i as nat, down),
            decreases 3 - i,
        {
            match m {
                BackendMouse::WheelUp => if help {
                    self.scroll_help_up();
                } else {
                    self.move_cursor_up();
                },
                BackendMouse::WheelDown => if help {
                    self.scroll_help_down();
                } else {
                    self.move_cursor_down();
                },
            }
            i = i + 1;
        }
    }

    /// A key in insert mode: Enter commits the rename, the added value or
    /// the edited value; Esc cancels; the other keys edit the text.
    /// `value_float` is the typed text read as a floating-point number,
    /// `trimmed_float` the same text trimmed, when they read as one.
    #[verifier::rlimit(30)]
    fn insert_key(&mut self, key: BackendKey, value_float: Option<String>, trimmed_float: Option<String>)
        requires
            old(self).wf(),
        ensures
            final(self).wf(),
            insert_key_outcome(*old(self), *final(self), key, value_float, trimmed_float),
    {
        match key {
            BackendKey::Char('\n') => {
                if self.is_renaming_key() {
                    match self.commit_rename() {
                        Ok(()) => {
                            self.set_mode(EditorMode::Normal);
                        },
                        Err(e) => {
                            let m = e.message();
                            self.set_message(crate::text::concat("Rename failed: ", m.as_str()), MessageLevel::Error);
                            self.cancel_rename();
                            self.set_mode(EditorMode::Normal);
                        },
                    }
                } else if *self.add_mode_stage() == AddModeStage::AwaitingValue {
                    match self.commit_add_operation(trimmed_float) {
                        Ok(()) => {
                            self.set_mode(EditorMode::Normal);
                        },
                        Err(e) => {
                            let m = e.message();
                            self.set_message(crate::text::concat("Add failed: ", m.as_str()), MessageLevel::Error);
                            self.cancel_add_operation();
                        },
                    }
                } else {
                    match self.commit_editing(value_float) {
                        Ok(()) => {
                            self.set_mode(EditorMode::Normal);
                            self.set_message(str_to_string("Value updated"), MessageLevel::Info);
                        },
                        Err(e) => {
                            let m = e.message();
                            self.set_message(crate::text::concat("Invalid value: ", m.as_str()), MessageLevel::Error);
                        },
                    }
                }
            },
            BackendKey::Char(c) => self.push_to_edit_buffer(c),
            BackendKey::Backspace => self.pop_from_edit_buffer(),
            BackendKey::Left => self.edit_cursor_left(),
            BackendKey::Right => self.edit_cursor_right(),
            BackendKey::Ctrl('a') => self.edit_cursor_home(),
            BackendKey::Ctrl('e') => self.edit_cursor_end(),
            BackendKey::Ctrl('d') => self.edit_delete_at_cursor(),
            BackendKey::Ctrl('k') => self.edit_kill_to_end(),
            BackendKey::Esc => {
                if self.is_renaming_key() {
                    self.cancel_rename();
                    self.set_mode(EditorMode::Normal);
                    self.set_message(str_to_string("Rename cancelled"), MessageLevel::Info);
                } else {
                    if *self.add_mode_stage() == AddModeStage::AwaitingValue {
                        self.cancel_editing();
                        self.cancel_add_operation();
                    } else {
                        self.cancel_editing();
                    }
                    self.set_mode(EditorMode::Normal);
                    self.set_message(str_to_string("Edit cancelled"), MessageLevel::Info);
                }
            },
            _ => {},
        }
    }

    /// A key in command mode: Enter hands the typed command back to run;
    /// Tab completes; Backspace leaves the mode once the text is empty.
    fn command_key(&mut self, key: BackendKey) -> (r: HandlerAction)
        requires
            old(self).wf(),
        ensures
            final(self).wf(),
            command_key_outcome(*old(self), *final(self), key, r),
    {
        match key {
            BackendKey::Char('\n') => {
                let command = str_to_string(self.command_buffer());
                self.clear_command_buffer();
                self.set_mode(EditorMode::Normal);
                return HandlerAction::RunCommand(command);
            },
            BackendKey::Char('\t') => self.handle_tab_completion(),
            BackendKey::Char(c) => self.push_to_command_buffer(c),
            BackendKey::Backspace => {
                self.pop_from_command_buffer();
                if crate::text::char_count(self.command_buffer()) == 0 {
                    self.set_mode(EditorMode::Normal);
                }
            },
            BackendKey::Esc => {
                self.clear_command_buffer();
                self.set_mode(EditorMode::Normal);
            },
            _ => {},
        }
        HandlerAction::Continue
    }

    /// A key in search mode: typing searches as it goes; Enter leaves the
    /// mode saying how many matches there are; Esc leaves it.
    fn search_key(&mut self, key: BackendKey)
        requires
            old(self).wf(),
        ensures
            final(self).wf(),
            search_key_outcome(*old(self), *final(self), key),
    {
        match key {
            BackendKey::Char('\n') => {
                self.set_mode(EditorMode::Normal);
                match self.search_results_info() {
                    Some((_current, total)) => {
                        assert(total as nat == self.results().len());
                        let m = text3("Found ", count_text(total).as_str(), " matches");
                        self.set_message(m, MessageLevel::Info);
                    },
                    None => {
                        self.set_message(str_to_string("No matches found"), MessageLevel::Warning);
                    },
                }
            },
            BackendKey::Char(c) => {
                self.push_to_search_buffer(c);
                self.execute_search();
            },
            BackendKey::Backspace => {
                self.pop_from_search_buffer();
                self.execute_search();
            },
            BackendKey::Esc => {
                self.clear_search_buffer();
                self.set_mode(EditorMode::Normal);
            },
            _ => {},
        }
    }

    /// A key while the theme picker is shown: up and down choose, Enter
    /// applies, Esc or `q` cancels; other keys do nothing.
    fn picker_key(&mut self, key: BackendKey)
        requires
            old(self).wf(),
        ensures
            final(self).wf(),
            picker_key_outcome(*old(self), *final(self), key),
    {
        match key {
            BackendKey::Up | BackendKey::Char('k') => self.theme_picker_previous(),
            BackendKey::Down | BackendKey::Char('j') => self.theme_picker_next(),
            BackendKey::Char('\n') => self.theme_picker_apply(),
            BackendKey::Esc | BackendKey::Char('q') => self.theme_picker_cancel(),
            _ => {},
        }
    }

    /// A key while the help is shown: Esc or F1 closes it, up and down
    /// scroll; other keys do nothing.
    fn help_key(&mut self, key: BackendKey)
        requires
            old(self).wf(),
        ensures
            final(self).wf(),
            help_key_outcome(*old(self), *final(self), key),
    {
        match key {
            BackendKey::Esc | BackendKey::F(1) => self.toggle_help(),
            BackendKey::Down | BackendKey::Char('j') => self.scroll_help_down(),
            BackendKey::Up | BackendKey::Char('k') => self.scroll_help_up(),
            _ => {},
        }
    }

    /// The path at the cursor in one notation, to be put on the clipboard;
    /// a message when there is none.
    fn path_yank(&mut self, c: char) -> (r: HandlerAction)
        requires
            old(self).wf(),
        ensures
            final(self).wf(),
            final(self).doc() == old(self).doc(),
            final(self).same_document(old(self)),
            r is CopyPath || r == HandlerAction::Continue,
            final(self).pending_cmd() is None && final(self).pending_reg() is None,
            match path_text(old(self).doc().root, old(self).cursor_at(), path_format(c).0) {
                Some(t) => r matches HandlerAction::CopyPath(x, l) && x@ == t && l@ == path_format(c).1,
                None => r == HandlerAction::Continue && final(self).msg() == Some(
                    ("Failed to yank path"@, MessageLevel::Error),
                ),
            },
    {
        self.clear_pending();
        assert(self.pending_cmd() is None && self.pending_reg() is None);
        let (path, label) = if c == 'p' {
            (self.yank_path_dot(), "dot notation")
        } else if c == 'b' {
            (self.yank_path_bracket(), "bracket notation")
        } else {
            (self.yank_path_jq(), "jq style")
        };
        match path {
            Some(p) => HandlerAction::CopyPath(p, str_to_string(label)),
            None => {
                self.set_message(str_to_string("Failed to yank path"), MessageLevel::Error);
                HandlerAction::Continue
            },
        }
    }

    /// A key while the key of a new entry is typed: Enter adds the
    /// container or goes on to the value; printable characters and
    /// Backspace edit the key; Esc cancels.
    fn add_key_key(&mut self, key: BackendKey)
        requires
            old(self).wf(),
        ensures
            final(self).wf(),
            match key {
                BackendKey::Char('\n') => if old(self).temp() is Some {
                    exists|mid: EditorState, res: Result<(), EditError>| {
                        &&& #[trigger] container_commit(*old(self), mid, res)
                        &&& final(self).doc() == mid.doc()
                        &&& res matches Err(e) ==> final(self).add_stage() == AddModeStage::Inactive && final(self).msg()
                            == Some(("Add failed: "@ + e.message_text(), MessageLevel::Error))
                    }
                } else {
                    &&& final(self).same_document(old(self))
                    &&& final(self).add_stage() == if old(self).add_stage() == AddModeStage::AwaitingKey
                        && old(self).key_text().len() > 0 {
                        AddModeStage::AwaitingValue
                    } else {
                        old(self).add_stage()
                    }
                },
                BackendKey::Char(c) => if ' ' <= c && c <= '~' {
                    final(self).same_document(old(self)) && final(self).key_text() == old(self).key_text().take(
                        old(self).key_pos() as int,
                    ).push(c) + old(self).key_text().skip(old(self).key_pos() as int)
                } else {
                    *final(self) == *old(self)
                },
                BackendKey::Backspace => final(self).same_document(old(self)) && final(self).key_text() == if old(self).key_pos() > 0 {
                    old(self).key_text().take(old(self).key_pos() - 1) + old(self).key_text().skip(old(self).key_pos() as int)
                } else {
                    old(self).key_text()
                },
                BackendKey::Esc => final(self).same_document(old(self)) && final(self).add_stage() == AddModeStage::Inactive
                    && final(self).mode_value() == EditorMode::Normal,
                _ => *final(self) == *old(self),
            },
    {
        match key {
            BackendKey::Char('\n') => {
                if self.has_temp_container() {
                    match self.commit_container_add() {
                        Ok(()) => {},
                        Err(e) => {
                            let m = e.message();
                            self.set_message(crate::text::concat("Add failed: ", m.as_str()), MessageLevel::Error);
                            self.cancel_add_operation();
                        },
                    }
                } else {
                    self.transition_add_to_value();
                }
            },
            BackendKey::Char(c) => if is_printable_ascii(c) {
                if crate::text::char_count(self.add_key_buffer()) == 0 {
                    self.clear_message();
                }
                self.push_to_add_key_buffer(c);
            },
            BackendKey::Backspace => self.pop_from_add_key_buffer(),
            BackendKey::Esc => {
                self.cancel_add_operation();
                self.set_mode(EditorMode::Normal);
            },
            _ => {},
        }
    }

    /// Whether a node can be added after the cursor: its index is not the
    /// largest an index can hold.
    fn can_add_after_cursor(&self) -> (r: bool)
        ensures
            r == self.cursor_index_fits(),
    {
        let p = self.cursor.path();
        p.len() == 0 || p[p.len() - 1] < usize::MAX
    }

    /// What a terminal event does (see the methods above for each mode and
    /// `apply_input_event` for the normal-mode bindings).
    /// `awaiting_register` is set after `"` until the register name comes;
    /// `value_float` and `trimmed_float` are the edited text read as a
    /// floating-point number, as is and trimmed, when it reads as one.
    pub fn handle_event(
        &mut self,
        event: BackendEvent,
        awaiting_register: &mut bool,
        value_float: Option<String>,
        trimmed_float: Option<String>,
    ) -> (r: HandlerAction)
        requires
            old(self).wf(),
        ensures
            final(self).wf(),
            r == HandlerAction::Quit ==> !old(self).dirty_flag(),
            r matches HandlerAction::RunCommand(c) ==> c@ == old(self).command_text() && old(self).mode_value()
                == EditorMode::Command,
            *old(awaiting_register) ==> !*final(awaiting_register) && r == HandlerAction::Continue,
            *old(awaiting_register) ==> match register_typed(event) {
                Some(c) => final(self).pending_reg() == Some(lower_char(c)) && final(self).appending() == ('A' <= c && c <= 'Z'),
                None => *final(self) == *old(self),
            },
            !*old(awaiting_register) && old(self).mark_waits().0 ==> !final(self).mark_waits().0 && match mark_typed(event) {
                Some(c) => final(self).mark_map() == old(self).mark_map().insert(c, old(self).cursor_at()),
                None => final(self).mark_map() == old(self).mark_map(),
            },
            !*old(awaiting_register) && !old(self).mark_waits().0 && !old(self).mark_waits().1 && event is Mouse
                && !old(self).settings().2 ==> *final(self) == *old(self),
            !*old(awaiting_register) && !old(self).mark_waits().0 && !old(self).mark_waits().1 ==> match event {
                BackendEvent::Key(k) => if old(self).mode_value() == EditorMode::Insert {
                    insert_key_outcome(*old(self), *final(self), k, value_float, trimmed_float) && r == HandlerAction::Continue
                } else if old(self).mode_value() == EditorMode::Command {
                    command_key_outcome(*old(self), *final(self), k, r)
                } else if old(self).mode_value() == EditorMode::Search {
                    search_key_outcome(*old(self), *final(self), k) && r == HandlerAction::Continue
                } else if old(self).picker_shown() {
                    picker_key_outcome(*old(self), *final(self), k) && r == HandlerAction::Continue
                } else if old(self).help_shown() {
                    help_key_outcome(*old(self), *final(self), k) && r == HandlerAction::Continue
                } else if normal_prefix(*old(self), k) {
                    (r is CopyPath || r == HandlerAction::Continue) && prefix_outcome(*old(self), *final(self), k, r)
                } else {
                    event_outcome(*old(self), *final(self), key_action(k, old(self).mode_value()), r)
                },
                BackendEvent::Mouse(m) => mouse_outcome(*old(self), *final(self), m) && r == HandlerAction::Continue,
            },
            !*old(awaiting_register) ==> (*final(awaiting_register) == (event matches BackendEvent::Key(k)
                && reaches_bindings(*old(self), false, k) && key_action(k, old(self).mode_value()) == InputEvent::RegisterSelect)),
            (r == HandlerAction::Quit) == (event matches BackendEvent::Key(k) && reaches_bindings(*old(self), *old(awaiting_register), k)
                && key_action(k, old(self).mode_value()) == InputEvent::Quit && !old(self).dirty_flag()),
    {
        if *awaiting_register {
            self.register_key(event);
            *awaiting_register = false;
            return HandlerAction::Continue;
        }
        if self.pending_mark_set() {
            self.mark_set_key(event);
            return HandlerAction::Continue;
        }
        if self.pending_mark_jump() {
            self.mark_jump_key(event);
            return HandlerAction::Continue;
        }
        let key = match event {
            BackendEvent::Mouse(m) => {
                self.mouse_event(m);
                return HandlerAction::Continue;
            },
            BackendEvent::Key(k) => k,
        };
        if *self.mode() == EditorMode::Insert {
            self.insert_key(key, value_float, trimmed_float);
            return HandlerAction::Continue;
        }
        if *self.mode() == EditorMode::Command {
            return self.command_key(key);
        }
        if *self.mode() == EditorMode::Search {
            self.search_key(key);
            return HandlerAction::Continue;
        }
        if self.show_theme_picker() {
            self.picker_key(key);
            return HandlerAction::Continue;
        }
        if self.show_help() {
            self.help_key(key);
            return HandlerAction::Continue;
        }
        if *self.mode() == EditorMode::Normal {
            if let BackendKey::Char(c) = key {
                if let Some(digit) = digit_value(c) {
                    if digit > 0 || self.pending_count().is_some() {
                        self.push_count_digit(digit);
                        return HandlerAction::Continue;
                    }
                }
                if self.pending_command() == Some('y') && (c == 'p' || c == 'b' || c == 'q') {
                    return self.path_yank(c);
                }
                if self.pending_command() == Some('z') && (c == 'z' || c == 't' || c == 'b') {
                    self.clear_pending();
                    if c == 'z' {
                        self.center_cursor_on_screen();
                    } else if c == 't' {
                        self.cursor_to_top_of_screen();
                    } else {
                        self.cursor_to_bottom_of_screen();
                    }
                    return HandlerAction::Continue;
                }
            }
            if *self.add_mode_stage() == AddModeStage::AwaitingKey {
                self.add_key_key(key);
                return HandlerAction::Continue;
            }
        }
        let input_event = map_key_event(BackendEvent::Key(key), self.mode());
        self.apply_input_event(input_event, awaiting_register)
    }
}

/// The first line shown after `zz`, `zt` or `zb`: the cursor's line in the
/// middle, at the top or at the bottom of the view, as far as the lines go.
pub open spec fn z_scroll(c: char, l: Seq<LineModel>, v: nat, p: Seq<usize>, scroll: nat) -> int {
    if c == 't' {
        if l.len() == 0 { scroll as int } else { cursor_line(l, p) }
    } else if v == 0 || l.len() == 0 {
        scroll as int
    } else {
        let cl = cursor_line(l, p);
        if c == 'z' {
            let s: int = if cl >= v / 2 { cl - v / 2 } else { 0 };
            let m: int = if l.len() >= v { l.len() - v } else { 0 };
            if s < m { s } else { m }
        } else {
            if cl >= v - 1 { cl - (v - 1) } else { 0 }
        }
    }
}

/// What a key does in normal mode after a count digit, `y` or `z`: a digit
/// extends the count (it saturates); `yp`, `yb` and `yq` copy the cursor's
/// path in dot, bracket or jq notation; `zz`, `zt` and `zb` scroll.
pub open spec fn prefix_outcome(s0: EditorState, s1: EditorState, k: BackendKey, r: HandlerAction) -> bool {
    match k {
        BackendKey::Char(c) => if ('1' <= c && c <= '9') || (c == '0' && s0.count_typed() is Some) {
            let d = ((c as u32) - ('0' as u32)) as u32;
            &&& r == HandlerAction::Continue
            &&& s1.same_document(&s0)
            &&& s1.count_typed() == Some(match s0.count_typed() {
                Some(n) => if n * 10 + d <= u32::MAX { (n * 10 + d) as u32 } else { u32::MAX },
                None => d,
            })
        } else if s0.pending_cmd() == Some('y') && (c == 'p' || c == 'b' || c == 'q') {
            &&& s1.same_document(&s0)
            &&& s1.pending_cmd() is None
            &&& match path_text(s0.doc().root, s0.cursor_at(), path_format(c).0) {
                Some(t) => r matches HandlerAction::CopyPath(x, l) && x@ == t && l@ == path_format(c).1,
                None => r == HandlerAction::Continue && s1.msg() == Some(("Failed to yank path"@, MessageLevel::Error)),
            }
        } else if s0.pending_cmd() == Some('z') && (c == 'z' || c == 't' || c == 'b') {
            &&& r == HandlerAction::Continue
            &&& s1.doc() == s0.doc()
            &&& s1.cursor_at() == s0.cursor_at()
            &&& s1.scroll() == z_scroll(c, s0.shown(), s0.viewport(), s0.cursor_at(), s0.scroll())
        } else {
            r == HandlerAction::Continue
        },
        _ => r == HandlerAction::Continue,
    }
}

/// The count typed before a command, 1 when none was.
pub open spec fn typed_count(s: EditorState) -> nat {
    match s.count_typed() {
        Some(n) => n as nat,
        None => 1,
    }
}

/// What a normal-mode binding does (see `EditorState::apply_input_event`).
pub open spec fn input_event_outcome(s0: EditorState, s1: EditorState, ev: InputEvent, r: HandlerAction) -> bool {
    &&& r == HandlerAction::Quit ==> !s0.dirty_flag()
    &&& !(r is RunCommand)
    &&& ev == InputEvent::Quit ==> (r == HandlerAction::Quit) == !s0.dirty_flag()
    &&& ev == InputEvent::EnterCommandMode ==> s1.mode_value() == EditorMode::Command && s1.command_text().len() == 0
    &&& ev == InputEvent::Help ==> s1.help_shown() == !s0.help_shown()
    &&& ev == InputEvent::SaveAndQuit && s0.pending_cmd() == Some('Z') ==> match s0.file_name() {
            Some(f) => r matches HandlerAction::SaveAndQuit(x) && x@ == f,
            None => r == HandlerAction::Continue,
        }
    &&& ev != InputEvent::Quit && ev != InputEvent::SaveAndQuit ==> r == HandlerAction::Continue
    &&& ev == InputEvent::Quit && s0.dirty_flag() ==> s1.dirty_flag() && s1.msg() == Some(("No write since last change (use :q! to force)"@, MessageLevel::Error))
}

/// The cursor after `]`: the next sibling, when there is one.
pub open spec fn next_sibling_at(root: NodeModel, p: Seq<usize>) -> Seq<usize> {
    if p.len() > 0 && p.last() < usize::MAX && node_at(root, p.update(p.len() - 1, (p.last() + 1) as usize)) is Some {
        p.update(p.len() - 1, (p.last() + 1) as usize)
    } else {
        p
    }
}

/// The cursor after `[`: the previous sibling, when there is one.
pub open spec fn previous_sibling_at(root: NodeModel, p: Seq<usize>) -> Seq<usize> {
    if p.len() > 0 && p.last() > 0 && node_at(root, p.update(p.len() - 1, (p.last() - 1) as usize)) is Some {
        p.update(p.len() - 1, (p.last() - 1) as usize)
    } else {
        p
    }
}

/// The cursor after moving to the first sibling.
pub open spec fn first_sibling_at(root: NodeModel, p: Seq<usize>) -> Seq<usize> {
    if p.len() > 0 && node_at(root, p.update(p.len() - 1, 0usize)) is Some {
        p.update(p.len() - 1, 0usize)
    } else {
        p
    }
}

/// The cursor after moving to the last sibling.
pub open spec fn last_sibling_at(root: NodeModel, p: Seq<usize>) -> Seq<usize> {
    if p.len() > 0 && (node_at(root, p.drop_last()) matches Some(parent) && parent.value.child_count() > 0) {
        p.update(p.len() - 1, (node_at(root, p.drop_last())->0.value.child_count() - 1) as usize)
    } else {
        p
    }
}

/// The cursor after moving to the next (`forward`) or previous line at the
/// same or a shallower depth.
pub open spec fn shallower_at(l: Seq<LineModel>, p: Seq<usize>, forward: bool) -> Seq<usize> {
    match line_index(l, p) {
        Some(i) => match (if forward { next_shallower(l, i, l[i].depth) } else { previous_shallower(l, i, l[i].depth) }) {
            Some(j) => l[j].path,
            None => p,
        },
        None => p,
    }
}

/// The bindings that change the mode, the view or the cursor, or start an
/// add, a rename, a mark or a prefix (see `EditorState::apply_input_event`).
pub open spec fn binding_outcome(s0: EditorState, s1: EditorState, ev: InputEvent) -> bool {
    let root = s0.doc().root;
    let p = s0.cursor_at();
    &&& ev == InputEvent::EnterInsertMode ==> {
        &&& s1.doc() == s0.doc()
        &&& s1.cursor_at() == p
        &&& match node_at(root, p) {
            Some(n) => match start_text(n.value) {
                Some(t) => s1.edit_text() == Some(t) && s1.edit_pos() == t.len(),
                None => true,
            },
            None => true,
        }
        &&& s1.edit_text() is Some ==> s1.mode_value() == EditorMode::Insert && s1.msg() == Some(("-- INSERT --"@, MessageLevel::Info))
        &&& s1.edit_text() is None ==> s1.mode_value() == s0.mode_value() && s1.msg() == Some(("Cannot edit this node type"@, MessageLevel::Error))
    }
    &&& (ev == InputEvent::EnterSearchMode || ev == InputEvent::EnterReverseSearchMode) ==> {
        &&& s1.mode_value() == EditorMode::Search
        &&& s1.search_text().len() == 0
        &&& s1.forward() == (ev == InputEvent::EnterSearchMode)
        &&& s1.doc() == s0.doc()
        &&& s1.cursor_at() == p
    }
    &&& ev == InputEvent::ExitMode ==> {
        &&& s1.mode_value() == EditorMode::Normal
        &&& s0.mode_value() == EditorMode::Visual ==> s1.selection().len() == 0 && s1.anchor() is None
        &&& s1.doc() == s0.doc()
        &&& s1.cursor_at() == p
    }
    &&& (ev == InputEvent::MoveRight || ev == InputEvent::MoveLeft) ==> s1.doc() == s0.doc() && s1.cursor_at() == p
    &&& ev == InputEvent::ExpandAll ==> {
        &&& s1.doc() == s0.doc()
        &&& s1.cursor_at() == p
        &&& s1.view_current()
        &&& s1.expanded() == s0.expanded().union(node_and_descendants(root, p))
    }
    &&& ev == InputEvent::CollapseAll ==> {
        &&& s1.doc() == s0.doc()
        &&& s1.cursor_at() == p
        &&& s1.view_current()
        &&& s1.expanded() == s0.expanded().difference(node_and_descendants(root, p))
    }
    &&& (ev == InputEvent::HalfPageDown || ev == InputEvent::FullPageDown) ==> {
        &&& s1.doc() == s0.doc()
        &&& s1.shown() == s0.shown()
        &&& page_down_effect(s0.shown(), p, s0.scroll(), s0.viewport(),
            if ev == InputEvent::HalfPageDown { s0.viewport() / 2 } else { s0.viewport() }, s1.cursor_at(), s1.scroll())
    }
    &&& (ev == InputEvent::HalfPageUp || ev == InputEvent::FullPageUp) ==> {
        &&& s1.doc() == s0.doc()
        &&& s1.shown() == s0.shown()
        &&& page_up_effect(s0.shown(), p, s0.scroll(), s0.viewport(),
            if ev == InputEvent::HalfPageUp { s0.viewport() / 2 } else { s0.viewport() }, s1.cursor_at(), s1.scroll())
    }
    &&& ev == InputEvent::Add ==> if s0.cursor_index_fits() {
        add_started(s0, s1, add_start(root, p))
    } else {
        s1.doc() == s0.doc() && s1.cursor_at() == p
    }
    &&& (ev == InputEvent::AddArray || ev == InputEvent::AddObject) ==> if s0.cursor_index_fits() {
        container_started(s0, s1, add_start(root, p), ev == InputEvent::AddObject)
    } else {
        s1.doc() == s0.doc() && s1.cursor_at() == p
    }
    &&& ev == InputEvent::Rename ==> {
        &&& add_keeps(s0, s1)
        &&& match rename_start(root, p) {
            Ok(k) => s1.renaming() && s1.rename_from() == Some(k) && s1.edit_text() == Some(k) && s1.edit_pos() == k.len()
                && s1.mode_value() == EditorMode::Insert && s1.msg() == Some(("-- RENAME --"@, MessageLevel::Info)),
            Err(m) => s1.msg() == Some((m, MessageLevel::Error)),
        }
    }
    &&& ev == InputEvent::NextSibling ==> s1.doc() == s0.doc() && s1.cursor_at() == next_sibling_at(root, p)
    &&& ev == InputEvent::PreviousSibling ==> s1.doc() == s0.doc() && s1.cursor_at() == previous_sibling_at(root, p)
    &&& ev == InputEvent::FirstSibling ==> s1.doc() == s0.doc() && s1.cursor_at() == first_sibling_at(root, p)
    &&& ev == InputEvent::LastSibling ==> s1.doc() == s0.doc() && s1.cursor_at() == last_sibling_at(root, p)
    &&& ev == InputEvent::NextAtSameOrShallowerDepth ==> s1.doc() == s0.doc() && s1.cursor_at() == shallower_at(s0.shown(), p, true)
    &&& ev == InputEvent::PreviousAtSameOrShallowerDepth ==> s1.doc() == s0.doc() && s1.cursor_at() == shallower_at(s0.shown(), p, false)
    &&& ev == InputEvent::MoveToParent ==> s1.doc() == s0.doc() && s1.cursor_at() == (if p.len() > 0 { p.drop_last() } else { p })
    &&& ev == InputEvent::ScreenPosition ==> s1.pending_cmd() == Some('z') && s1.msg() is None && s1.doc() == s0.doc() && s1.cursor_at() == p
    &&& ev == InputEvent::RegisterSelect ==> s1.msg() is None && s1.doc() == s0.doc() && s1.cursor_at() == p
    &&& ev == InputEvent::EnterVisualMode ==> {
        &&& s1.mode_value() == EditorMode::Visual
        &&& s1.anchor() == Some(p)
        &&& s1.selection() == seq![p]
        &&& s1.msg() == Some(("-- VISUAL --"@, MessageLevel::Info))
        &&& s1.doc() == s0.doc()
        &&& s1.cursor_at() == p
    }
    &&& ev == InputEvent::MarkSet ==> s1.mark_waits().0 && s1.mark_map() == s0.mark_map() && s1.doc() == s0.doc()
    &&& ev == InputEvent::MarkJump ==> {
        &&& s1.mark_waits().1
        &&& s1.doc() == s0.doc()
        &&& s1.cursor_at() == p
        &&& if s0.pending_cmd() == Some('d') || s0.pending_cmd() == Some('y') {
            s1.jumps() == s0.jumps()
        } else {
            s1.jumps() == record_model(s0.jumps(), p)
        }
    }
    &&& ev == InputEvent::Repeat ==> s1.msg() is Some
    &&& (ev is InsertCharacter || ev == InputEvent::InsertBackspace || ev == InputEvent::InsertEnter
        || ev == InputEvent::JumpToAnchor || ev == InputEvent::AddComment || ev == InputEvent::Unknown) ==> s1.doc() == s0.doc()
        && s1.cursor_at() == p && s1.mode_value() == s0.mode_value()
}

/// Everything a normal- or visual-mode binding is stated to do.
pub open spec fn event_outcome(s0: EditorState, s1: EditorState, ev: InputEvent, r: HandlerAction) -> bool {
    &&& input_event_outcome(s0, s1, ev, r)
    &&& binding_outcome(s0, s1, ev)
    &&& ev == InputEvent::Yank ==> yank_outcome(s0, s1)
    &&& ev == InputEvent::Delete ==> delete_key_outcome(s0, s1)
    &&& ev == InputEvent::Paste ==> paste_key_outcome(s0, s1, false)
    &&& ev == InputEvent::PasteBefore ==> paste_key_outcome(s0, s1, true)
    &&& (ev == InputEvent::Undo || ev == InputEvent::Redo || ev == InputEvent::JumpBackward || ev == InputEvent::JumpForward)
        ==> history_outcome(s0, s1, ev)
    &&& ev == InputEvent::JumpToTop ==> jump_key_outcome(s0, s1, true)
    &&& ev == InputEvent::JumpToBottom ==> jump_key_outcome(s0, s1, false)
    &&& (ev == InputEvent::NextSearchResult || ev == InputEvent::SearchKeyForward || ev == InputEvent::SearchKeyBackward)
        ==> search_command_outcome(s0, s1, ev)
    &&& (ev == InputEvent::MoveDown || ev == InputEvent::MoveUp) ==> s1.doc() == s0.doc() && s1.cursor_at() == lines_stepped(
        s0.shown(),
        s0.cursor_at(),
        match s0.count_typed() {
            Some(n) => n as nat,
            None => 1,
        },
        ev == InputEvent::MoveDown,
    )
}

/// What the mouse wheel does: scrolls the help by three lines when it is
/// shown, else moves the cursor by three lines; nothing when the mouse is
/// off.
pub open spec fn mouse_outcome(s0: EditorState, s1: EditorState, m: BackendMouse) -> bool {
    &&& s1.doc() == s0.doc()
    &&& !s0.settings().2 ==> s1 == s0
    &&& s0.settings().2 && s0.help_shown() ==> s1.cursor_at() == s0.cursor_at()
        && s1.help_offset() == help_stepped(s0.help_offset(), 3, m == BackendMouse::WheelDown)
    &&& s0.settings().2 && !s0.help_shown() ==> s1.cursor_at() == lines_stepped(s0.shown(), s0.cursor_at(), 3, m == BackendMouse::WheelDown)
}

/// What `y` does (see `EditorState::yank_command`).
pub open spec fn yank_outcome(s0: EditorState, s1: EditorState) -> bool {
    &&& s1.doc() == s0.doc()
    &&& s0.mode_value() == EditorMode::Visual ==> ({
            let s = s0.selection();
            let p = present(s0.doc().root, s, s.len() as int);
            &&& s1.mode_value() == EditorMode::Normal
            &&& s1.selection().len() == 0
            &&& p.len() > 0 ==> s1.regs() == store_yank(
                s0.regs(),
                None,
                false,
                content_at(s0.doc().root, p),
            ) && s1.msg() == Some((nodes_text(p.len(), "yanked"@), MessageLevel::Info))
            &&& p.len() == 0 ==> s1.regs() == s0.regs()
        })
    &&& s0.mode_value() != EditorMode::Visual && s0.pending_cmd() == Some('y') ==> ({
            let c: nat = match s0.count_typed() {
                Some(n) => n as nat,
                None => 1,
            };
            let paths = yank_walk(s0.doc().root, s0.shown(), s0.cursor_at(), c);
            &&& paths.len() > 0 ==> s1.regs() == store_yank(
                s0.regs(),
                None,
                false,
                content_at(s0.doc().root, paths),
            ) && s1.has_last_command() && s1.msg() == Some(
                (nodes_text(c, "yanked"@), MessageLevel::Info),
            )
            &&& paths.len() == 0 ==> s1.regs() == s0.regs() && s1.msg() == Some(
                ("Nothing to yank"@, MessageLevel::Error),
            )
        })
    &&& s0.mode_value() != EditorMode::Visual && s0.pending_cmd() != Some('y') ==> s1.pending_cmd() == Some('y') && s1.msg() is None && s1.regs() == s0.regs()
}

/// What `d` does (see `EditorState::delete_command`).
pub open spec fn delete_key_outcome(s0: EditorState, s1: EditorState) -> bool {
    &&& s0.mode_value() == EditorMode::Visual ==> s1.mode_value() == EditorMode::Normal
            && s1.selection().len() == 0 && (s0.selection().len() == 0 ==> s1.doc()
            == s0.doc())
    &&& s0.mode_value() != EditorMode::Visual && s0.pending_cmd() == Some('d') ==> ({
            let c: nat = match s0.count_typed() {
                Some(n) => n as nat,
                None => 1,
            };
            &&& c > 0 && !delete_succeeds(s0.doc().root, s0.cursor_at()) ==> (s1.msg() matches Some(
                (t, MessageLevel::Error),
            ))
            &&& c > 0 && delete_succeeds(s0.doc().root, s0.cursor_at()) ==> exists|mid: EditorState, end: EditorState, k: nat| {
                &&& #[trigger] repeated_delete(mid, end, typed_count(s0), k)
                &&& mid.same_document(&s0)
                &&& 1 <= k
                &&& s1.same_document(&end)
                &&& k == c ==> s1.has_last_command() && s1.msg() == Some((nodes_text(k, "deleted (yanked)"@), MessageLevel::Info))
            }
        })
    &&& s0.mode_value() != EditorMode::Visual && s0.pending_cmd() != Some('d') ==> s1.pending_cmd() == Some('d') && s1.msg() is None && s1.doc() == s0.doc()
}

/// What `p` and `P` do (see `EditorState::paste_command`).
pub open spec fn paste_key_outcome(s0: EditorState, s1: EditorState, before: bool) -> bool {
    &&& exists|mid0: EditorState, mid1: EditorState, res: Result<(), EditError>| {
            &&& #[trigger] paste_outcome(mid0, mid1, pastes_after(before), res)
            &&& s0.mode_value() != EditorMode::Visual ==> mid0.pending_reg() is None && mid0.same_document(&s0)
            &&& s1.doc() == mid1.doc()
            &&& res is Ok ==> s1.has_last_command() && s1.msg() == Some((
                if before { "Node pasted before"@ } else { "Node pasted after"@ },
                MessageLevel::Info,
            ))
            &&& res matches Err(e) ==> s1.msg() == Some(
                ("Paste failed: "@ + e.message_text(), MessageLevel::Error),
            )
        }
}

/// What undo, redo and the jump-list keys do (see `EditorState::history_command`).
pub open spec fn history_outcome(s0: EditorState, s1: EditorState, ev: InputEvent) -> bool {
    &&& ev == InputEvent::Undo ==> s1.doc() == match s0.undo_target() {
            Some(t) => t,
            None => s0.doc(),
        } && s1.msg() == Some((
            if s0.undo_target() is Some { "Undo"@ } else { "Already at oldest change"@ },
            MessageLevel::Info,
        ))
    &&& ev == InputEvent::Redo ==> s1.doc() == match s0.redo_target() {
            Some(t) => t,
            None => s0.doc(),
        } && s1.msg() == Some((
            if s0.redo_target() is Some { "Redo"@ } else { "Already at newest change"@ },
            MessageLevel::Info,
        ))
    &&& ev != InputEvent::Undo && ev != InputEvent::Redo ==> ({
            let m = s0.jumps();
            let back = ev == InputEvent::JumpBackward;
            let moved = if back { m.current > 0 && m.jumps.len() > 0 } else { m.jumps.len() > 0 && m.current + 1 < m.jumps.len() };
            &&& s1.doc() == s0.doc()
            &&& !moved ==> s1.cursor_at() == s0.cursor_at() && s1.msg() == Some((
                if back { "Already at oldest jump"@ } else { "Already at newest jump"@ },
                MessageLevel::Info,
            ))
            &&& moved ==> s1.cursor_at() == (if back { m.jumps[m.current - 1] } else { m.jumps[m.current + 1int] })
                && s1.jumps().current == (if back { m.current - 1 } else { m.current + 1int })
        })
}

/// What `gg` and `G` do (see `EditorState::jump_command`).
pub open spec fn jump_key_outcome(s0: EditorState, s1: EditorState, top: bool) -> bool {
    &&& s1.doc() == s0.doc()
    &&& s1.shown() == s0.shown()
    &&& ({
            let l = s0.shown();
            let p = s0.cursor_at();
            match s0.count_typed() {
                Some(n) => s1.cursor_at() == if 1 <= n <= l.len() { l[n - 1].path } else { p },
                None => if !top || s0.pending_cmd() == Some('g') {
                    s1.cursor_at() == if l.len() == 0 {
                        p
                    } else if top {
                        l[0].path
                    } else {
                        l.last().path
                    }
                } else {
                    s1.pending_cmd() == Some('g') && s1.msg() is None && s1.cursor_at() == p
                },
            }
        })
}

/// What the search-result keys do (see `EditorState::search_command`).
pub open spec fn search_command_outcome(s0: EditorState, s1: EditorState, ev: InputEvent) -> bool {
    &&& s1.doc() == s0.doc()
    &&& s1.shown() == s0.shown()
    &&& ev == InputEvent::NextSearchResult ==> ({
            let n = s0.results().len();
            let i = s0.result_at();
            &&& s1.results() == s0.results()
            &&& n == 0 ==> s1.cursor_at() == s0.cursor_at() && s1.msg() == Some(
                ("No search results (use / to search)"@, MessageLevel::Warning),
            )
            &&& n > 0 ==> s1.cursor_at() == s0.results()[if s0.forward() {
                ((i + 1) % n) as int
            } else if i == 0 {
                n - 1
            } else {
                i - 1
            }]
        })
    &&& ev != InputEvent::NextSearchResult ==> match line_index(s0.shown(), s0.cursor_at()) {
            Some(i) if s0.shown()[i].key is Some => s1.search_text() == s0.shown()[i].key->0,
            _ => s1.cursor_at() == s0.cursor_at(),
        }
}

impl EditorState {
    /// `count` moves of the cursor down (or up), then the visual selection
    /// follows the cursor in visual mode.
    fn move_lines(&mut self, count: u32, down: bool)
        requires
            old(self).wf(),
        ensures
            final(self).wf(),
            final(self).doc() == old(self).doc(),
            final(self).shown() == old(self).shown(),
            final(self).cursor_at() == lines_stepped(old(self).shown(), old(self).cursor_at(), count as nat, down),
    {
        let mut i: u32 = 0;
        while i < count
            invariant
                self.wf(),
                i <= count,
                self.doc() == old(self).doc(),
                self.shown() == old(self).shown(),
                self.cursor_at() == lines_stepped(old(self).shown(), old(self).cursor_at(), i as nat, down),
            decreases count - i,
        {
            if down {
                self.move_cursor_down();
            } else {
                self.move_cursor_up();
            }
            i = i + 1;
        }
        if *self.mode() == EditorMode::Visual {
            self.update_visual_selection();
        }
    }

    /// `n nodes <what>` for more than one node, else `Node <what>`.
    fn nodes_message(&mut self, n: usize, what: &str)
        requires
            old(self).wf(),
        ensures
            final(self).wf(),
            final(self).doc() == old(self).doc(),
            final(self).same_document(old(self)),
            final(self).same_extras(old(self)),
            final(self).mode_value() == old(self).mode_value(),
            final(self).msg() == Some((nodes_text(n as nat, what@), MessageLevel::Info)),
    {
        let m = if n > 1 {
            text3(count_text(n).as_str(), " nodes ", what)
        } else {
            crate::text::concat("Node ", what)
        };
        self.set_message(m, MessageLevel::Info);
    }

    /// `y`: in visual mode yanks the selection and leaves the mode; a
    /// second `y` yanks `count` nodes; a first one waits for the second.
    fn yank_command(&mut self)
        requires
            old(self).wf(),
        ensures
            final(self).wf(),
            yank_outcome(*old(self), *final(self)),
    {
        if *self.mode() == EditorMode::Visual {
            self.clear_pending();
            self.clear_search_results();
            let count = self.yank_visual_selection();
            if count > 0 {
                self.nodes_message(count, "yanked");
            }
            self.exit_visual_mode();
        } else if self.pending_command() == Some('y') {
            let count = self.get_count();
            self.clear_pending();
            self.clear_search_results();
            if self.yank_nodes(count) {
                self.set_last_command(RepeatableCommand::Yank { count });
                self.nodes_message(count as usize, "yanked");
            } else {
                self.set_message(str_to_string("Nothing to yank"), MessageLevel::Error);
            }
        } else {
            self.clear_message();
            self.set_pending_command('y');
        }
    }

    /// `d`: in visual mode deletes the selection and leaves the mode; a
    /// second `d` deletes `count` nodes, stopping at the first refusal; a
    /// first one waits for the second.
    #[verifier::rlimit(30)]
    fn delete_command(&mut self)
        requires
            old(self).wf(),
        ensures
            final(self).wf(),
            delete_key_outcome(*old(self), *final(self)),
    {
        if *self.mode() == EditorMode::Visual {
            self.clear_pending();
            self.clear_search_results();
            match self.delete_visual_selection() {
                Ok(count) => if count > 0 {
                    self.nodes_message(count, "deleted (yanked)");
                },
                Err(e) => {
                    let m = e.message();
                    self.set_message(crate::text::concat("Delete failed: ", m.as_str()), MessageLevel::Error);
                },
            }
            self.exit_visual_mode();
        } else if self.pending_command() == Some('d') {
            let count = self.get_count();
            self.clear_pending();
            self.clear_search_results();
            let ghost mid = *self;
            let ghost mut trace: Seq<EditorState> = seq![*self];
            let mut deleted: u32 = 0;
            let mut failed = false;
            while deleted < count && !failed
                invariant
                    self.wf(),
                    deleted <= count,
                    mid.same_document(old(self)),
                    trace.len() == deleted + 1,
                    trace[0] == mid,
                    deletes_chain(trace),
                    !failed ==> trace[deleted as int] == *self,
                    failed ==> deleted < count,
                    failed && deleted > 0 ==> exists|e: EditError| #[trigger] delete_outcome(trace[deleted as int], *self, Err(e)),
                    delete_succeeds(old(self).doc().root, old(self).cursor_at()) && failed ==> deleted > 0,
                    count == (match old(self).count_typed() {
                        Some(n) => n,
                        None => 1u32,
                    }),
                    deleted == 0 && !failed ==> self.doc() == old(self).doc() && self.cursor_at() == old(self).cursor_at(),
                    !delete_succeeds(old(self).doc().root, old(self).cursor_at()) ==> deleted == 0,
                    failed && deleted == 0 ==> self.msg() matches Some((t, MessageLevel::Error)),
                decreases count - deleted + (if failed { 0int } else { 1int }),
            {
                let ghost before = *self;
                match self.delete_node_at_cursor() {
                    Ok(()) => {
                        proof {
                            let t2 = trace.push(*self);
                            assert forall|j: int| 0 <= j < t2.len() - 1 implies #[trigger] delete_outcome(t2[j], t2[j + 1], Ok(())) by {
                                if j < trace.len() - 1 {
                                    assert(t2[j] == trace[j] && t2[j + 1] == trace[j + 1]);
                                }
                            }
                            trace = t2;
                        }
                        deleted = deleted + 1;
                    },
                    Err(e) => {
                        assert(delete_outcome(before, *self, Err(e)));
                        if deleted == 0 {
                            let m = e.message();
                            self.set_message(crate::text::concat("Delete failed: ", m.as_str()), MessageLevel::Error);
                        }
                        failed = true;
                    },
                }
            }
            let ghost end = *self;
            proof {
                if deleted > 0 {
                    assert(repeated_delete(mid, end, count as nat, deleted as nat));
                }
            }
            if !failed && deleted > 0 {
                self.set_last_command(RepeatableCommand::Delete { count });
                self.nodes_message(deleted as usize, "deleted (yanked)");
            }
            proof {
                if count > 0 && delete_succeeds(old(self).doc().root, old(self).cursor_at()) {
                    assert(deleted > 0);
                    assert(repeated_delete(mid, end, typed_count(*old(self)), deleted as nat));
                }
            }
        } else {
            self.clear_message();
            self.set_pending_command('d');
        }
    }

    /// `p` (after) or `P` (before): in visual mode the selection is deleted
    /// first; then the register content is pasted.
    fn paste_command(&mut self, before: bool)
        requires
            old(self).wf(),
        ensures
            final(self).wf(),
            paste_key_outcome(*old(self), *final(self), before),
    {
        self.clear_pending();
        self.clear_search_results();
        if *self.mode() == EditorMode::Visual {
            let _ = self.delete_visual_selection();
            self.exit_visual_mode();
        }
        let ghost mid0 = *self;
        let result = if before { self.paste_node_before_cursor() } else { self.paste_node_at_cursor() };
        let ghost mid1 = *self;
        assert(paste_outcome(mid0, mid1, pastes_after(before), result));
        match result {
            Ok(()) => {
                self.set_last_command(RepeatableCommand::Paste { before });
                let m = if before { "Node pasted before" } else { "Node pasted after" };
                self.set_message(str_to_string(m), MessageLevel::Info);
            },
            Err(e) => {
                let m = e.message();
                self.set_message(crate::text::concat("Paste failed: ", m.as_str()), MessageLevel::Error);
            },
        }
    }

    /// `ZZ`: the first `Z` waits for the second, which saves and quits
    /// (the save is handed back); without a file name, a message.
    fn save_and_quit_command(&mut self) -> (r: HandlerAction)
        requires
            old(self).wf(),
        ensures
            final(self).wf(),
            final(self).doc() == old(self).doc(),
            final(self).same_document(old(self)),
            r is SaveAndQuit || r == HandlerAction::Continue,
            old(self).pending_cmd() == Some('Z') ==> {
                &&& final(self).pending_cmd() is None
                &&& match old(self).file_name() {
                    Some(f) => r matches HandlerAction::SaveAndQuit(x) && x@ == f,
                    None => r == HandlerAction::Continue && final(self).msg() == Some(
                        ("No filename (use :w <filename>)"@, MessageLevel::Error),
                    ),
                }
            },
            old(self).pending_cmd() != Some('Z') ==> r == HandlerAction::Continue && final(self).pending_cmd() == Some('Z')
                && final(self).msg() is None,
    {
        if self.pending_command() == Some('Z') {
            self.clear_pending();
            self.clear_search_results();
            let name = match self.filename() {
                Some(f) => Some(str_to_string(f)),
                None => None,
            };
            match name {
                Some(f) => HandlerAction::SaveAndQuit(f),
                None => {
                    self.set_message(str_to_string("No filename (use :w <filename>)"), MessageLevel::Error);
                    HandlerAction::Continue
                },
            }
        } else {
            self.clear_message();
            self.set_pending_command('Z');
            HandlerAction::Continue
        }
    }

    /// `gg` and `G`, with a count: the line of that number; `gg` the top,
    /// `G` the bottom; a first `g` waits for the second.
    fn jump_command(&mut self, top: bool)
        requires
            old(self).wf(),
        ensures
            final(self).wf(),
            jump_key_outcome(*old(self), *final(self), top),
    {
        if self.pending_count().is_some() {
            let line = self.get_count();
            self.clear_pending();
            self.clear_search_results();
            self.record_jump();
            self.jump_to_line(line as usize);
        } else if !top || self.pending_command() == Some('g') {
            self.clear_pending();
            self.clear_search_results();
            self.record_jump();
            if top {
                self.jump_to_top();
            } else {
                self.jump_to_bottom();
            }
        } else {
            self.clear_message();
            self.set_pending_command('g');
        }
    }

    /// Search results: the next one (with a message telling where it is),
    /// or a key search forward or backward.
    fn search_command(&mut self, ev: InputEvent)
        requires
            old(self).wf(),
        ensures
            final(self).wf(),
            search_command_outcome(*old(self), *final(self), ev),
    {
        self.clear_pending();
        match ev {
            InputEvent::NextSearchResult => {
                self.record_jump();
                let (found, wrapped) = self.next_search_result();
                if found {
                    match self.search_results_info() {
                        Some((current, total)) => {
                            let head = text3(if wrapped { "W " } else { "" }, "Match ", count_text(current).as_str());
                            let m = text3(head.as_str(), "/", count_text(total).as_str());
                            self.set_message(m, MessageLevel::Info);
                        },
                        None => {},
                    }
                } else {
                    self.set_message(str_to_string("No search results (use / to search)"), MessageLevel::Warning);
                }
            },
            _ => {
                self.clear_search_results();
                self.record_jump();
                let forward = ev == InputEvent::SearchKeyForward;
                if self.execute_key_search(forward) {
                    match self.search_results_info() {
                        Some((current, total)) => {
                            let head = text3("Key search: match ", count_text(current).as_str(), "/");
                            let m = text3(head.as_str(), count_text(total).as_str(), "");
                            self.set_message(m, MessageLevel::Info);
                        },
                        None => {},
                    }
                }
            },
        }
    }

    /// Undo, redo and the jump list, with a message when there is nowhere
    /// to go.
    fn history_command(&mut self, ev: InputEvent)
        requires
            old(self).wf(),
        ensures
            final(self).wf(),
            history_outcome(*old(self), *final(self), ev),
    {
        self.clear_pending();
        self.clear_search_results();
        match ev {
            InputEvent::Undo => if self.undo() {
                self.set_message(str_to_string("Undo"), MessageLevel::Info);
            } else {
                self.set_message(str_to_string("Already at oldest change"), MessageLevel::Info);
            },
            InputEvent::Redo => if self.redo() {
                self.set_message(str_to_string("Redo"), MessageLevel::Info);
            } else {
                self.set_message(str_to_string("Already at newest change"), MessageLevel::Info);
            },
            InputEvent::JumpBackward => if self.jump_backward() {
                self.set_message(String::new(), MessageLevel::Info);
            } else {
                self.set_message(str_to_string("Already at oldest jump"), MessageLevel::Info);
            },
            _ => if self.jump_forward() {
                self.set_message(String::new(), MessageLevel::Info);
            } else {
                self.set_message(str_to_string("Already at newest jump"), MessageLevel::Info);
            },
        }
    }

    /// The normal-mode binding `ev`, with the count typed before it; `"`
    /// sets `awaiting_register` for the register name to come.
    #[verifier::rlimit(40)]
    pub fn apply_input_event(&mut self, ev: InputEvent, awaiting_register: &mut bool) -> (r: HandlerAction)
        requires
            old(self).wf(),
        ensures
            final(self).wf(),
            input_event_outcome(*old(self), *final(self), ev, r),
            binding_outcome(*old(self), *final(self), ev),
            *final(awaiting_register) == (*old(awaiting_register) || ev == InputEvent::RegisterSelect),
            ev == InputEvent::Yank ==> yank_outcome(*old(self), *final(self)),
            ev == InputEvent::Delete ==> delete_key_outcome(*old(self), *final(self)),
            ev == InputEvent::Paste ==> paste_key_outcome(*old(self), *final(self), false),
            ev == InputEvent::PasteBefore ==> paste_key_outcome(*old(self), *final(self), true),
            (ev == InputEvent::Undo || ev == InputEvent::Redo || ev == InputEvent::JumpBackward || ev == InputEvent::JumpForward) ==> history_outcome(*old(self), *final(self), ev),
            ev == InputEvent::JumpToTop ==> jump_key_outcome(*old(self), *final(self), true),
            ev == InputEvent::JumpToBottom ==> jump_key_outcome(*old(self), *final(self), false),
            (ev == InputEvent::NextSearchResult || ev == InputEvent::SearchKeyForward || ev == InputEvent::SearchKeyBackward) ==> search_command_outcome(*old(self), *final(self), ev),
            (ev == InputEvent::MoveDown || ev == InputEvent::MoveUp) ==> final(self).doc() == old(self).doc() && final(self).cursor_at() == lines_stepped(
                old(self).shown(),
                old(self).cursor_at(),
                match old(self).count_typed() {
                    Some(n) => n as nat,
                    None => 1,
                },
                ev == InputEvent::MoveDown,
            ),
            r == HandlerAction::Quit ==> ev == InputEvent::Quit,
    {
        match ev {
            InputEvent::Quit => {
                let dirty = self.is_dirty();
                self.clear_pending();
                self.clear_search_results();
                if dirty {
                    self.set_message(
                        str_to_string("No write since last change (use :q! to force)"),
                        MessageLevel::Error,
                    );
                    return HandlerAction::Continue;
                }
                return HandlerAction::Quit;
            },
            InputEvent::EnterInsertMode => {
                self.clear_pending();
                self.clear_search_results();
                self.start_editing();
                if self.edit_buffer().is_some() {
                    self.set_mode(EditorMode::Insert);
                    self.set_message(str_to_string("-- INSERT --"), MessageLevel::Info);
                } else {
                    self.set_message(str_to_string("Cannot edit this node type"), MessageLevel::Error);
                }
            },
            InputEvent::EnterCommandMode => {
                self.clear_pending();
                self.clear_search_results();
                self.clear_command_buffer();
                self.set_mode(EditorMode::Command);
            },
            InputEvent::EnterSearchMode | InputEvent::EnterReverseSearchMode => {
                self.clear_pending();
                self.clear_search_buffer();
                self.set_mode(EditorMode::Search);
                self.set_search_forward(ev == InputEvent::EnterSearchMode);
            },
            InputEvent::NextSearchResult | InputEvent::SearchKeyForward | InputEvent::SearchKeyBackward => {
                self.search_command(ev);
            },
            InputEvent::Help => {
                self.clear_pending();
                self.clear_search_results();
                self.toggle_help();
            },
            InputEvent::ExitMode => {
                self.clear_pending();
                self.clear_search_results();
                if *self.mode() == EditorMode::Visual {
                    self.exit_visual_mode();
                } else {
                    self.set_mode(EditorMode::Normal);
                }
            },
            InputEvent::MoveDown | InputEvent::MoveUp => {
                let count = self.get_count();
                self.clear_pending();
                self.clear_search_results();
                self.move_lines(count, ev == InputEvent::MoveDown);
            },
            InputEvent::MoveRight | InputEvent::MoveLeft => {
                let count = self.get_count();
                self.clear_pending();
                self.clear_search_results();
                let mut i: u32 = 0;
                while i < count
                    invariant
                        self.wf(),
                        self.doc() == old(self).doc(),
                        self.cursor_at() == old(self).cursor_at(),
                    decreases count - i,
                {
                    self.toggle_expand_at_cursor();
                    i = i + 1;
                }
                if *self.mode() == EditorMode::Visual {
                    self.update_visual_selection();
                }
            },
            InputEvent::ExpandAll => {
                self.clear_pending();
                self.clear_search_results();
                self.expand_all_at_cursor();
            },
            InputEvent::CollapseAll => {
                self.clear_pending();
                self.clear_search_results();
                self.collapse_all_at_cursor();
            },
            InputEvent::Yank => self.yank_command(),
            InputEvent::Delete => self.delete_command(),
            InputEvent::Paste => self.paste_command(false),
            InputEvent::PasteBefore => self.paste_command(true),
            InputEvent::SaveAndQuit => {
                return self.save_and_quit_command();
            },
            InputEvent::JumpToTop => self.jump_command(true),
            InputEvent::JumpToBottom => self.jump_command(false),
            InputEvent::HalfPageDown => {
                self.clear_pending();
                self.clear_search_results();
                self.page_down();
            },
            InputEvent::HalfPageUp => {
                self.clear_pending();
                self.clear_search_results();
                self.page_up();
            },
            InputEvent::FullPageDown => {
                self.clear_pending();
                self.clear_search_results();
                self.full_page_down();
            },
            InputEvent::FullPageUp => {
                self.clear_pending();
                self.clear_search_results();
                self.full_page_up();
            },
            InputEvent::Undo | InputEvent::Redo | InputEvent::JumpBackward | InputEvent::JumpForward => {
                self.history_command(ev);
            },
            InputEvent::Add => {
                self.clear_pending();
                self.clear_search_results();
                if self.can_add_after_cursor() {
                    self.start_add_operation();
                }
            },
            InputEvent::AddArray | InputEvent::AddObject => {
                self.clear_pending();
                self.clear_search_results();
                if self.can_add_after_cursor() {
                    self.start_add_container_operation(ev == InputEvent::AddObject);
                }
            },
            InputEvent::Rename => {
                self.clear_pending();
                self.clear_search_results();
                self.start_rename_operation();
            },
            InputEvent::NextSibling => {
                self.clear_pending();
                self.clear_search_results();
                self.move_to_next_sibling();
            },
            InputEvent::PreviousSibling => {
                self.clear_pending();
                self.clear_search_results();
                self.move_to_previous_sibling();
            },
            InputEvent::FirstSibling => {
                self.clear_pending();
                self.clear_search_results();
                self.move_to_first_sibling();
            },
            InputEvent::LastSibling => {
                self.clear_pending();
                self.clear_search_results();
                self.move_to_last_sibling();
            },
            InputEvent::NextAtSameOrShallowerDepth => {
                self.clear_pending();
                self.clear_search_results();
                self.move_to_next_at_same_or_shallower_depth();
            },
            InputEvent::PreviousAtSameOrShallowerDepth => {
                self.clear_pending();
                self.clear_search_results();
                self.move_to_previous_at_same_or_shallower_depth();
            },
            InputEvent::MoveToParent => {
                self.clear_pending();
                self.clear_search_results();
                self.move_to_parent();
            },
            InputEvent::ScreenPosition => {
                self.clear_message();
                self.clear_search_results();
                self.set_pending_command('z');
            },
            InputEvent::RegisterSelect => {
                *awaiting_register = true;
                self.clear_message();
                self.clear_search_results();
            },
            InputEvent::EnterVisualMode => {
                self.clear_pending();
                self.clear_search_results();
                self.enter_visual_mode();
                self.set_message(str_to_string("-- VISUAL --"), MessageLevel::Info);
            },
            InputEvent::MarkSet => {
                self.clear_pending();
                self.clear_search_results();
                self.set_pending_mark_set(true);
            },
            InputEvent::MarkJump => {
                let pending = self.pending_command();
                if !(pending == Some('d') || pending == Some('y')) {
                    self.clear_pending();
                    self.record_jump();
                }
                self.clear_search_results();
                self.set_pending_mark_jump(true);
            },
            InputEvent::Repeat => {
                self.clear_pending();
                self.clear_search_results();
                match self.repeat_last_command() {
                    Ok(m) => self.set_message(m, MessageLevel::Info),
                    Err(m) => self.set_message(m, MessageLevel::Error),
                }
            },
            InputEvent::InsertCharacter(_) | InputEvent::InsertBackspace | InputEvent::InsertEnter
            | InputEvent::JumpToAnchor | InputEvent::AddComment | InputEvent::Unknown => {
                self.clear_pending();
                self.clear_search_results();
            },
        }
        HandlerAction::Continue
    }
}

} // verus!
