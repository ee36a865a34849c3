//! Key bindings: which editor action a key press stands for in each mode.

use vstd::prelude::*;
use crate::editor::mode::EditorMode;
use crate::input::backend::{BackendEvent, BackendKey};

verus! {

/// What the user asked for, independent of the key that asked for it.
#[derive(Debug, Clone, Copy, PartialEq, Eq, Structural)]
pub enum InputEvent {
    /// User wants to quit the editor
    Quit,
    /// Move cursor down
    MoveDown,
    /// Move cursor up
    MoveUp,
    /// Move cursor left
    MoveLeft,
    /// Move cursor right
    MoveRight,
    /// Enter insert mode (from normal mode)
    EnterInsertMode,
    /// Enter command mode (from normal mode)
    EnterCommandMode,
    /// Enter search mode (from normal mode)
    EnterSearchMode,
    /// Enter reverse search mode (from normal mode)
    EnterReverseSearchMode,
    /// Exit current mode back to normal mode
    ExitMode,
    /// Delete current node
    Delete,
    /// Yank (copy) current node
    Yank,
    /// Paste from clipboard after cursor
    Paste,
    /// Paste from clipboard before cursor
    PasteBefore,
    /// Save and quit (ZZ)
    SaveAndQuit,
    /// Jump to next search result
    NextSearchResult,
    /// Toggle help overlay
    Help,
    /// Jump to top of document (gg)
    JumpToTop,
    /// Jump to bottom of document (G)
    JumpToBottom,
    /// Half-page down (Ctrl-d)
    HalfPageDown,
    /// Half-page up (Ctrl-u)
    HalfPageUp,
    /// Full-page down (Ctrl-f, PageDown key)
    FullPageDown,
    /// Full-page up (Ctrl-b, PageUp key)
    FullPageUp,
    /// Undo last change
    Undo,
    /// Redo last undone change
    Redo,
    /// Start add scalar operation
    Add,
    /// Add empty array
    AddArray,
    /// Add empty object
    AddObject,
    /// Rename object key
    Rename,
    /// Fully expand current subtree
    ExpandAll,
    /// Fully collapse current subtree
    CollapseAll,
    /// Jump to next sibling
    NextSibling,
    /// Jump to previous sibling
    PreviousSibling,
    /// Jump to first sibling
    FirstSibling,
    /// Jump to last sibling
    LastSibling,
    /// Search for current object key forward
    SearchKeyForward,
    /// Search for current object key backward
    SearchKeyBackward,
    /// Screen positioning command (z prefix)
    ScreenPosition,
    /// Move to next node at same or shallower depth (w)
    NextAtSameOrShallowerDepth,
    /// Move to previous node at same or shallower depth (b)
    PreviousAtSameOrShallowerDepth,
    /// Move to parent node without collapsing (H)
    MoveToParent,
    /// Register selection prefix (")
    RegisterSelect,
    /// Enter visual mode (v)
    EnterVisualMode,
    /// Set mark (m)
    MarkSet,
    /// Jump to mark (')
    MarkJump,
    /// Jump backward in jump list (Ctrl-o)
    JumpBackward,
    /// Jump forward in jump list (Ctrl-i)
    JumpForward,
    /// Jump to anchor definition (Enter on alias)
    JumpToAnchor,
    /// Repeat last command (.)
    Repeat,
    /// Add a comment to the current node (c)
    AddComment,
    /// Insert a character in insert mode
    InsertCharacter(char),
    /// Backspace in insert mode
    InsertBackspace,
    /// Enter in insert mode
    InsertEnter,
    /// Unknown or unmapped key
    Unknown,
}

/// The keys of the basic commands, over every key and mode: `u` is the
/// only key that undoes and Ctrl-r the only one that redoes, `q` the only
/// one that quits and `e` the only one that starts editing, all in normal
/// mode alone; `p` pastes after and `P` before, `d` deletes and `y` yanks,
/// in normal and visual mode; `j` or Down moves down and `k` or Up moves
/// up there too; Esc is the only key that leaves insert, command and
/// search mode.
pub proof fn law_command_keys(k: BackendKey, m: EditorMode)
    ensures
        (key_action(k, m) == InputEvent::Undo) == (m == EditorMode::Normal && k == BackendKey::Char('u')),
        (key_action(k, m) == InputEvent::Redo) == (m == EditorMode::Normal && k == BackendKey::Ctrl('r')),
        (key_action(k, m) == InputEvent::Quit) == (m == EditorMode::Normal && k == BackendKey::Char('q')),
        (key_action(k, m) == InputEvent::EnterInsertMode) == (m == EditorMode::Normal && k == BackendKey::Char('e')),
        (key_action(k, m) == InputEvent::Paste) == ((m == EditorMode::Normal || m == EditorMode::Visual) && k
            == BackendKey::Char('p')),
        (key_action(k, m) == InputEvent::PasteBefore) == ((m == EditorMode::Normal || m == EditorMode::Visual)
            && k == BackendKey::Char('P')),
        (key_action(k, m) == InputEvent::Delete) == ((m == EditorMode::Normal || m == EditorMode::Visual) && k
            == BackendKey::Char('d')),
        (key_action(k, m) == InputEvent::Yank) == ((m == EditorMode::Normal || m == EditorMode::Visual) && k
            == BackendKey::Char('y')),
        (key_action(k, m) == InputEvent::MoveDown) == ((m == EditorMode::Normal || m == EditorMode::Visual) && (k
            == BackendKey::Char('j') || k == BackendKey::Down)),
        (key_action(k, m) == InputEvent::MoveUp) == ((m == EditorMode::Normal || m == EditorMode::Visual) && (k
            == BackendKey::Char('k') || k == BackendKey::Up)),
        (m == EditorMode::Insert || m == EditorMode::Command || m == EditorMode::Search) ==> ((key_action(k, m)
            == InputEvent::ExitMode) == (k == BackendKey::Esc)),
{
}

/// The action a key press stands for in `mode` (vim-style bindings):
/// normal mode binds movement, editing and navigation keys; insert mode
/// types characters; command and search mode only leave on Esc; visual mode
/// moves and acts on the selection. Mouse events and unbound keys are
/// `Unknown`.
pub open spec fn key_action(key: BackendKey, mode: EditorMode) -> InputEvent {
    match mode {
        EditorMode::Normal => match key {
            BackendKey::Ctrl('d') => InputEvent::HalfPageDown,
            BackendKey::Ctrl('u') => InputEvent::HalfPageUp,
            BackendKey::Ctrl('f') => InputEvent::FullPageDown,
            BackendKey::Ctrl('b') => InputEvent::FullPageUp,
            BackendKey::Ctrl('r') => InputEvent::Redo,
            BackendKey::Ctrl('o') => InputEvent::JumpBackward,
            BackendKey::Ctrl('i') => InputEvent::JumpForward,
            BackendKey::Char('q') => InputEvent::Quit,
            BackendKey::Char('j') => InputEvent::MoveDown,
            BackendKey::Char('k') => InputEvent::MoveUp,
            BackendKey::Char('h') => InputEvent::MoveLeft,
            BackendKey::Char('l') => InputEvent::MoveRight,
            BackendKey::Char(':') => InputEvent::EnterCommandMode,
            BackendKey::Char('/') => InputEvent::EnterSearchMode,
            BackendKey::Char('?') => InputEvent::EnterReverseSearchMode,
            BackendKey::Char('n') => InputEvent::NextSearchResult,
            BackendKey::Char('d') => InputEvent::Delete,
            BackendKey::Char('y') => InputEvent::Yank,
            BackendKey::Char('p') => InputEvent::Paste,
            BackendKey::Char('P') => InputEvent::PasteBefore,
            BackendKey::Char('Z') => InputEvent::SaveAndQuit,
            BackendKey::Char('g') => InputEvent::JumpToTop,
            BackendKey::Char('G') => InputEvent::JumpToBottom,
            BackendKey::Char('u') => InputEvent::Undo,
            BackendKey::Char('e') => InputEvent::EnterInsertMode,
            BackendKey::Char('i') => InputEvent::Add,
            BackendKey::Char('a') => InputEvent::AddArray,
            BackendKey::Char('o') => InputEvent::AddObject,
            BackendKey::Char('r') => InputEvent::Rename,
            BackendKey::Char('E') => InputEvent::ExpandAll,
            BackendKey::Char('C') => InputEvent::CollapseAll,
            BackendKey::Char('H') => InputEvent::MoveToParent,
            BackendKey::Char('z') => InputEvent::ScreenPosition,
            BackendKey::Char('}') => InputEvent::NextSibling,
            BackendKey::Char('{') => InputEvent::PreviousSibling,
            BackendKey::Char(']') => InputEvent::NextSibling,
            BackendKey::Char('[') => InputEvent::PreviousSibling,
            BackendKey::Char('0') => InputEvent::FirstSibling,
            BackendKey::Char('^') => InputEvent::FirstSibling,
            BackendKey::Char('$') => InputEvent::LastSibling,
            BackendKey::Char('*') => InputEvent::SearchKeyForward,
            BackendKey::Char('#') => InputEvent::SearchKeyBackward,
            BackendKey::Char('w') => InputEvent::NextAtSameOrShallowerDepth,
            BackendKey::Char('b') => InputEvent::PreviousAtSameOrShallowerDepth,
            BackendKey::Char('"') => InputEvent::RegisterSelect,
            BackendKey::Char('v') | BackendKey::Char('V') => InputEvent::EnterVisualMode,
            BackendKey::Char('m') => InputEvent::MarkSet,
            BackendKey::Char('\'') => InputEvent::MarkJump,
            BackendKey::Char('.') => InputEvent::Repeat,
            BackendKey::Char('c') => InputEvent::AddComment,
            BackendKey::Down => InputEvent::MoveDown,
            BackendKey::Up => InputEvent::MoveUp,
            BackendKey::Left => InputEvent::MoveLeft,
            BackendKey::Right => InputEvent::MoveRight,
            BackendKey::PageDown => InputEvent::FullPageDown,
            BackendKey::PageUp => InputEvent::FullPageUp,
            BackendKey::Home => InputEvent::JumpToTop,
            BackendKey::End => InputEvent::JumpToBottom,
            BackendKey::F(1) => InputEvent::Help,
            BackendKey::Char('\n') => InputEvent::JumpToAnchor,
            _ => InputEvent::Unknown,
        },
        EditorMode::Insert => match key {
            BackendKey::Esc => InputEvent::ExitMode,
            BackendKey::Char('\n') => InputEvent::InsertEnter,
            BackendKey::Backspace => InputEvent::InsertBackspace,
            BackendKey::Char(c) => InputEvent::InsertCharacter(c),
            _ => InputEvent::Unknown,
        },
        EditorMode::Command => match key {
            BackendKey::Esc => InputEvent::ExitMode,
            _ => InputEvent::Unknown,
        },
        EditorMode::Search => match key {
            BackendKey::Esc => InputEvent::ExitMode,
            _ => InputEvent::Unknown,
        },
        EditorMode::Visual => match key {
            BackendKey::Esc => InputEvent::ExitMode,
            BackendKey::Char('j') => InputEvent::MoveDown,
            BackendKey::Char('k') => InputEvent::MoveUp,
            BackendKey::Char('h') => InputEvent::MoveLeft,
            BackendKey::Char('l') => InputEvent::MoveRight,
            BackendKey::Char('d') => InputEvent::Delete,
            BackendKey::Char('y') => InputEvent::Yank,
            BackendKey::Char('p') => InputEvent::Paste,
            BackendKey::Char('P') => InputEvent::PasteBefore,
            BackendKey::Down => InputEvent::MoveDown,
            BackendKey::Up => InputEvent::MoveUp,
            BackendKey::Left => InputEvent::MoveLeft,
            BackendKey::Right => InputEvent::MoveRight,
            _ => InputEvent::Unknown,
        },
    }
}

/// Maps a terminal event to an editor action according to the mode (see
/// `key_action`); mouse events are `Unknown`.
pub fn map_key_event(event: BackendEvent, mode: &EditorMode) -> (r: InputEvent)
    ensures
        r == match event {
            BackendEvent::Key(k) => key_action(k, *mode),
            _ => InputEvent::Unknown,
        },
{
    let key = match event {
        BackendEvent::Key(k) => k,
        _ => return InputEvent::Unknown,
    };
    match mode {
        EditorMode::Normal => match key {
            BackendKey::Ctrl('d') => InputEvent::HalfPageDown,
            BackendKey::Ctrl('u') => InputEvent::HalfPageUp,
            BackendKey::Ctrl('f') => InputEvent::FullPageDown,
            BackendKey::Ctrl('b') => InputEvent::FullPageUp,
            BackendKey::Ctrl('r') => InputEvent::Redo,
            BackendKey::Ctrl('o') => InputEvent::JumpBackward,
            BackendKey::Ctrl('i') => InputEvent::JumpForward,
            BackendKey::Char('q') => InputEvent::Quit,
            BackendKey::Char('j') => InputEvent::MoveDown,
            BackendKey::Char('k') => InputEvent::MoveUp,
            BackendKey::Char('h') => InputEvent::MoveLeft,
            BackendKey::Char('l') => InputEvent::MoveRight,
            BackendKey::Char(':') => InputEvent::EnterCommandMode,
            BackendKey::Char('/') => InputEvent::EnterSearchMode,
            BackendKey::Char('?') => InputEvent::EnterReverseSearchMode,
            BackendKey::Char('n') => InputEvent::NextSearchResult,
            BackendKey::Char('d') => InputEvent::Delete,
            BackendKey::Char('y') => InputEvent::Yank,
            BackendKey::Char('p') => InputEvent::Paste,
            BackendKey::Char('P') => InputEvent::PasteBefore,
            BackendKey::Char('Z') => InputEvent::SaveAndQuit,
            BackendKey::Char('g') => InputEvent::JumpToTop,
            BackendKey::Char('G') => InputEvent::JumpToBottom,
            BackendKey::Char('u') => InputEvent::Undo,
            BackendKey::Char('e') => InputEvent::EnterInsertMode,
            BackendKey::Char('i') => InputEvent::Add,
            BackendKey::Char('a') => InputEvent::AddArray,
            BackendKey::Char('o') => InputEvent::AddObject,
            BackendKey::Char('r') => InputEvent::Rename,
            BackendKey::Char('E') => InputEvent::ExpandAll,
            BackendKey::Char('C') => InputEvent::CollapseAll,
            BackendKey::Char('H') => InputEvent::MoveToParent,
            BackendKey::Char('z') => InputEvent::ScreenPosition,
            BackendKey::Char('}') => InputEvent::NextSibling,
            BackendKey::Char('{') => InputEvent::PreviousSibling,
            BackendKey::Char(']') => InputEvent::NextSibling,
            BackendKey::Char('[') => InputEvent::PreviousSibling,
            BackendKey::Char('0') => InputEvent::FirstSibling,
            BackendKey::Char('^') => InputEvent::FirstSibling,
            BackendKey::Char('$') => InputEvent::LastSibling,
            BackendKey::Char('*') => InputEvent::SearchKeyForward,
            BackendKey::Char('#') => InputEvent::SearchKeyBackward,
            BackendKey::Char('w') => InputEvent::NextAtSameOrShallowerDepth,
            BackendKey::Char('b') => InputEvent::PreviousAtSameOrShallowerDepth,
            BackendKey::Char('"') => InputEvent::RegisterSelect,
            BackendKey::Char('v') | BackendKey::Char('V') => InputEvent::EnterVisualMode,
            BackendKey::Char('m') => InputEvent::MarkSet,
            BackendKey::Char('\'') => InputEvent::MarkJump,
            BackendKey::Char('.') => InputEvent::Repeat,
            BackendKey::Char('c') => InputEvent::AddComment,
            BackendKey::Down => InputEvent::MoveDown,
            BackendKey::Up => InputEvent::MoveUp,
            BackendKey::Left => InputEvent::MoveLeft,
            BackendKey::Right => InputEvent::MoveRight,
            BackendKey::PageDown => InputEvent::FullPageDown,
            BackendKey::PageUp => InputEvent::FullPageUp,
            BackendKey::Home => InputEvent::JumpToTop,
            BackendKey::End => InputEvent::JumpToBottom,
            BackendKey::F(1) => InputEvent::Help,
            BackendKey::Char('\n') => InputEvent::JumpToAnchor,
            _ => InputEvent::Unknown,
        },
        EditorMode::Insert => match key {
            BackendKey::Esc => InputEvent::ExitMode,
            BackendKey::Char('\n') => InputEvent::InsertEnter,
            BackendKey::Backspace => InputEvent::InsertBackspace,
            BackendKey::Char(c) => InputEvent::InsertCharacter(c),
            _ => InputEvent::Unknown,
        },
        EditorMode::Command => match key {
            BackendKey::Esc => InputEvent::ExitMode,
            _ => InputEvent::Unknown,
        },
        EditorMode::Search => match key {
            BackendKey::Esc => InputEvent::ExitMode,
            _ => InputEvent::Unknown,
        },
        EditorMode::Visual => match key {
            BackendKey::Esc => InputEvent::ExitMode,
            BackendKey::Char('j') => InputEvent::MoveDown,
            BackendKey::Char('k') => InputEvent::MoveUp,
            BackendKey::Char('h') => InputEvent::MoveLeft,
            BackendKey::Char('l') => InputEvent::MoveRight,
            BackendKey::Char('d') => InputEvent::Delete,
            BackendKey::Char('y') => InputEvent::Yank,
            BackendKey::Char('p') => InputEvent::Paste,
            BackendKey::Char('P') => InputEvent::PasteBefore,
            BackendKey::Down => InputEvent::MoveDown,
            BackendKey::Up => InputEvent::MoveUp,
            BackendKey::Left => InputEvent::MoveLeft,
            BackendKey::Right => InputEvent::MoveRight,
            _ => InputEvent::Unknown,
        },
    }
}

} // verus!
