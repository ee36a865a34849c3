//! Editor modes (vim-style modal editing).

use vstd::prelude::*;
use crate::text::str_to_string;

verus! {

/// The editing mode.
#[derive(Debug, Clone, Copy, PartialEq, Eq, Structural)]
pub enum EditorMode {
    /// Navigation and commands
    Normal,
    /// Editing a value
    Insert,
    /// Typing a `:` command
    Command,
    /// Typing a search pattern
    Search,
    /// Selecting a range of nodes
    Visual,
}

impl EditorMode {
    /// The label of the mode shown in the status line.
    pub open spec fn label(self) -> Seq<char> {
        match self {
            EditorMode::Normal => "NORMAL"@,
            EditorMode::Insert => "INSERT"@,
            EditorMode::Command => "COMMAND"@,
            EditorMode::Search => "SEARCH"@,
            EditorMode::Visual => "VISUAL"@,
        }
    }

    /// The label of the mode (what the mode displays as).
    pub fn to_string(&self) -> (r: String)
        ensures
            r@ == self.label(),
    {
        match self {
            EditorMode::Normal => str_to_string("NORMAL"),
            EditorMode::Insert => str_to_string("INSERT"),
            EditorMode::Command => str_to_string("COMMAND"),
            EditorMode::Search => str_to_string("SEARCH"),
            EditorMode::Visual => str_to_string("VISUAL"),
        }
    }
}

impl Default for EditorMode {
    fn default() -> (r: Self)
        ensures
            r == EditorMode::Normal,
    {
        EditorMode::Normal
    }
}

} // verus!
