//! Commands that the `.` key repeats.

use vstd::prelude::*;
use crate::document::node::YamlValue;

verus! {

/// An editing command with the arguments it needs to be replayed at
/// another cursor position.
#[derive(Debug)]
pub enum RepeatableCommand {
    /// Delete with a count (dd, 3dd)
    Delete { count: u32 },
    /// Yank with a count (yy, 5yy)
    Yank { count: u32 },
    /// Paste after (p) or before (P)
    Paste { before: bool },
    /// Add a scalar value; `key` is set for mapping entries
    Add { value: YamlValue, key: Option<String> },
    /// Add an empty sequence
    AddArray,
    /// Add an empty mapping
    AddObject,
    /// Rename a key
    Rename { new_key: String },
    /// Change a value in insert mode
    ChangeValue { new_value: String },
}

} // verus!
