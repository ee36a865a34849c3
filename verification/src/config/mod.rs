//! Editor settings and their defaults.

use vstd::prelude::*;
use crate::text::str_to_string;

verus! {

/// Editor settings. Reading and writing them as TOML is done outside the
/// library; every field has a default (see `Config::default`).
#[derive(Debug, Clone)]
pub struct Config {
    /// Name of the colour theme
    pub theme: String,
    /// Spaces per indentation level when saving
    pub indent_size: usize,
    /// Show line numbers in the tree view
    pub show_line_numbers: bool,
    /// Save automatically after changes
    pub auto_save: bool,
    /// How strictly edited values are checked
    pub validation_mode: String,
    /// Keep a `.bak` copy of a file before overwriting it
    pub create_backup: bool,
    /// Number of undo steps kept
    pub undo_limit: usize,
    /// Yanks and deletes also fill the unnamed register
    pub sync_unnamed_register: bool,
    /// File size in bytes from which loading is lazy
    pub lazy_load_threshold: usize,
    /// Accept mouse wheel events
    pub enable_mouse: bool,
    /// Line numbers relative to the cursor line
    pub relative_line_numbers: bool,
    /// Write unmodified nodes back as they were written in the source
    pub preserve_formatting: bool,
}

/// Default theme name.
pub fn default_theme() -> (r: String)
    ensures
        r@ == "default-dark"@,
{
    str_to_string("default-dark")
}

/// Default indentation width.
pub fn default_indent_size() -> (r: usize)
    ensures
        r == 2,
{
    2
}

/// Line numbers are shown by default.
pub fn default_show_line_numbers() -> (r: bool)
    ensures
        r,
{
    true
}

/// Default validation mode.
pub fn default_validation_mode() -> (r: String)
    ensures
        r@ == "strict"@,
{
    str_to_string("strict")
}

/// Default number of undo steps.
pub fn default_undo_limit() -> (r: usize)
    ensures
        r == 50,
{
    50
}

/// The unnamed register is kept in step by default.
pub fn default_sync_unnamed_register() -> (r: bool)
    ensures
        r,
{
    true
}

/// Default lazy-loading threshold: 100 MiB.
pub fn default_lazy_load_threshold() -> (r: usize)
    ensures
        r == 104_857_600,
{
    104_857_600
}

/// The mouse is enabled by default.
pub fn default_enable_mouse() -> (r: bool)
    ensures
        r,
{
    true
}

/// Formatting is preserved by default.
pub fn default_preserve_formatting() -> (r: bool)
    ensures
        r,
{
    true
}

impl Default for Config {
    fn default() -> (r: Self)
        ensures
            r.theme@ == "default-dark"@,
            r.indent_size == 2,
            r.show_line_numbers,
            !r.auto_save,
            r.validation_mode@ == "strict"@,
            !r.create_backup,
            r.undo_limit == 50,
            r.sync_unnamed_register,
            r.lazy_load_threshold == 104_857_600,
            r.enable_mouse,
            !r.relative_line_numbers,
            r.preserve_formatting,
    {
        Config {
            theme: default_theme(),
            indent_size: default_indent_size(),
            show_line_numbers: true,
            auto_save: false,
            validation_mode: default_validation_mode(),
            create_backup: false,
            undo_limit: default_undo_limit(),
            sync_unnamed_register: true,
            lazy_load_threshold: default_lazy_load_threshold(),
            enable_mouse: default_enable_mouse(),
            relative_line_numbers: false,
            preserve_formatting: default_preserve_formatting(),
        }
    }
}

} // verus!
