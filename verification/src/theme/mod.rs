//! Built-in colour themes.

use vstd::prelude::*;
use crate::text::str_to_string;

verus! {

/// Names of the built-in themes, in alphabetical order.
pub open spec fn builtin_theme_names() -> Seq<Seq<char>> {
    seq![
        "catppuccin-latte"@,
        "catppuccin-mocha"@,
        "default-dark"@,
        "default-light"@,
        "dracula"@,
        "github-dark"@,
        "github-light"@,
        "gruvbox-dark"@,
        "gruvbox-light"@,
        "monokai"@,
        "nord"@,
        "one-dark"@,
        "solarized-dark"@,
        "solarized-light"@,
        "tokyo-night"@,
    ]
}

/// The names of all built-in themes, in alphabetical order.
pub fn list_builtin_themes() -> (r: Vec<String>)
    ensures
        r@.len() == builtin_theme_names().len(),
        forall|i: int| 0 <= i < r@.len() ==> #[trigger] r@[i]@ == builtin_theme_names()[i],
{
    let mut themes: Vec<String> = Vec::new();
    themes.push(str_to_string("catppuccin-latte"));
    themes.push(str_to_string("catppuccin-mocha"));
    themes.push(str_to_string("default-dark"));
    themes.push(str_to_string("default-light"));
    themes.push(str_to_string("dracula"));
    themes.push(str_to_string("github-dark"));
    themes.push(str_to_string("github-light"));
    themes.push(str_to_string("gruvbox-dark"));
    themes.push(str_to_string("gruvbox-light"));
    themes.push(str_to_string("monokai"));
    themes.push(str_to_string("nord"));
    themes.push(str_to_string("one-dark"));
    themes.push(str_to_string("solarized-dark"));
    themes.push(str_to_string("solarized-light"));
    themes.push(str_to_string("tokyo-night"));
    themes
}

} // verus!
