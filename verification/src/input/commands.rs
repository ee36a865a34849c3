//! The `:` command language: what a typed command asks for. Doing it (files,
//! settings, themes) is left to the caller.

use vstd::prelude::*;
use crate::editor::scalar::{trim, trim_text};
use crate::text::{char_count, skip_chars, starts_with, str_eq, str_to_string};
use crate::theme::{builtin_theme_names, list_builtin_themes};

verus! {

/// A display setting.
#[derive(Debug, Clone, Copy, PartialEq, Eq, Structural)]
pub enum Setting {
    /// Line numbers
    Number,
    /// Line numbers relative to the cursor
    RelativeNumber,
    /// Mouse wheel scrolling
    Mouse,
    /// A `.bak` copy before overwriting a file
    CreateBackup,
}

/// What a `:` command asks for.
#[derive(Debug, Clone, PartialEq, Eq)]
pub enum CommandAction {
    /// `:theme`: open the theme picker
    OpenThemePicker,
    /// `:theme <name>` with a built-in theme
    SwitchTheme(String),
    /// `:theme <name>` with any other name
    UnknownTheme(String),
    /// `:set`: list the settings
    ShowSettings,
    /// `:set save`: store the settings
    SaveSettings,
    /// `:set <name>?`: show one setting
    QuerySetting(Setting),
    /// `:set <name>?` with an unknown name
    UnknownQuery(String),
    /// `:set <name>` or `:set no<name>`: switch a setting on or off
    ChangeSetting(Setting, bool),
    /// `:set <name>` with an unknown name
    UnknownSetting(String),
    /// `:path` or `:jp` without a query; the text names the command
    PathUsage(String),
    /// `:path <query>` or `:jp <query>`
    PathQuery(String),
    /// `:find` without text: enter search mode
    StartSearch,
    /// `:find <text>`: search for the text
    Find(String),
    /// `:format`: reformat the document
    Format,
    /// `:e!` with a file name: reload the file
    Reload,
    /// `:e!` without a file name
    NoFileToReload,
    /// `:e`, `:e!`, `:w`, `:wq` or `:x` with an empty file name
    NoFileSpecified,
    /// `:e <file>` with unsaved changes
    OpenRefused,
    /// `:e <file>` without unsaved changes, or `:e! <file>`
    Open(String),
    /// `:help`
    ToggleHelp,
    /// `:q` with unsaved changes
    QuitRefused,
    /// `:q` without unsaved changes, or `:q!`
    Quit,
    /// `:undo`
    Undo,
    /// `:redo`
    Redo,
    /// `:w <file>`
    WriteAs(String),
    /// `:w` with a file name
    Write,
    /// `:w` without a file name
    NoFileToWrite,
    /// `:wq <file>` or `:x <file>`
    WriteAsAndQuit(String),
    /// `:wq` or `:x` with a file name
    WriteAndQuit,
    /// `:wq` or `:x` without a file name
    NoFileToWriteAndQuit,
    /// An empty command
    Nothing,
    /// Any other command
    Unknown(String),
}

/// Model of a command action: the same, with texts as sequences.
pub enum CommandModel {
    OpenThemePicker,
    SwitchTheme(Seq<char>),
    UnknownTheme(Seq<char>),
    ShowSettings,
    SaveSettings,
    QuerySetting(Setting),
    UnknownQuery(Seq<char>),
    ChangeSetting(Setting, bool),
    UnknownSetting(Seq<char>),
    PathUsage(Seq<char>),
    PathQuery(Seq<char>),
    StartSearch,
    Find(Seq<char>),
    Format,
    Reload,
    NoFileToReload,
    NoFileSpecified,
    OpenRefused,
    Open(Seq<char>),
    ToggleHelp,
    QuitRefused,
    Quit,
    Undo,
    Redo,
    WriteAs(Seq<char>),
    Write,
    NoFileToWrite,
    WriteAsAndQuit(Seq<char>),
    WriteAndQuit,
    NoFileToWriteAndQuit,
    Nothing,
    Unknown(Seq<char>),
}

impl View for CommandAction {
    type V = CommandModel;

    open spec fn view(&self) -> CommandModel {
        match self {
            CommandAction::OpenThemePicker => CommandModel::OpenThemePicker,
            CommandAction::SwitchTheme(t) => CommandModel::SwitchTheme(t@),
            CommandAction::UnknownTheme(t) => CommandModel::UnknownTheme(t@),
            CommandAction::ShowSettings => CommandModel::ShowSettings,
            CommandAction::SaveSettings => CommandModel::SaveSettings,
            CommandAction::QuerySetting(s) => CommandModel::QuerySetting(*s),
            CommandAction::UnknownQuery(t) => CommandModel::UnknownQuery(t@),
            CommandAction::ChangeSetting(s, on) => CommandModel::ChangeSetting(*s, *on),
            CommandAction::UnknownSetting(t) => CommandModel::UnknownSetting(t@),
            CommandAction::PathUsage(t) => CommandModel::PathUsage(t@),
            CommandAction::PathQuery(t) => CommandModel::PathQuery(t@),
            CommandAction::StartSearch => CommandModel::StartSearch,
            CommandAction::Find(t) => CommandModel::Find(t@),
            CommandAction::Format => CommandModel::Format,
            CommandAction::Reload => CommandModel::Reload,
            CommandAction::NoFileToReload => CommandModel::NoFileToReload,
            CommandAction::NoFileSpecified => CommandModel::NoFileSpecified,
            CommandAction::OpenRefused => CommandModel::OpenRefused,
            CommandAction::Open(t) => CommandModel::Open(t@),
            CommandAction::ToggleHelp => CommandModel::ToggleHelp,
            CommandAction::QuitRefused => CommandModel::QuitRefused,
            CommandAction::Quit => CommandModel::Quit,
            CommandAction::Undo => CommandModel::Undo,
            CommandAction::Redo => CommandModel::Redo,
            CommandAction::WriteAs(t) => CommandModel::WriteAs(t@),
            CommandAction::Write => CommandModel::Write,
            CommandAction::NoFileToWrite => CommandModel::NoFileToWrite,
            CommandAction::WriteAsAndQuit(t) => CommandModel::WriteAsAndQuit(t@),
            CommandAction::WriteAndQuit => CommandModel::WriteAndQuit,
            CommandAction::NoFileToWriteAndQuit => CommandModel::NoFileToWriteAndQuit,
            CommandAction::Nothing => CommandModel::Nothing,
            CommandAction::Unknown(t) => CommandModel::Unknown(t@),
        }
    }
}

/// `c` begins with `p`.
pub open spec fn has_prefix(c: Seq<char>, p: Seq<char>) -> bool {
    p.len() <= c.len() && c.take(p.len() as int) == p
}

/// What follows the prefix `p` of `c`, trimmed.
pub open spec fn after(c: Seq<char>, p: Seq<char>) -> Seq<char> {
    trim(c.skip(p.len() as int))
}

/// The setting asked about by `:set <x>?`.
pub open spec fn queried_setting(x: Seq<char>) -> Option<Setting> {
    if x == "number"@ {
        Some(Setting::Number)
    } else if x == "relativenumber"@ || x == "rnu"@ {
        Some(Setting::RelativeNumber)
    } else if x == "mouse"@ {
        Some(Setting::Mouse)
    } else if x == "create_backup"@ {
        Some(Setting::CreateBackup)
    } else {
        None
    }
}

/// The change asked for by `:set <x>`.
pub open spec fn setting_change(x: Seq<char>) -> Option<(Setting, bool)> {
    if x == "number"@ || x == "nu"@ {
        Some((Setting::Number, true))
    } else if x == "nonumber"@ || x == "nonu"@ {
        Some((Setting::Number, false))
    } else if x == "relativenumber"@ || x == "rnu"@ {
        Some((Setting::RelativeNumber, true))
    } else if x == "norelativenumber"@ || x == "nornu"@ {
        Some((Setting::RelativeNumber, false))
    } else if x == "mouse"@ {
        Some((Setting::Mouse, true))
    } else if x == "nomouse"@ {
        Some((Setting::Mouse, false))
    } else if x == "create_backup"@ {
        Some((Setting::CreateBackup, true))
    } else if x == "nocreate_backup"@ {
        Some((Setting::CreateBackup, false))
    } else {
        None
    }
}

/// What `:set <x>` (already trimmed) asks for.
pub open spec fn set_model(x: Seq<char>) -> CommandModel {
    if x.len() > 0 && x.last() == '?' {
        match queried_setting(x.drop_last()) {
            Some(s) => CommandModel::QuerySetting(s),
            None => CommandModel::UnknownQuery(x.drop_last()),
        }
    } else {
        match setting_change(x) {
            Some((s, on)) => CommandModel::ChangeSetting(s, on),
            None => CommandModel::UnknownSetting(x),
        }
    }
}

/// What the file commands (`:e`, `:q`, `:w`, `:wq`, `:x` and the like)
/// ask for; `c` is trimmed.
pub open spec fn file_command_model(c: Seq<char>, dirty: bool, has_filename: bool) -> CommandModel {
    if c == "e!"@ {
        if has_filename { CommandModel::Reload } else { CommandModel::NoFileToReload }
    } else if has_prefix(c, "e "@) {
        let f = after(c, "e "@);
        if f.len() == 0 {
            CommandModel::NoFileSpecified
        } else if dirty {
            CommandModel::OpenRefused
        } else {
            CommandModel::Open(f)
        }
    } else if has_prefix(c, "e! "@) {
        let f = after(c, "e! "@);
        if f.len() == 0 { CommandModel::NoFileSpecified } else { CommandModel::Open(f) }
    } else if c == "help"@ {
        CommandModel::ToggleHelp
    } else if c == "q"@ {
        if dirty { CommandModel::QuitRefused } else { CommandModel::Quit }
    } else if c == "q!"@ {
        CommandModel::Quit
    } else if c == "undo"@ {
        CommandModel::Undo
    } else if c == "redo"@ {
        CommandModel::Redo
    } else if has_prefix(c, "w "@) {
        let f = after(c, "w "@);
        if f.len() == 0 { CommandModel::NoFileSpecified } else { CommandModel::WriteAs(f) }
    } else if c == "w"@ {
        if has_filename { CommandModel::Write } else { CommandModel::NoFileToWrite }
    } else if has_prefix(c, "wq "@) || has_prefix(c, "x "@) {
        let f = if has_prefix(c, "wq "@) { after(c, "wq "@) } else { after(c, "x "@) };
        if f.len() == 0 { CommandModel::NoFileSpecified } else { CommandModel::WriteAsAndQuit(f) }
    } else if c == "wq"@ || c == "x"@ {
        if has_filename { CommandModel::WriteAndQuit } else { CommandModel::NoFileToWriteAndQuit }
    } else if c.len() == 0 {
        CommandModel::Nothing
    } else {
        CommandModel::Unknown(c)
    }
}

/// What the command `command` asks for, given whether the document has
/// unsaved changes and a file name: the command is trimmed, then read as
/// the first of these that fits: `theme`, `theme <name>`, `set`, `set save`,
/// `set <...>`, `path <query>`, `jp <query>`, `find <text>`, `find`,
/// `format`, then the file commands (see `file_command_model`).
pub open spec fn command_model(command: Seq<char>, dirty: bool, has_filename: bool) -> CommandModel {
    let c = trim(command);
    if c == "theme"@ {
        CommandModel::OpenThemePicker
    } else if has_prefix(c, "theme "@) {
        let t = after(c, "theme "@);
        if builtin_theme_names().contains(t) { CommandModel::SwitchTheme(t) } else { CommandModel::UnknownTheme(t) }
    } else if c == "set"@ {
        CommandModel::ShowSettings
    } else if c == "set save"@ {
        CommandModel::SaveSettings
    } else if has_prefix(c, "set "@) {
        set_model(after(c, "set "@))
    } else if has_prefix(c, "path "@) {
        let q = after(c, "path "@);
        if q.len() == 0 { CommandModel::PathUsage("path"@) } else { CommandModel::PathQuery(q) }
    } else if has_prefix(c, "jp "@) {
        let q = after(c, "jp "@);
        if q.len() == 0 { CommandModel::PathUsage("jp"@) } else { CommandModel::PathQuery(q) }
    } else if has_prefix(c, "find "@) {
        let q = after(c, "find "@);
        if q.len() == 0 { CommandModel::StartSearch } else { CommandModel::Find(q) }
    } else if c == "find"@ {
        CommandModel::StartSearch
    } else if c == "format"@ {
        CommandModel::Format
    } else {
        file_command_model(c, dirty, has_filename)
    }
}

/// `:w` (with any surrounding blanks) asks to write the file when there is
/// one and reports that there is none otherwise, whether or not there are
/// unsaved changes; `:wq` and `:x` do the same and then quit; `:q` quits
/// exactly when nothing is unsaved, and `:q!` always.
pub proof fn law_write_and_quit_commands(command: Seq<char>, dirty: bool, has_filename: bool)
    ensures
        trim(command) == "w"@ ==> command_model(command, dirty, has_filename) == (if has_filename {
            CommandModel::Write
        } else {
            CommandModel::NoFileToWrite
        }),
        (trim(command) == "wq"@ || trim(command) == "x"@) ==> command_model(command, dirty, has_filename) == (
        if has_filename {
            CommandModel::WriteAndQuit
        } else {
            CommandModel::NoFileToWriteAndQuit
        }),
        trim(command) == "q"@ ==> command_model(command, dirty, has_filename) == (if dirty {
            CommandModel::QuitRefused
        } else {
            CommandModel::Quit
        }),
        trim(command) == "q!"@ ==> command_model(command, dirty, has_filename) == CommandModel::Quit,
{
    reveal_strlit("theme");
    reveal_strlit("theme ");
    reveal_strlit("set");
    reveal_strlit("set save");
    reveal_strlit("set ");
    reveal_strlit("path ");
    reveal_strlit("jp ");
    reveal_strlit("find ");
    reveal_strlit("find");
    reveal_strlit("format");
    reveal_strlit("e!");
    reveal_strlit("e ");
    reveal_strlit("e! ");
    reveal_strlit("help");
    reveal_strlit("q");
    reveal_strlit("q!");
    reveal_strlit("undo");
    reveal_strlit("redo");
    reveal_strlit("w ");
    reveal_strlit("w");
    reveal_strlit("wq ");
    reveal_strlit("x ");
    reveal_strlit("wq");
    reveal_strlit("x");
    assert("q"@ != "w"@) by {
        assert("q"@[0] != "w"@[0]);
    }
    assert("q"@ != "x"@) by {
        assert("q"@[0] != "x"@[0]);
    }
    assert("w"@ != "x"@) by {
        assert("w"@[0] != "x"@[0]);
    }
    assert("e!"@ != "e "@) by {
        assert("e!"@[1] != "e "@[1]);
    }
    assert("e!"@ != "q!"@) by {
        assert("e!"@[0] != "q!"@[0]);
    }
    assert("e!"@ != "w "@) by {
        assert("e!"@[0] != "w "@[0]);
    }
    assert("e!"@ != "wq"@) by {
        assert("e!"@[0] != "wq"@[0]);
    }
    assert("e!"@ != "x "@) by {
        assert("e!"@[0] != "x "@[0]);
    }
    assert("e "@ != "q!"@) by {
        assert("e "@[0] != "q!"@[0]);
    }
    assert("e "@ != "w "@) by {
        assert("e "@[0] != "w "@[0]);
    }
    assert("e "@ != "wq"@) by {
        assert("e "@[0] != "wq"@[0]);
    }
    assert("e "@ != "x "@) by {
        assert("e "@[0] != "x "@[0]);
    }
    assert("q!"@ != "w "@) by {
        assert("q!"@[0] != "w "@[0]);
    }
    assert("q!"@ != "wq"@) by {
        assert("q!"@[0] != "wq"@[0]);
    }
    assert("q!"@ != "x "@) by {
        assert("q!"@[0] != "x "@[0]);
    }
    assert("w "@ != "wq"@) by {
        assert("w "@[1] != "wq"@[1]);
    }
    assert("w "@ != "x "@) by {
        assert("w "@[0] != "x "@[0]);
    }
    assert("wq"@ != "x "@) by {
        assert("wq"@[0] != "x "@[0]);
    }
    let c = trim(command);
    if c == "wq"@ || c == "q!"@ {
        assert(c.take(2) =~= c);
    }
}

/// What follows the prefix `p` of `c`, trimmed; none when `c` does not
/// begin with `p`.
fn text_after(c: &str, p: &str) -> (r: Option<String>)
    ensures
        has_prefix(c@, p@) ==> (r matches Some(x) && x@ == after(c@, p@)),
        !has_prefix(c@, p@) ==> r is None,
{
    if starts_with(c, p) {
        let n = char_count(p);
        let rest = skip_chars(c, n);
        Some(trim_text(rest.as_str()))
    } else {
        None
    }
}

/// Whether `name` is a built-in theme.
pub fn is_builtin_theme(name: &str) -> (r: bool)
    ensures
        r == builtin_theme_names().contains(name@),
{
    let names = list_builtin_themes();
    let mut i: usize = 0;
    while i < names.len()
        invariant
            i <= names@.len(),
            names@.len() == builtin_theme_names().len(),
            forall|j: int| 0 <= j < names@.len() ==> #[trigger] names@[j]@ == builtin_theme_names()[j],
            forall|j: int| 0 <= j < i ==> builtin_theme_names()[j] != name@,
        decreases names.len() - i,
    {
        if str_eq(names[i].as_str(), name) {
            assert(builtin_theme_names()[i as int] == name@);
            return true;
        }
        i = i + 1;
    }
    proof {
        if builtin_theme_names().contains(name@) {
            let j = choose|j: int| 0 <= j < builtin_theme_names().len() && builtin_theme_names()[j] == name@;
            assert(builtin_theme_names()[j] != name@);
        }
    }
    false
}

/// What `:set <x>` (already trimmed) asks for (see `set_model`).
fn set_action(x: &str) -> (r: CommandAction)
    ensures
        r@ == set_model(x@),
{
    let n = char_count(x);
    let v = crate::text::chars_of(x);
    if n > 0 && v[n - 1] == '?' {
        let name = crate::text::take_chars(x, n - 1);
        assert(name@ == x@.drop_last());
        let s = name.as_str();
        if str_eq(s, "number") {
            CommandAction::QuerySetting(Setting::Number)
        } else if str_eq(s, "relativenumber") || str_eq(s, "rnu") {
            CommandAction::QuerySetting(Setting::RelativeNumber)
        } else if str_eq(s, "mouse") {
            CommandAction::QuerySetting(Setting::Mouse)
        } else if str_eq(s, "create_backup") {
            CommandAction::QuerySetting(Setting::CreateBackup)
        } else {
            CommandAction::UnknownQuery(name)
        }
    } else if str_eq(x, "number") || str_eq(x, "nu") {
        CommandAction::ChangeSetting(Setting::Number, true)
    } else if str_eq(x, "nonumber") || str_eq(x, "nonu") {
        CommandAction::ChangeSetting(Setting::Number, false)
    } else if str_eq(x, "relativenumber") || str_eq(x, "rnu") {
        CommandAction::ChangeSetting(Setting::RelativeNumber, true)
    } else if str_eq(x, "norelativenumber") || str_eq(x, "nornu") {
        CommandAction::ChangeSetting(Setting::RelativeNumber, false)
    } else if str_eq(x, "mouse") {
        CommandAction::ChangeSetting(Setting::Mouse, true)
    } else if str_eq(x, "nomouse") {
        CommandAction::ChangeSetting(Setting::Mouse, false)
    } else if str_eq(x, "create_backup") {
        CommandAction::ChangeSetting(Setting::CreateBackup, true)
    } else if str_eq(x, "nocreate_backup") {
        CommandAction::ChangeSetting(Setting::CreateBackup, false)
    } else {
        CommandAction::UnknownSetting(str_to_string(x))
    }
}

/// What the file commands ask for (see `file_command_model`); `c` is
/// trimmed.
fn file_command_action(c: &str, dirty: bool, has_filename: bool) -> (r: CommandAction)
    ensures
        r@ == file_command_model(c@, dirty, has_filename),
{
    if str_eq(c, "e!") {
        return if has_filename { CommandAction::Reload } else { CommandAction::NoFileToReload };
    }
    if let Some(f) = text_after(c, "e ") {
        return if char_count(f.as_str()) == 0 {
            CommandAction::NoFileSpecified
        } else if dirty {
            CommandAction::OpenRefused
        } else {
            CommandAction::Open(f)
        };
    }
    if let Some(f) = text_after(c, "e! ") {
        return if char_count(f.as_str()) == 0 { CommandAction::NoFileSpecified } else { CommandAction::Open(f) };
    }
    if str_eq(c, "help") {
        return CommandAction::ToggleHelp;
    }
    if str_eq(c, "q") {
        return if dirty { CommandAction::QuitRefused } else { CommandAction::Quit };
    }
    if str_eq(c, "q!") {
        return CommandAction::Quit;
    }
    if str_eq(c, "undo") {
        return CommandAction::Undo;
    }
    if str_eq(c, "redo") {
        return CommandAction::Redo;
    }
    if let Some(f) = text_after(c, "w ") {
        return if char_count(f.as_str()) == 0 { CommandAction::NoFileSpecified } else { CommandAction::WriteAs(f) };
    }
    if str_eq(c, "w") {
        return if has_filename { CommandAction::Write } else { CommandAction::NoFileToWrite };
    }
    let wq = text_after(c, "wq ");
    let x = text_after(c, "x ");
    let f = match wq {
        Some(f) => Some(f),
        None => x,
    };
    if let Some(f) = f {
        return if char_count(f.as_str()) == 0 {
            CommandAction::NoFileSpecified
        } else {
            CommandAction::WriteAsAndQuit(f)
        };
    }
    if str_eq(c, "wq") || str_eq(c, "x") {
        return if has_filename { CommandAction::WriteAndQuit } else { CommandAction::NoFileToWriteAndQuit };
    }
    if char_count(c) == 0 {
        CommandAction::Nothing
    } else {
        CommandAction::Unknown(str_to_string(c))
    }
}

/// What the `:` command `command` asks for (see `command_model`).
pub fn command_action(command: &str, dirty: bool, has_filename: bool) -> (r: CommandAction)
    ensures
        r@ == command_model(command@, dirty, has_filename),
{
    let t = trim_text(command);
    let c = t.as_str();
    if str_eq(c, "theme") {
        return CommandAction::OpenThemePicker;
    }
    if let Some(name) = text_after(c, "theme ") {
        return if is_builtin_theme(name.as_str()) {
            CommandAction::SwitchTheme(name)
        } else {
            CommandAction::UnknownTheme(name)
        };
    }
    if str_eq(c, "set") {
        return CommandAction::ShowSettings;
    }
    if str_eq(c, "set save") {
        return CommandAction::SaveSettings;
    }
    if let Some(x) = text_after(c, "set ") {
        return set_action(x.as_str());
    }
    if let Some(q) = text_after(c, "path ") {
        return if char_count(q.as_str()) == 0 {
            CommandAction::PathUsage(str_to_string("path"))
        } else {
            CommandAction::PathQuery(q)
        };
    }
    if let Some(q) = text_after(c, "jp ") {
        return if char_count(q.as_str()) == 0 {
            CommandAction::PathUsage(str_to_string("jp"))
        } else {
            CommandAction::PathQuery(q)
        };
    }
    if let Some(q) = text_after(c, "find ") {
        return if char_count(q.as_str()) == 0 { CommandAction::StartSearch } else { CommandAction::Find(q) };
    }
    if str_eq(c, "find") {
        return CommandAction::StartSearch;
    }
    if str_eq(c, "format") {
        return CommandAction::Format;
    }
    file_command_action(c, dirty, has_filename)
}

} // verus!
