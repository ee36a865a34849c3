//! What the editor keeps between key presses besides the document: the
//! message line, the command line and its completion, the help overlay, the
//! theme picker, the settings, the pending command, count and register, and
//! the two line editors (value and key).

use vstd::prelude::*;
use crate::config::Config;
use crate::editor::registers::{RegisterContent, RegisterSet};
use crate::editor::state::{AddModeStage, EditorState, Message, MessageLevel, ThemePickerState};
use crate::text::{char_count, insert_char_at, remove_char_at, starts_with, str_to_string, take_chars, concat, skip_chars};
use crate::theme::{builtin_theme_names, list_builtin_themes};
use crate::ui::preview::{byte_len, str_byte_len};

verus! {

/// The settings that `:set` completes.
pub open spec fn setting_names() -> Seq<Seq<char>> {
    seq![
        "number"@,
        "nonumber"@,
        "relativenumber"@,
        "norelativenumber"@,
        "rnu"@,
        "nornu"@,
        "mouse"@,
        "nomouse"@,
        "create_backup"@,
        "nocreate_backup"@,
        "save"@,
    ]
}

/// `head` followed by each of `names` that begins with `partial`, in order.
pub open spec fn matching_names(names: Seq<Seq<char>>, head: Seq<char>, partial: Seq<char>) -> Seq<Seq<char>>
    decreases names.len(),
{
    if names.len() == 0 {
        Seq::empty()
    } else {
        let rest = matching_names(names.drop_last(), head, partial);
        let n = names.last();
        if partial.len() <= n.len() && n.take(partial.len() as int) == partial {
            rest.push(head + n)
        } else {
            rest
        }
    }
}

/// Whether `s` begins with `p`.
pub open spec fn has_prefix(s: Seq<char>, p: Seq<char>) -> bool {
    p.len() <= s.len() && s.take(p.len() as int) == p
}

/// The completions of a command line: theme names after `theme `, setting
/// names after `set `, else none.
pub open spec fn completions_for(prefix: Seq<char>) -> Seq<Seq<char>> {
    if has_prefix(prefix, "theme "@) {
        matching_names(builtin_theme_names(), "theme "@, prefix.skip(6))
    } else if has_prefix(prefix, "set "@) {
        matching_names(setting_names(), "set "@, prefix.skip(4))
    } else {
        Seq::empty()
    }
}

/// The setting names as strings.
fn list_setting_names() -> (r: Vec<String>)
    ensures
        r@.len() == setting_names().len(),
        forall|i: int| 0 <= i < r@.len() ==> #[trigger] r@[i]@ == setting_names()[i],
{
    let mut v: Vec<String> = Vec::new();
    v.push(str_to_string("number"));
    v.push(str_to_string("nonumber"));
    v.push(str_to_string("relativenumber"));
    v.push(str_to_string("norelativenumber"));
    v.push(str_to_string("rnu"));
    v.push(str_to_string("nornu"));
    v.push(str_to_string("mouse"));
    v.push(str_to_string("nomouse"));
    v.push(str_to_string("create_backup"));
    v.push(str_to_string("nocreate_backup"));
    v.push(str_to_string("save"));
    v
}

/// `head` followed by each of `names` that begins with `partial`.
fn filter_names(names: &Vec<String>, head: &str, partial: &str) -> (r: Vec<String>)
    ensures
        r@.len() == matching_names(names@.map_values(|s: String| s@), head@, partial@).len(),
        forall|i: int| 0 <= i < r@.len() ==> #[trigger] r@[i]@ == matching_names(
            names@.map_values(|s: String| s@),
            head@,
            partial@,
        )[i],
{
    let ghost all = names@.map_values(|s: String| s@);
    let mut r: Vec<String> = Vec::new();
    let mut i: usize = 0;
    while i < names.len()
        invariant
            all == names@.map_values(|s: String| s@),
            i <= names@.len(),
            r@.len() == matching_names(all.take(i as int), head@, partial@).len(),
            forall|k: int| 0 <= k < r@.len() ==> #[trigger] r@[k]@ == matching_names(all.take(i as int), head@, partial@)[k],
        decreases names.len() - i,
    {
        assert(all.take(i as int + 1).drop_last() =~= all.take(i as int));
        if starts_with(names[i].as_str(), partial) {
            r.push(concat(head, names[i].as_str()));
        }
        i = i + 1;
    }
    assert(all.take(names@.len() as int) =~= all);
    r
}

/// `t` with `ch` typed at character position `pos`.
pub open spec fn typed_text(t: Seq<char>, pos: nat, ch: char) -> Seq<char> {
    t.take(pos as int).push(ch) + t.skip(pos as int)
}

/// `t` with the character before position `pos` (at least 1) removed.
pub open spec fn backspaced_text(t: Seq<char>, pos: nat) -> Seq<char> {
    t.take(pos - 1) + t.skip(pos as int)
}

/// Backspace right after typing a character gives back the text (the
/// cursor, one place further after typing, goes back one place).
pub proof fn law_backspace_undoes_typing(t: Seq<char>, pos: nat, ch: char)
    requires
        pos <= t.len(),
    ensures
        backspaced_text(typed_text(t, pos, ch), pos + 1) == t,
{
    assert(backspaced_text(typed_text(t, pos, ch), pos + 1) =~= t);
}

impl EditorState {
    /// The message shown, if any.
    pub fn message(&self) -> (r: Option<&Message>)
        ensures
            match self.msg() {
                Some((t, l)) => r matches Some(m) && m.text@ == t && m.level == l,
                None => r is None,
            },
    {
        match &self.message {
            Some(m) => Some(m),
            None => None,
        }
    }

    /// Shows a message.
    pub fn set_message(&mut self, text: String, level: MessageLevel)
        requires
            old(self).wf(),
        ensures
            final(self).wf(),
            final(self).msg() == Some((text@, level)),
            final(self).same_document(old(self)),
            final(self).command_text() == old(self).command_text(),
            final(self).edit_text() == old(self).edit_text(),
            final(self).edit_pos() == old(self).edit_pos(),
            final(self).key_text() == old(self).key_text(),
            final(self).key_pos() == old(self).key_pos(),
            final(self).add_stage() == old(self).add_stage(),
            final(self).mode_value() == old(self).mode_value(),
            final(self).pending_reg() == old(self).pending_reg(),
            final(self).same_extras(old(self)),
            final(self).mark_waits() == old(self).mark_waits(),
            final(self).search_text() == old(self).search_text(),
            final(self).results() == old(self).results(),
            final(self).result_at() == old(self).result_at(),
            final(self).pending_cmd() == old(self).pending_cmd(),
            final(self).count_typed() == old(self).count_typed(),
            final(self).appending() == old(self).appending(),
            final(self).selection() == old(self).selection(),
            final(self).anchor() == old(self).anchor(),
    {
        self.message = Some(Message { text, level });
    }

    /// Removes the message.
    pub fn clear_message(&mut self)
        requires
            old(self).wf(),
        ensures
            final(self).wf(),
            final(self).msg() is None,
            final(self).same_document(old(self)),
            final(self).command_text() == old(self).command_text(),
            final(self).edit_text() == old(self).edit_text(),
            final(self).edit_pos() == old(self).edit_pos(),
            final(self).key_text() == old(self).key_text(),
            final(self).key_pos() == old(self).key_pos(),
            final(self).add_stage() == old(self).add_stage(),
            final(self).mode_value() == old(self).mode_value(),
            final(self).pending_reg() == old(self).pending_reg(),
            final(self).same_extras(old(self)),
            final(self).mark_waits() == old(self).mark_waits(),
            final(self).search_text() == old(self).search_text(),
            final(self).results() == old(self).results(),
            final(self).result_at() == old(self).result_at(),
            final(self).pending_cmd() == old(self).pending_cmd(),
            final(self).count_typed() == old(self).count_typed(),
            final(self).appending() == old(self).appending(),
    {
        self.message = None;
    }

    /// The command line.
    pub fn command_buffer(&self) -> (r: &str)
        ensures
            r@ == self.command_text(),
    {
        self.command_buffer.as_str()
    }

    /// Replaces the command line.
    pub fn set_command_buffer(&mut self, buffer: String)
        requires
            old(self).wf(),
        ensures
            final(self).wf(),
            final(self).command_text() == buffer@,
            final(self).completion_list() == old(self).completion_list(),
            final(self).same_document(old(self)),
            final(self).msg() == old(self).msg(),
    {
        self.command_buffer = buffer;
    }

    /// Types a character on the command line; completion starts over.
    pub fn push_to_command_buffer(&mut self, ch: char)
        requires
            old(self).wf(),
        ensures
            final(self).wf(),
            final(self).command_text() == old(self).command_text().push(ch),
            final(self).completion_list().len() == 0,
            final(self).same_document(old(self)),
            final(self).msg() == old(self).msg(),
            final(self).same_extras(old(self)),
            final(self).mark_waits() == old(self).mark_waits(),
            final(self).mode_value() == old(self).mode_value(),
    {
        crate::text::push_char(&mut self.command_buffer, ch);
        self.reset_completion();
    }

    /// Removes the last character of the command line, if any; completion
    /// starts over.
    pub fn pop_from_command_buffer(&mut self)
        requires
            old(self).wf(),
        ensures
            final(self).wf(),
            final(self).command_text() == (if old(self).command_text().len() > 0 {
                old(self).command_text().drop_last()
            } else {
                old(self).command_text()
            }),
            final(self).completion_list().len() == 0,
            final(self).same_document(old(self)),
            final(self).msg() == old(self).msg(),
            final(self).same_extras(old(self)),
            final(self).mark_waits() == old(self).mark_waits(),
            final(self).mode_value() == old(self).mode_value(),
    {
        let n = char_count(self.command_buffer.as_str());
        if n > 0 {
            self.command_buffer = take_chars(self.command_buffer.as_str(), n - 1);
        }
        self.reset_completion();
    }

    /// Empties the command line; completion starts over.
    pub fn clear_command_buffer(&mut self)
        requires
            old(self).wf(),
        ensures
            final(self).wf(),
            final(self).command_text().len() == 0,
            final(self).completion_list().len() == 0,
            final(self).same_document(old(self)),
            final(self).msg() == old(self).msg(),
            final(self).same_extras(old(self)),
            final(self).mark_waits() == old(self).mark_waits(),
            final(self).mode_value() == old(self).mode_value(),
    {
        self.command_buffer = String::new();
        self.reset_completion();
    }

    /// Tab on the command line: the first press lists the completions of
    /// the line and puts the first one on it; later presses put the next
    /// one (from the last back to the first).
    pub fn handle_tab_completion(&mut self)
        requires
            old(self).wf(),
        ensures
            final(self).wf(),
            final(self).same_document(old(self)),
            final(self).msg() == old(self).msg(),
            old(self).completion_list().len() == 0 ==> final(self).completion_list() == completions_for(
                old(self).command_text(),
            ) && final(self).completion_at() == 0,
            old(self).completion_list().len() > 0 ==> final(self).completion_list() == old(self).completion_list()
                && final(self).completion_at() == (old(self).completion_at() + 1) % old(self).completion_list().len(),
            final(self).completion_list().len() > 0 ==> final(self).command_text()
                == final(self).completion_list()[final(self).completion_at() as int],
            final(self).completion_list().len() == 0 ==> final(self).command_text() == old(self).command_text(),
            final(self).same_extras(old(self)),
            final(self).mark_waits() == old(self).mark_waits(),
            final(self).mode_value() == old(self).mode_value(),
    {
        if self.completion_candidates.len() == 0 {
            self.completion_prefix = self.command_buffer.clone();
            let prefix = self.command_buffer.as_str();
            let ghost p = prefix@;
            let list = if starts_with(prefix, "theme ") {
                proof {
                    reveal_strlit("theme ");
                }
                let partial = skip_chars(prefix, 6);
                let themes = list_builtin_themes();
                assert(themes@.map_values(|s: String| s@) =~= builtin_theme_names());
                filter_names(&themes, "theme ", partial.as_str())
            } else if starts_with(prefix, "set ") {
                proof {
                    reveal_strlit("theme ");
                    reveal_strlit("set ");
                }
                let partial = skip_chars(prefix, 4);
                let settings = list_setting_names();
                assert(settings@.map_values(|s: String| s@) =~= setting_names());
                filter_names(&settings, "set ", partial.as_str())
            } else {
                Vec::new()
            };
            self.completion_candidates = list;
            assert(self.completion_list() =~= completions_for(p));
            self.completion_index = 0;
        } else {
            self.completion_index = (self.completion_index + 1) % self.completion_candidates.len();
        }
        if self.completion_candidates.len() > 0 {
            self.command_buffer = self.completion_candidates[self.completion_index].clone();
        }
    }

    /// Forgets the completion candidates.
    pub fn reset_completion(&mut self)
        requires
            old(self).wf(),
        ensures
            final(self).wf(),
            final(self).completion_list().len() == 0,
            final(self).completion_at() == 0,
            final(self).command_text() == old(self).command_text(),
            final(self).same_document(old(self)),
            final(self).msg() == old(self).msg(),
            final(self).same_extras(old(self)),
            final(self).mark_waits() == old(self).mark_waits(),
            final(self).mode_value() == old(self).mode_value(),
    {
        self.completion_candidates = Vec::new();
        self.completion_index = 0;
        self.completion_prefix = String::new();
        assert(self.completion_list() =~= Seq::<Seq<char>>::empty());
    }

    /// Whether the help overlay is shown.
    pub fn show_help(&self) -> (r: bool)
        ensures
            r == self.help_shown(),
    {
        self.show_help
    }

    /// Shows or hides the help overlay; it opens at its top.
    pub fn toggle_help(&mut self)
        requires
            old(self).wf(),
        ensures
            final(self).wf(),
            final(self).help_shown() == !old(self).help_shown(),
            final(self).help_shown() ==> final(self).help_offset() == 0,
            !final(self).help_shown() ==> final(self).help_offset() == old(self).help_offset(),
            final(self).same_document(old(self)),
    {
        self.show_help = !self.show_help;
        if self.show_help {
            self.help_scroll = 0;
        }
    }

    /// The help overlay's first line.
    pub fn help_scroll(&self) -> (r: usize)
        ensures
            r == self.help_offset(),
    {
        self.help_scroll
    }

    /// Scrolls the help overlay one line down (stopping at `usize::MAX`).
    pub fn scroll_help_down(&mut self)
        requires
            old(self).wf(),
        ensures
            final(self).wf(),
            final(self).help_offset() == (if old(self).help_offset() < usize::MAX {
                old(self).help_offset() + 1
            } else {
                old(self).help_offset()
            }),
            final(self).same_document(old(self)),
    {
        self.help_scroll = self.help_scroll.saturating_add(1);
    }

    /// Scrolls the help overlay one line up (stopping at the top).
    pub fn scroll_help_up(&mut self)
        requires
            old(self).wf(),
        ensures
            final(self).wf(),
            final(self).help_offset() == (if old(self).help_offset() > 0 {
                (old(self).help_offset() - 1) as nat
            } else {
                0
            }),
            final(self).same_document(old(self)),
    {
        self.help_scroll = self.help_scroll.saturating_sub(1);
    }

    /// Whether the theme picker is shown.
    pub fn show_theme_picker(&self) -> (r: bool)
        ensures
            r == self.picker_shown(),
    {
        self.show_theme_picker
    }

    /// The theme picker, while it is open.
    pub fn theme_picker_state(&self) -> (r: Option<&ThemePickerState>)
        ensures
            match self.picker() {
                Some((t, i, o, c)) => r matches Some(p) && p.themes@.map_values(|s: String| s@) == t
                    && p.selected_index == i && p.original_theme@ == o && p.current_theme@ == c,
                None => r is None,
            },
    {
        match &self.theme_picker_state {
            Some(p) => Some(p),
            None => None,
        }
    }

    /// Opens the theme picker on the built-in themes, the current theme
    /// highlighted; the message is cleared.
    pub fn open_theme_picker(&mut self)
        requires
            old(self).wf(),
        ensures
            final(self).wf(),
            final(self).picker_shown(),
            final(self).picker() matches Some((t, i, o, c)) && t == builtin_theme_names()
                && o == old(self).theme_name() && c == old(self).theme_name()
                && i < t.len() && ((exists|k: int| 0 <= k < t.len() && t[k] == o) ==> t[i as int] == o
                && forall|j: int| 0 <= j < i ==> t[j] != o)
                && (!(exists|k: int| 0 <= k < t.len() && t[k] == o) ==> i == 0),
            final(self).msg() is None,
            final(self).same_document(old(self)),
    {
        let current = self.current_theme.clone();
        let picker = ThemePickerState::new(current);
        assert(picker.themes@.map_values(|s: String| s@) =~= builtin_theme_names());
        self.theme_picker_state = Some(picker);
        self.show_theme_picker = true;
        self.message = None;
    }

    /// Previews a theme: it becomes current, is requested from the screen
    /// and is what the picker shows as previewed.
    fn preview_theme(&mut self, theme_name: &str)
        requires
            old(self).wf(),
        ensures
            final(self).wf(),
            final(self).theme_name() == theme_name@,
            final(self).theme_request() == Some(theme_name@),
            final(self).picker() == match old(self).picker() {
                Some((t, i, o, _c)) => Some((t, i, o, theme_name@)),
                None => None,
            },
            final(self).picker_shown() == old(self).picker_shown(),
            final(self).same_document(old(self)),
    {
        self.request_theme_change(str_to_string(theme_name));
        match &mut self.theme_picker_state {
            Some(p) => {
                p.current_theme = str_to_string(theme_name);
            },
            None => {},
        }
    }

    /// Highlights theme `i` of the open picker.
    fn select_theme(&mut self, i: usize)
        requires
            old(self).wf(),
            old(self).picker() matches Some((t, _i, _o, _c)) && i < t.len(),
        ensures
            final(self).wf(),
            final(self).picker() == match old(self).picker() {
                Some((t, _i, o, c)) => Some((t, i as nat, o, c)),
                None => None,
            },
            final(self).theme_name() == old(self).theme_name(),
            final(self).picker_shown() == old(self).picker_shown(),
            final(self).same_document(old(self)),
    {
        let mut picker: Option<ThemePickerState> = None;
        std::mem::swap(&mut picker, &mut self.theme_picker_state);
        match picker {
            Some(mut p) => {
                p.selected_index = i;
                self.theme_picker_state = Some(p);
            },
            None => {},
        }
    }

    /// The name of theme `i` of the open picker.
    fn picker_theme(&self, i: usize) -> (r: String)
        requires
            self.picker() matches Some((t, _i, _o, _c)) && i < t.len(),
        ensures
            self.picker() matches Some((t, _i, _o, _c)) && r@ == t[i as int],
    {
        match &self.theme_picker_state {
            Some(p) => p.themes[i].clone(),
            None => String::new(),
        }
    }

    /// Highlights and previews the theme before the highlighted one.
    pub fn theme_picker_previous(&mut self)
        requires
            old(self).wf(),
        ensures
            final(self).wf(),
            match old(self).picker() {
                Some((t, i, o, c)) => if i > 0 {
                    &&& final(self).picker() == Some((t, (i - 1) as nat, o, t[i - 1]))
                    &&& final(self).theme_name() == t[i - 1]
                    &&& final(self).theme_request() == Some(t[i - 1])
                } else {
                    final(self).picker() == old(self).picker() && final(self).theme_name() == old(self).theme_name()
                },
                None => final(self).picker() is None && final(self).theme_name() == old(self).theme_name(),
            },
            final(self).same_document(old(self)),
    {
        let at = match &self.theme_picker_state {
            Some(p) => if p.selected_index > 0 { Some(p.selected_index - 1) } else { None },
            None => None,
        };
        match at {
            Some(i) => {
                self.select_theme(i);
                let name = self.picker_theme(i);
                self.preview_theme(name.as_str());
            },
            None => {},
        }
    }

    /// Highlights and previews the theme after the highlighted one.
    pub fn theme_picker_next(&mut self)
        requires
            old(self).wf(),
        ensures
            final(self).wf(),
            match old(self).picker() {
                Some((t, i, o, c)) => if i + 1 < t.len() {
                    &&& final(self).picker() == Some((t, i + 1, o, t[i + 1int]))
                    &&& final(self).theme_name() == t[i + 1int]
                    &&& final(self).theme_request() == Some(t[i + 1int])
                } else {
                    final(self).picker() == old(self).picker() && final(self).theme_name() == old(self).theme_name()
                },
                None => final(self).picker() is None && final(self).theme_name() == old(self).theme_name(),
            },
            final(self).same_document(old(self)),
    {
        let at = match &self.theme_picker_state {
            Some(p) => if p.selected_index < p.themes.len() - 1 { Some(p.selected_index + 1) } else { None },
            None => None,
        };
        match at {
            Some(i) => {
                self.select_theme(i);
                let name = self.picker_theme(i);
                self.preview_theme(name.as_str());
            },
            None => {},
        }
    }

    /// Keeps the previewed theme and closes the picker.
    #[verifier::rlimit(30)]
    pub fn theme_picker_apply(&mut self)
        requires
            old(self).wf(),
        ensures
            final(self).wf(),
            final(self).theme_name() == match old(self).picker() {
                Some((_t, _i, _o, c)) => c,
                None => old(self).theme_name(),
            },
            final(self).picker() is None,
            !final(self).picker_shown(),
            final(self).same_document(old(self)),
    {
        match &self.theme_picker_state {
            Some(p) => {
                self.current_theme = p.current_theme.clone();
            },
            None => {},
        }
        self.theme_picker_state = None;
        self.show_theme_picker = false;
    }

    /// Goes back to the theme in use when the picker opened and closes it.
    #[verifier::rlimit(40)]
    pub fn theme_picker_cancel(&mut self)
        requires
            old(self).wf(),
        ensures
            final(self).wf(),
            match old(self).picker() {
                Some((_t, _i, o, _c)) => final(self).theme_name() == o && final(self).theme_request() == Some(o),
                None => final(self).theme_name() == old(self).theme_name() && final(self).theme_request()
                    == old(self).theme_request(),
            },
            final(self).picker() is None,
            !final(self).picker_shown(),
            final(self).same_document(old(self)),
    {
        let original = match &self.theme_picker_state {
            Some(p) => Some(p.original_theme.clone()),
            None => None,
        };
        self.theme_picker_state = None;
        self.show_theme_picker = false;
        match original {
            Some(t) => {
                self.current_theme = t.clone();
                self.pending_theme = Some(t);
            },
            None => {},
        }
    }

    /// Takes the requested theme change, if any.
    pub fn take_pending_theme(&mut self) -> (r: Option<String>)
        requires
            old(self).wf(),
        ensures
            final(self).wf(),
            match old(self).theme_request() {
                Some(t) => r matches Some(s) && s@ == t,
                None => r is None,
            },
            final(self).theme_request() is None,
            final(self).theme_name() == old(self).theme_name(),
            final(self).same_document(old(self)),
    {
        let mut out: Option<String> = None;
        std::mem::swap(&mut out, &mut self.pending_theme);
        out
    }

    /// Makes `theme_name` current and asks the screen to apply it.
    pub fn request_theme_change(&mut self, theme_name: String)
        requires
            old(self).wf(),
        ensures
            final(self).wf(),
            final(self).theme_name() == theme_name@,
            final(self).theme_request() == Some(theme_name@),
            final(self).picker() == old(self).picker(),
            final(self).picker_shown() == old(self).picker_shown(),
            final(self).same_document(old(self)),
    {
        self.current_theme = theme_name.clone();
        self.pending_theme = Some(theme_name);
    }

    /// Records `theme_name` as the theme in use.
    pub fn set_current_theme(&mut self, theme_name: String)
        requires
            old(self).wf(),
        ensures
            final(self).wf(),
            final(self).theme_name() == theme_name@,
            final(self).theme_request() == old(self).theme_request(),
            final(self).same_document(old(self)),
    {
        self.current_theme = theme_name;
    }

    /// Whether line numbers are shown.
    pub fn show_line_numbers(&self) -> (r: bool)
        ensures
            r == self.settings().0,
    {
        self.show_line_numbers
    }

    /// Shows or hides line numbers.
    pub fn set_show_line_numbers(&mut self, show: bool)
        requires
            old(self).wf(),
        ensures
            final(self).wf(),
            final(self).settings() == (show, old(self).settings().1, old(self).settings().2, old(self).settings().3),
            final(self).same_document(old(self)),
    {
        self.show_line_numbers = show;
    }

    /// Whether line numbers are relative to the cursor line.
    pub fn relative_line_numbers(&self) -> (r: bool)
        ensures
            r == self.settings().1,
    {
        self.relative_line_numbers
    }

    /// Turns relative line numbers on or off.
    pub fn set_relative_line_numbers(&mut self, show: bool)
        requires
            old(self).wf(),
        ensures
            final(self).wf(),
            final(self).settings() == (old(self).settings().0, show, old(self).settings().2, old(self).settings().3),
            final(self).same_document(old(self)),
    {
        self.relative_line_numbers = show;
    }

    /// Whether mouse events are taken.
    pub fn enable_mouse(&self) -> (r: bool)
        ensures
            r == self.settings().2,
    {
        self.enable_mouse
    }

    /// Turns mouse support on or off.
    pub fn set_enable_mouse(&mut self, enable: bool)
        requires
            old(self).wf(),
        ensures
            final(self).wf(),
            final(self).settings() == (old(self).settings().0, old(self).settings().1, enable, old(self).settings().3),
            final(self).same_document(old(self)),
    {
        self.enable_mouse = enable;
    }

    /// Whether a backup is written before a file is overwritten.
    pub fn create_backup(&self) -> (r: bool)
        ensures
            r == self.settings().3,
    {
        self.create_backup
    }

    /// Turns backups on or off.
    pub fn set_create_backup(&mut self, enable: bool)
        requires
            old(self).wf(),
        ensures
            final(self).wf(),
            final(self).settings() == (old(self).settings().0, old(self).settings().1, old(self).settings().2, enable),
            final(self).same_document(old(self)),
    {
        self.create_backup = enable;
    }

    /// The settings to save: the theme and the four switches, the rest at
    /// their defaults.
    pub fn to_config(&self) -> (r: Config)
        ensures
            r.theme@ == self.theme_name(),
            r.show_line_numbers == self.settings().0,
            r.relative_line_numbers == self.settings().1,
            r.enable_mouse == self.settings().2,
            r.create_backup == self.settings().3,
            r.indent_size == 2,
            !r.auto_save,
            r.validation_mode@ == "strict"@,
            r.undo_limit == 50,
            r.sync_unnamed_register,
            r.lazy_load_threshold == 104_857_600,
            r.preserve_formatting,
    {
        let d = Config::default();
        Config {
            theme: self.current_theme.clone(),
            show_line_numbers: self.show_line_numbers,
            relative_line_numbers: self.relative_line_numbers,
            enable_mouse: self.enable_mouse,
            create_backup: self.create_backup,
            ..d
        }
    }

    /// The first key of a two-key command, if one was typed.
    pub fn pending_command(&self) -> (r: Option<char>)
        ensures
            r == self.pending_cmd(),
    {
        self.pending_command
    }

    /// Records the first key of a two-key command.
    pub fn set_pending_command(&mut self, ch: char)
        requires
            old(self).wf(),
        ensures
            final(self).wf(),
            final(self).pending_cmd() == Some(ch),
            final(self).count_typed() == old(self).count_typed(),
            final(self).pending_reg() == old(self).pending_reg(),
            final(self).same_document(old(self)),
            final(self).same_extras(old(self)),
            final(self).mark_waits() == old(self).mark_waits(),
            final(self).search_text() == old(self).search_text(),
            final(self).results() == old(self).results(),
            final(self).result_at() == old(self).result_at(),
            final(self).mode_value() == old(self).mode_value(),
            final(self).msg() == old(self).msg(),
            final(self).command_text() == old(self).command_text(),
    {
        self.pending_command = Some(ch);
    }

    /// Forgets the first key of a two-key command.
    pub fn clear_pending_command(&mut self)
        requires
            old(self).wf(),
        ensures
            final(self).wf(),
            final(self).pending_cmd() is None,
            final(self).count_typed() == old(self).count_typed(),
            final(self).pending_reg() == old(self).pending_reg(),
            final(self).same_document(old(self)),
    {
        self.pending_command = None;
    }

    /// The count typed before a command, 1 when none was.
    pub fn get_count(&self) -> (r: u32)
        ensures
            r == match self.count_typed() {
                Some(c) => c,
                None => 1,
            },
    {
        match self.pending_count {
            Some(c) => c,
            None => 1,
        }
    }

    /// The count typed before a command, if any.
    pub fn pending_count(&self) -> (r: Option<u32>)
        ensures
            r == self.count_typed(),
    {
        self.pending_count
    }

    /// Adds a digit to the count: the first digit starts it, later ones
    /// shift it left in decimal (stopping at `u32::MAX`).
    pub fn push_count_digit(&mut self, digit: u32)
        requires
            old(self).wf(),
        ensures
            final(self).wf(),
            final(self).count_typed() == Some(match old(self).count_typed() {
                Some(c) => if c * 10 + digit <= u32::MAX {
                    (c * 10 + digit) as u32
                } else {
                    u32::MAX
                },
                None => digit,
            }),
            final(self).pending_cmd() == old(self).pending_cmd(),
            final(self).pending_reg() == old(self).pending_reg(),
            final(self).same_document(old(self)),
    {
        match self.pending_count {
            Some(c) => {
                let wide: u64 = c as u64 * 10 + digit as u64;
                self.pending_count = Some(if wide <= u32::MAX as u64 { wide as u32 } else { u32::MAX });
            },
            None => {
                self.pending_count = Some(digit);
            },
        }
    }

    /// Forgets the count.
    pub fn clear_pending_count(&mut self)
        requires
            old(self).wf(),
        ensures
            final(self).wf(),
            final(self).count_typed() is None,
            final(self).pending_cmd() == old(self).pending_cmd(),
            final(self).pending_reg() == old(self).pending_reg(),
            final(self).same_document(old(self)),
    {
        self.pending_count = None;
    }

    /// Forgets the pending command, count and register, and append mode.
    pub fn clear_pending(&mut self)
        requires
            old(self).wf(),
        ensures
            final(self).wf(),
            final(self).pending_cmd() is None,
            final(self).count_typed() is None,
            final(self).pending_reg() is None,
            !final(self).appending(),
            final(self).same_document(old(self)),
            final(self).same_extras(old(self)),
            final(self).mark_waits() == old(self).mark_waits(),
            final(self).search_text() == old(self).search_text(),
            final(self).results() == old(self).results(),
            final(self).result_at() == old(self).result_at(),
            final(self).mode_value() == old(self).mode_value(),
            final(self).msg() == old(self).msg(),
            final(self).command_text() == old(self).command_text(),
            final(self).forward() == old(self).forward(),
            final(self).selection() == old(self).selection(),
            final(self).anchor() == old(self).anchor(),
            final(self).add_stage() == old(self).add_stage(),
            final(self).add_point() == old(self).add_point(),
            final(self).temp() == old(self).temp(),
            final(self).edit_text() == old(self).edit_text(),
            final(self).edit_pos() == old(self).edit_pos(),
            final(self).key_text() == old(self).key_text(),
            final(self).key_pos() == old(self).key_pos(),
            final(self).renaming() == old(self).renaming(),
    {
        self.pending_command = None;
        self.pending_count = None;
        self.pending_register = None;
        self.append_mode = false;
    }

    /// The unnamed register.
    pub fn get_unnamed_register(&self) -> (r: &RegisterContent)
        ensures
            r@ == self.regs().unnamed,
    {
        self.registers.get_unnamed()
    }

    /// The register chosen for the next paste, yank or delete, if any.
    pub fn get_pending_register(&self) -> (r: Option<char>)
        ensures
            r == self.pending_reg(),
    {
        self.pending_register
    }

    /// Chooses the register for the next paste, yank or delete, and whether
    /// that yank or delete appends to it.
    pub fn set_pending_register(&mut self, register: char, append: bool)
        requires
            old(self).wf(),
        ensures
            final(self).wf(),
            final(self).pending_reg() == Some(register),
            final(self).appending() == append,
            final(self).pending_cmd() == old(self).pending_cmd(),
            final(self).count_typed() == old(self).count_typed(),
            final(self).same_document(old(self)),
            final(self).same_extras(old(self)),
            final(self).mark_waits() == old(self).mark_waits(),
            final(self).search_text() == old(self).search_text(),
            final(self).results() == old(self).results(),
            final(self).result_at() == old(self).result_at(),
            final(self).mode_value() == old(self).mode_value(),
            final(self).msg() == old(self).msg(),
            final(self).command_text() == old(self).command_text(),
    {
        self.pending_register = Some(register);
        self.append_mode = append;
    }

    /// Whether the next yank or delete appends to the chosen register.
    pub fn get_append_mode(&self) -> (r: bool)
        ensures
            r == self.appending(),
    {
        self.append_mode
    }

    /// The registers.
    pub fn registers(&self) -> (r: &RegisterSet)
        ensures
            r@ == self.regs(),
    {
        &self.registers
    }

    /// The registers, to be changed by hand; the editor stays well formed
    /// as long as the registers do.
    pub fn registers_mut(&mut self) -> (r: &mut RegisterSet)
        requires
            old(self).wf(),
        ensures
            r@ == old(self).regs(),
            r.wf(),
            final(self).regs() == final(r)@,
            final(r).wf() ==> final(self).wf(),
            final(self).same_document_but_registers(old(self)),
            final(self).same_input(old(self)),
    {
        &mut self.registers
    }

    /// Forgets the chosen register and append mode.
    pub fn clear_register_pending(&mut self)
        requires
            old(self).wf(),
        ensures
            final(self).wf(),
            final(self).pending_reg() is None,
            !final(self).appending(),
            final(self).pending_cmd() == old(self).pending_cmd(),
            final(self).count_typed() == old(self).count_typed(),
            final(self).same_document(old(self)),
    {
        self.pending_register = None;
        self.append_mode = false;
    }

    /// Whether the unnamed register holds anything.
    pub fn has_clipboard(&self) -> (r: bool)
        ensures
            r == (self.regs().unnamed.nodes.len() > 0),
    {
        !self.registers.get_unnamed().is_empty()
    }

    /// The value being typed, if any.
    pub fn edit_buffer(&self) -> (r: Option<&str>)
        ensures
            match self.edit_text() {
                Some(t) => r matches Some(b) && b@ == t,
                None => r is None,
            },
    {
        match &self.edit_buffer {
            Some(b) => Some(b.as_str()),
            None => None,
        }
    }

    /// Types a character at the value editor's cursor.
    pub fn push_to_edit_buffer(&mut self, ch: char)
        requires
            old(self).wf(),
        ensures
            final(self).wf(),
            match old(self).edit_text() {
                Some(t) => {
                    &&& final(self).edit_text() == Some(typed_text(t, old(self).edit_pos(), ch))
                    &&& final(self).edit_pos() == old(self).edit_pos() + 1
                    &&& final(self).blink() == (true, 0u8)
                },
                None => final(self).edit_text() is None && final(self).edit_pos() == old(self).edit_pos(),
            },
            final(self).same_document(old(self)),
            final(self).key_text() == old(self).key_text(),
            final(self).key_pos() == old(self).key_pos(),
            final(self).msg() == old(self).msg(),
    {
        match &self.edit_buffer {
            Some(b) => {
                let nb = insert_char_at(b.as_str(), self.edit_cursor, ch);
                let n = char_count(nb.as_str());
                self.edit_buffer = Some(nb);
                self.edit_cursor = self.edit_cursor + 1;
                self.reset_cursor_blink();
            },
            None => {},
        }
    }

    /// Backspace in the value editor: removes the character before the
    /// cursor.
    pub fn pop_from_edit_buffer(&mut self)
        requires
            old(self).wf(),
        ensures
            final(self).wf(),
            match old(self).edit_text() {
                Some(t) => if old(self).edit_pos() > 0 {
                    &&& final(self).edit_text() == Some(backspaced_text(t, old(self).edit_pos()))
                    &&& final(self).edit_pos() == old(self).edit_pos() - 1
                    &&& final(self).blink() == (true, 0u8)
                } else {
                    final(self).edit_text() == old(self).edit_text() && final(self).edit_pos() == old(self).edit_pos()
                },
                None => final(self).edit_text() is None && final(self).edit_pos() == old(self).edit_pos(),
            },
            final(self).same_document(old(self)),
            final(self).key_text() == old(self).key_text(),
            final(self).key_pos() == old(self).key_pos(),
            final(self).msg() == old(self).msg(),
    {
        match &self.edit_buffer {
            Some(b) => {
                if self.edit_cursor > 0 {
                    let nb = remove_char_at(b.as_str(), self.edit_cursor - 1);
                    self.edit_buffer = Some(nb);
                    self.edit_cursor = self.edit_cursor - 1;
                    self.reset_cursor_blink();
                }
            },
            None => {},
        }
    }

    /// Empties the value editor.
    pub fn clear_edit_buffer(&mut self)
        requires
            old(self).wf(),
        ensures
            final(self).wf(),
            match old(self).edit_text() {
                Some(t) => final(self).edit_text() == Some(Seq::<char>::empty()) && final(self).edit_pos() == 0
                    && final(self).blink() == (true, 0u8),
                None => final(self).edit_text() is None && final(self).edit_pos() == old(self).edit_pos(),
            },
            final(self).same_document(old(self)),
            final(self).msg() == old(self).msg(),
    {
        if self.edit_buffer.is_some() {
            self.edit_buffer = Some(String::new());
            self.edit_cursor = 0;
            self.reset_cursor_blink();
        }
    }

    /// Moves the value editor's cursor one character left.
    pub fn edit_cursor_left(&mut self)
        requires
            old(self).wf(),
        ensures
            final(self).wf(),
            final(self).edit_text() == old(self).edit_text(),
            final(self).edit_pos() == (if old(self).edit_text() is Some && old(self).edit_pos() > 0 {
                (old(self).edit_pos() - 1) as nat
            } else {
                old(self).edit_pos()
            }),
            final(self).same_document(old(self)),
            final(self).msg() == old(self).msg(),
    {
        if self.edit_buffer.is_some() && self.edit_cursor > 0 {
            self.edit_cursor = self.edit_cursor - 1;
            self.reset_cursor_blink();
        }
    }

    /// Moves the value editor's cursor one character right.
    pub fn edit_cursor_right(&mut self)
        requires
            old(self).wf(),
        ensures
            final(self).wf(),
            final(self).edit_text() == old(self).edit_text(),
            final(self).edit_pos() == match old(self).edit_text() {
                Some(t) => if old(self).edit_pos() < t.len() { old(self).edit_pos() + 1 } else { old(self).edit_pos() },
                None => old(self).edit_pos(),
            },
            final(self).same_document(old(self)),
            final(self).msg() == old(self).msg(),
    {
        match &self.edit_buffer {
            Some(b) => {
                if self.edit_cursor < char_count(b.as_str()) {
                    self.edit_cursor = self.edit_cursor + 1;
                    self.reset_cursor_blink();
                }
            },
            None => {},
        }
    }

    /// Moves the value editor's cursor to the start (Ctrl-a).
    pub fn edit_cursor_home(&mut self)
        requires
            old(self).wf(),
        ensures
            final(self).wf(),
            final(self).edit_text() == old(self).edit_text(),
            final(self).edit_pos() == 0,
            final(self).blink() == (true, 0u8),
            final(self).same_document(old(self)),
            final(self).msg() == old(self).msg(),
    {
        self.edit_cursor = 0;
        self.reset_cursor_blink();
    }

    /// Moves the value editor's cursor to the end (Ctrl-e).
    pub fn edit_cursor_end(&mut self)
        requires
            old(self).wf(),
        ensures
            final(self).wf(),
            final(self).edit_text() == old(self).edit_text(),
            final(self).edit_pos() == match old(self).edit_text() {
                Some(t) => t.len(),
                None => old(self).edit_pos(),
            },
            final(self).same_document(old(self)),
            final(self).msg() == old(self).msg(),
    {
        match &self.edit_buffer {
            Some(b) => {
                self.edit_cursor = char_count(b.as_str());
                self.reset_cursor_blink();
            },
            None => {},
        }
    }

    /// Deletes the character at the value editor's cursor (Ctrl-d).
    pub fn edit_delete_at_cursor(&mut self)
        requires
            old(self).wf(),
        ensures
            final(self).wf(),
            final(self).edit_text() == match old(self).edit_text() {
                Some(t) => if old(self).edit_pos() < t.len() {
                    Some(t.take(old(self).edit_pos() as int) + t.skip(old(self).edit_pos() + 1int))
                } else {
                    Some(t)
                },
                None => None,
            },
            final(self).edit_pos() == old(self).edit_pos(),
            final(self).same_document(old(self)),
            final(self).msg() == old(self).msg(),
    {
        match &self.edit_buffer {
            Some(b) => {
                if self.edit_cursor < char_count(b.as_str()) {
                    let nb = remove_char_at(b.as_str(), self.edit_cursor);
                    self.edit_buffer = Some(nb);
                    self.reset_cursor_blink();
                }
            },
            None => {},
        }
    }

    /// Deletes from the value editor's cursor to the end (Ctrl-k).
    pub fn edit_kill_to_end(&mut self)
        requires
            old(self).wf(),
        ensures
            final(self).wf(),
            final(self).edit_text() == match old(self).edit_text() {
                Some(t) => Some(t.take(old(self).edit_pos() as int)),
                None => None,
            },
            final(self).edit_pos() == old(self).edit_pos(),
            final(self).same_document(old(self)),
            final(self).msg() == old(self).msg(),
    {
        match &self.edit_buffer {
            Some(b) => {
                let nb = take_chars(b.as_str(), self.edit_cursor);
                self.edit_buffer = Some(nb);
                self.reset_cursor_blink();
            },
            None => {},
        }
    }

    /// The value editor's cursor as a byte offset into the value's UTF-8
    /// text.
    pub fn edit_cursor_position(&self) -> (r: usize)
        requires
            self.wf(),
        ensures
            r == match self.edit_text() {
                Some(t) => byte_len(t.take(self.edit_pos() as int)),
                None => self.edit_pos(),
            },
    {
        match &self.edit_buffer {
            Some(b) => {
                let prefix = take_chars(b.as_str(), self.edit_cursor);
                str_byte_len(prefix.as_str())
            },
            None => self.edit_cursor,
        }
    }

    /// Whether the text cursor is drawn.
    pub fn cursor_visible(&self) -> (r: bool)
        ensures
            r == self.blink().0,
    {
        self.cursor_visible
    }

    /// One tick of the text cursor's blinking: every fifth tick it shows or
    /// hides.
    pub fn update_cursor_blink(&mut self)
        requires
            old(self).wf(),
        ensures
            final(self).wf(),
            ({
                let t = (old(self).blink().1 + 1) % 256;
                if t >= 5 {
                    final(self).blink() == (!old(self).blink().0, 0u8)
                } else {
                    final(self).blink() == (old(self).blink().0, t as u8)
                }
            }),
            final(self).same_document(old(self)),
            final(self).same_input(old(self)),
    {
        self.cursor_blink_ticks = if self.cursor_blink_ticks == 255 { 0 } else { self.cursor_blink_ticks + 1 };
        if self.cursor_blink_ticks >= 5 {
            self.cursor_visible = !self.cursor_visible;
            self.cursor_blink_ticks = 0;
        }
    }

    /// Shows the text cursor and restarts its blinking.
    pub fn reset_cursor_blink(&mut self)
        requires
            old(self).wf(),
        ensures
            final(self).wf(),
            final(self).blink() == (true, 0u8),
            final(self).same_document(old(self)),
            final(self).same_input(old(self)),
    {
        self.cursor_visible = true;
        self.cursor_blink_ticks = 0;
    }

    /// The stage of an add operation.
    pub fn add_mode_stage(&self) -> (r: &AddModeStage)
        ensures
            *r == self.add_stage(),
    {
        &self.add_mode_stage
    }

    /// The key being typed.
    pub fn add_key_buffer(&self) -> (r: &str)
        ensures
            r@ == self.key_text(),
    {
        self.add_key_buffer.as_str()
    }

    /// The key editor's cursor as a byte offset into the key's UTF-8 text.
    pub fn add_key_cursor_position(&self) -> (r: usize)
        requires
            self.wf(),
        ensures
            r == byte_len(self.key_text().take(self.key_pos() as int)),
    {
        let prefix = take_chars(self.add_key_buffer.as_str(), self.add_key_cursor);
        str_byte_len(prefix.as_str())
    }

    /// Types a character at the key editor's cursor.
    pub fn push_to_add_key_buffer(&mut self, ch: char)
        requires
            old(self).wf(),
        ensures
            final(self).wf(),
            final(self).key_text() == old(self).key_text().take(old(self).key_pos() as int).push(ch) + old(
                self,
            ).key_text().skip(old(self).key_pos() as int),
            final(self).key_pos() == old(self).key_pos() + 1,
            final(self).blink() == (true, 0u8),
            final(self).edit_text() == old(self).edit_text(),
            final(self).add_stage() == old(self).add_stage(),
            final(self).same_document(old(self)),
            final(self).msg() == old(self).msg(),
    {
        let nb = insert_char_at(self.add_key_buffer.as_str(), self.add_key_cursor, ch);
        let n = char_count(nb.as_str());
        self.add_key_buffer = nb;
        self.add_key_cursor = self.add_key_cursor + 1;
        self.reset_cursor_blink();
    }

    /// Backspace in the key editor.
    pub fn pop_from_add_key_buffer(&mut self)
        requires
            old(self).wf(),
        ensures
            final(self).wf(),
            old(self).key_pos() > 0 ==> final(self).key_text() == old(self).key_text().take(old(self).key_pos() - 1)
                + old(self).key_text().skip(old(self).key_pos() as int) && final(self).key_pos() == old(self).key_pos()
                - 1,
            old(self).key_pos() == 0 ==> final(self).key_text() == old(self).key_text() && final(self).key_pos() == 0,
            final(self).edit_text() == old(self).edit_text(),
            final(self).add_stage() == old(self).add_stage(),
            final(self).same_document(old(self)),
            final(self).msg() == old(self).msg(),
    {
        if self.add_key_cursor > 0 {
            let nb = remove_char_at(self.add_key_buffer.as_str(), self.add_key_cursor - 1);
            self.add_key_buffer = nb;
            self.add_key_cursor = self.add_key_cursor - 1;
            self.reset_cursor_blink();
        }
    }

    /// Empties the key editor.
    pub fn clear_add_key_buffer(&mut self)
        requires
            old(self).wf(),
        ensures
            final(self).wf(),
            final(self).key_text().len() == 0,
            final(self).key_pos() == 0,
            final(self).edit_text() == old(self).edit_text(),
            final(self).edit_pos() == old(self).edit_pos(),
            final(self).add_stage() == old(self).add_stage(),
            final(self).same_document(old(self)),
            final(self).msg() == old(self).msg(),
            final(self).mode_value() == old(self).mode_value(),
    {
        self.add_key_buffer = String::new();
        self.add_key_cursor = 0;
    }
}

} // verus!
