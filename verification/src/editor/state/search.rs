//! Text search over the visible lines, with smart case: the search ignores
//! case unless the search text holds an upper-case letter.

use vstd::prelude::*;
use crate::editor::state::{find_line, line_index, EditorState, MessageLevel, SearchType};
use crate::text::{char_count, chars_of, contains_text, is_uppercase_char, lower_case_text, occurs_in, take_chars,
    to_lowercase_text, upper_case_char};
use crate::ui::tree_view::{lines_view, LineModel, TreeViewLine, ValueType};

verus! {

/// The search is case-sensitive: the text holds an upper-case letter.
pub open spec fn case_sensitive(q: Seq<char>) -> bool {
    exists|i: int| 0 <= i < q.len() && upper_case_char(#[trigger] q[i])
}

/// `t` as compared: itself, or lower-cased in a case-insensitive search.
pub open spec fn folded(t: Seq<char>, cs: bool) -> Seq<char> {
    if cs { t } else { lower_case_text(t) }
}

/// A line matches when its key, or the preview of its string value,
/// contains the search text (both as compared).
pub open spec fn line_hits(line: LineModel, q: Seq<char>) -> bool {
    let cs = case_sensitive(q);
    ||| (line.key matches Some(k) && occurs_in(folded(k, cs), folded(q, cs)))
    ||| (line.value_type == ValueType::String && occurs_in(folded(line.value_preview, cs), folded(q, cs)))
}

/// The paths of the lines that match `q`, in order.
pub open spec fn search_hits(l: Seq<LineModel>, q: Seq<char>) -> Seq<Seq<usize>>
    decreases l.len(),
{
    if l.len() == 0 {
        Seq::empty()
    } else {
        let rest = search_hits(l.drop_last(), q);
        if line_hits(l.last(), q) { rest.push(l.last().path) } else { rest }
    }
}

/// Whether `q` holds an upper-case letter.
fn has_upper(q: &str) -> (r: bool)
    ensures
        r == case_sensitive(q@),
{
    let v = chars_of(q);
    let mut i: usize = 0;
    while i < v.len()
        invariant
            v@ == q@,
            i <= v@.len(),
            forall|j: int| 0 <= j < i ==> !upper_case_char(#[trigger] q@[j]),
        decreases v.len() - i,
    {
        if is_uppercase_char(v[i]) {
            return true;
        }
        i = i + 1;
    }
    false
}

/// Whether `line` matches the search text `q` (compared as `folded` with
/// `cs`, the case sensitivity of `q`).
fn hits(line: &TreeViewLine, q: &str, query: &str, cs: bool) -> (r: bool)
    requires
        cs == case_sensitive(q@),
        query@ == folded(q@, cs),
    ensures
        r == line_hits(line@, q@),
{
    let key_hit = match &line.key {
        Some(k) => {
            if cs {
                contains_text(k.as_str(), query)
            } else {
                let lk = to_lowercase_text(k.as_str());
                contains_text(lk.as_str(), query)
            }
        },
        None => false,
    };
    let value_hit = match line.value_type {
        ValueType::String => {
            if cs {
                contains_text(line.value_preview.as_str(), query)
            } else {
                let lv = to_lowercase_text(line.value_preview.as_str());
                contains_text(lv.as_str(), query)
            }
        },
        _ => false,
    };
    key_hit || value_hit
}

/// The matching paths (see `search_hits`).
fn collect_hits(lines: &[TreeViewLine], q: &str) -> (r: Vec<Vec<usize>>)
    ensures
        r@.map_values(|p: Vec<usize>| p@) == search_hits(lines_view(lines@), q@),
{
    let cs = has_upper(q);
    let query = if cs { crate::text::str_to_string(q) } else { to_lowercase_text(q) };
    let ghost l = lines_view(lines@);
    let mut r: Vec<Vec<usize>> = Vec::new();
    let mut i: usize = 0;
    while i < lines.len()
        invariant
            l == lines_view(lines@),
            cs == case_sensitive(q@),
            query@ == folded(q@, cs),
            i <= lines@.len(),
            r@.map_values(|p: Vec<usize>| p@) == search_hits(l.take(i as int), q@),
        decreases lines.len() - i,
    {
        assert(l.take(i as int + 1).drop_last() =~= l.take(i as int));
        assert(l.take(i as int + 1).last() == l[i as int]);
        let ghost before = r@;
        if hits(&lines[i], q, query.as_str(), cs) {
            r.push(crate::paths::path_to_vec(lines[i].path.as_slice()));
            assert(r@.map_values(|p: Vec<usize>| p@) =~= before.map_values(|p: Vec<usize>| p@).push(l[i as int].path));
        }
        i = i + 1;
    }
    assert(l.take(lines@.len() as int) =~= l);
    r
}

impl EditorState {
    /// The search text.
    pub fn search_buffer(&self) -> (r: &str)
        ensures
            r@ == self.search_text(),
    {
        self.search_buffer.as_str()
    }

    /// Types a character of the search text.
    pub fn push_to_search_buffer(&mut self, ch: char)
        requires
            old(self).wf(),
        ensures
            final(self).wf(),
            final(self).search_text() == old(self).search_text().push(ch),
            final(self).same_document(old(self)),
            final(self).same_input(old(self)),
            final(self).same_extras(old(self)),
            final(self).mark_waits() == old(self).mark_waits(),
    {
        crate::text::push_char(&mut self.search_buffer, ch);
    }

    /// Removes the last character of the search text, if any.
    pub fn pop_from_search_buffer(&mut self)
        requires
            old(self).wf(),
        ensures
            final(self).wf(),
            final(self).search_text() == (if old(self).search_text().len() > 0 {
                old(self).search_text().drop_last()
            } else {
                old(self).search_text()
            }),
            final(self).same_document(old(self)),
            final(self).same_input(old(self)),
            final(self).same_extras(old(self)),
            final(self).mark_waits() == old(self).mark_waits(),
    {
        let n = char_count(self.search_buffer.as_str());
        if n > 0 {
            self.search_buffer = take_chars(self.search_buffer.as_str(), n - 1);
        }
    }

    /// Empties the search text and forgets the kind of the last search.
    pub fn clear_search_buffer(&mut self)
        requires
            old(self).wf(),
        ensures
            final(self).wf(),
            final(self).search_text().len() == 0,
            final(self).search_kind() is None,
            final(self).same_document(old(self)),
            final(self).same_input(old(self)),
            final(self).same_extras(old(self)),
            final(self).mark_waits() == old(self).mark_waits(),
            final(self).pending_cmd() == old(self).pending_cmd(),
            final(self).count_typed() == old(self).count_typed(),
            final(self).appending() == old(self).appending(),
    {
        self.search_buffer = String::new();
        self.search_type = None;
    }

    /// Sets the search direction.
    pub fn set_search_forward(&mut self, forward: bool)
        requires
            old(self).wf(),
        ensures
            final(self).wf(),
            final(self).forward() == forward,
            final(self).search_text() == old(self).search_text(),
            final(self).same_document(old(self)),
            final(self).same_input(old(self)),
    {
        self.search_forward = forward;
    }

    /// Searches the visible lines for the search text (see `search_hits`);
    /// the cursor goes to the first match, or the last when searching
    /// backwards. An empty search text does nothing.
    pub fn execute_search(&mut self)
        requires
            old(self).wf(),
        ensures
            final(self).wf(),
            final(self).doc() == old(self).doc(),
            final(self).shown() == old(self).shown(),
            final(self).expanded() == old(self).expanded(),
            final(self).search_text() == old(self).search_text(),
            final(self).forward() == old(self).forward(),
            final(self).same_input(old(self)),
            old(self).search_text().len() == 0 ==> final(self).cursor_at() == old(self).cursor_at()
                && final(self).results() == old(self).results(),
            old(self).search_text().len() > 0 ==> ({
                let h = search_hits(old(self).shown(), old(self).search_text());
                &&& final(self).results() == h
                &&& final(self).search_kind() == Some(None::<Seq<char>>)
                &&& h.len() == 0 ==> final(self).cursor_at() == old(self).cursor_at() && final(self).result_at() == 0
                &&& h.len() > 0 && old(self).forward() ==> final(self).result_at() == 0 && final(self).cursor_at() == h[0]
                &&& h.len() > 0 && !old(self).forward() ==> final(self).result_at() == h.len() - 1
                    && final(self).cursor_at() == h[h.len() - 1]
            }),
            final(self).same_extras(old(self)),
            final(self).mark_waits() == old(self).mark_waits(),
    {
        if char_count(self.search_buffer.as_str()) == 0 {
            return;
        }
        let found = collect_hits(self.tree_view.lines(), self.search_buffer.as_str());
        self.search_results = found;
        self.search_index = 0;
        self.search_type = Some(SearchType::Text);
        if self.search_results.len() > 0 {
            if self.search_forward {
                self.search_index = 0;
            } else {
                self.search_index = self.search_results.len() - 1;
            }
            let p = self.search_results[self.search_index].clone();
            self.cursor.set_path(p);
        }
    }

    /// Searches for the key of the cursor line (see `execute_search`) in
    /// the given direction; false, with a warning, when the cursor line has
    /// no key.
    pub fn execute_key_search(&mut self, forward: bool) -> (r: bool)
        requires
            old(self).wf(),
        ensures
            final(self).wf(),
            final(self).doc() == old(self).doc(),
            final(self).shown() == old(self).shown(),
            match line_index(old(self).shown(), old(self).cursor_at()) {
                Some(i) if old(self).shown()[i].key is Some => {
                    let k = old(self).shown()[i].key->0;
                    let h = search_hits(old(self).shown(), k);
                    &&& r
                    &&& final(self).search_text() == k
                    &&& final(self).forward() == forward
                    &&& k.len() > 0 ==> final(self).results() == h
                    &&& k.len() > 0 && h.len() > 0 ==> final(self).cursor_at() == (if forward {
                        h[0]
                    } else {
                        h[h.len() - 1]
                    })
                },
                _ => !r && final(self).msg() == Some(("Not on an object key"@, MessageLevel::Warning))
                    && final(self).cursor_at() == old(self).cursor_at(),
            },
    {
        let key = match find_line(self.tree_view.lines(), self.cursor.path()) {
            Some(i) => match &self.tree_view.lines()[i].key {
                Some(k) => Some(k.clone()),
                None => None,
            },
            None => None,
        };
        match key {
            None => {
                self.message = Some(crate::editor::state::Message {
                    text: crate::text::str_to_string("Not on an object key"),
                    level: MessageLevel::Warning,
                });
                false
            },
            Some(k) => {
                self.search_buffer = k;
                self.search_forward = forward;
                self.execute_search();
                true
            },
        }
    }

    /// Moves to the next search result in the search direction, wrapping
    /// around; returns whether there was a result and whether it wrapped.
    pub fn next_search_result(&mut self) -> (r: (bool, bool))
        requires
            old(self).wf(),
        ensures
            final(self).wf(),
            final(self).doc() == old(self).doc(),
            final(self).shown() == old(self).shown(),
            final(self).results() == old(self).results(),
            ({
                let n = old(self).results().len();
                let i = old(self).result_at();
                if n == 0 {
                    r == (false, false) && final(self).cursor_at() == old(self).cursor_at()
                } else {
                    let j: nat = if old(self).forward() {
                        ((i + 1) % n) as nat
                    } else if i == 0 {
                        (n - 1) as nat
                    } else {
                        (i - 1) as nat
                    };
                    &&& final(self).result_at() == j
                    &&& final(self).cursor_at() == old(self).results()[j as int]
                    &&& r == (true, if old(self).forward() { j < i } else { i == 0 })
                }
            }),
    {
        let n = self.search_results.len();
        if n == 0 {
            return (false, false);
        }
        let wrapped;
        if self.search_forward {
            let old_index = self.search_index;
            self.search_index = (self.search_index + 1) % n;
            wrapped = self.search_index < old_index;
        } else {
            wrapped = self.search_index == 0;
            self.search_index = if self.search_index == 0 { n - 1 } else { self.search_index - 1 };
        }
        let p = self.search_results[self.search_index].clone();
        self.cursor.set_path(p);
        (true, wrapped)
    }

    /// The result the cursor is on (counting from 1) and how many there
    /// are; none without results.
    pub fn search_results_info(&self) -> (r: Option<(usize, usize)>)
        requires
            self.wf(),
        ensures
            self.results().len() == 0 ==> r is None,
            self.results().len() > 0 ==> r == Some(((self.result_at() + 1) as usize, self.results().len() as usize)),
            r matches Some((i, n)) ==> n == self.results().len() && i == self.result_at() + 1,
    {
        if self.search_results.len() == 0 {
            None
        } else {
            Some((self.search_index + 1, self.search_results.len()))
        }
    }

    /// The kind of the last search.
    pub fn search_type(&self) -> (r: Option<&SearchType>)
        ensures
            match self.search_kind() {
                None => r is None,
                Some(None) => r matches Some(t) && *t is Text,
                Some(Some(q)) => r matches Some(t) && (*t matches SearchType::YamlPath(x) && x@ == q),
            },
    {
        match &self.search_type {
            Some(t) => Some(t),
            None => None,
        }
    }

    /// Forgets the results; the search text and kind stay.
    pub fn clear_search_results(&mut self)
        requires
            old(self).wf(),
        ensures
            final(self).wf(),
            final(self).results().len() == 0,
            final(self).result_at() == 0,
            final(self).search_text() == old(self).search_text(),
            final(self).search_kind() == old(self).search_kind(),
            final(self).same_document(old(self)),
            final(self).same_input(old(self)),
            final(self).same_extras(old(self)),
            final(self).mark_waits() == old(self).mark_waits(),
            final(self).pending_cmd() == old(self).pending_cmd(),
            final(self).count_typed() == old(self).count_typed(),
            final(self).appending() == old(self).appending(),
            final(self).selection() == old(self).selection(),
            final(self).anchor() == old(self).anchor(),
            final(self).add_point() == old(self).add_point(),
            final(self).temp() == old(self).temp(),
            final(self).renaming() == old(self).renaming(),
    {
        self.search_results = Vec::new();
        self.search_index = 0;
        assert(self.results() =~= Seq::<Seq<usize>>::empty());
    }
}

} // verus!
