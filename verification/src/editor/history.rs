//! Input history for command and search modes, browsed with Up/Down.

use vstd::prelude::*;
use crate::text::str_to_string;

verus! {

/// Model of an input history.
pub struct HistoryModel {
    /// Entries, oldest first
    pub entries: Seq<Seq<char>>,
    pub max_size: nat,
    /// The entry being shown while browsing
    pub browse_index: Option<nat>,
    /// The input saved when browsing started
    pub draft: Seq<char>,
}

/// The history after pushing `e` (see `InputHistory::push`).
pub open spec fn push_model(m: HistoryModel, e: Seq<char>) -> HistoryModel {
    if e.len() == 0 {
        m
    } else if m.entries.len() > 0 && m.entries.last() == e {
        HistoryModel { browse_index: None, draft: Seq::empty(), ..m }
    } else {
        let added = m.entries.push(e);
        HistoryModel {
            entries: if added.len() > m.max_size { added.drop_first() } else { added },
            browse_index: None,
            draft: Seq::empty(),
            ..m
        }
    }
}

/// A history buffer with Up/Down browsing. Entries are kept oldest first;
/// the input in progress is saved as a draft when browsing starts and is
/// given back when browsing moves past the newest entry.
pub struct InputHistory {
    entries: Vec<String>,
    max_size: usize,
    browse_index: Option<usize>,
    draft: String,
}

impl View for InputHistory {
    type V = HistoryModel;

    closed spec fn view(&self) -> HistoryModel {
        HistoryModel {
            entries: self.entries@.map_values(|s: String| s@),
            max_size: self.max_size as nat,
            browse_index: match self.browse_index {
                Some(i) => Some(i as nat),
                None => None,
            },
            draft: self.draft@,
        }
    }
}

impl InputHistory {
    /// The browse position designates a stored entry.
    pub open spec fn wf(&self) -> bool {
        match self@.browse_index {
            Some(i) => i < self@.entries.len(),
            None => true,
        }
    }

    /// An empty history holding at most `max_size` entries.
    pub fn new(max_size: usize) -> (r: Self)
        ensures
            r.wf(),
            r@ == (HistoryModel { entries: Seq::empty(), max_size: max_size as nat, browse_index: None, draft: Seq::empty() }),
    {
        let r = InputHistory { entries: Vec::new(), max_size, browse_index: None, draft: String::new() };
        assert(r@.entries =~= Seq::<Seq<char>>::empty());
        r
    }

    /// Adds an entry: empty strings are skipped, a repeat of the newest entry
    /// is not stored again, and the oldest entry is dropped past the maximum.
    /// Browsing state is reset unless the entry is empty.
    pub fn push(&mut self, entry: String)
        requires
            old(self).wf(),
        ensures
            final(self).wf(),
            final(self)@ == push_model(old(self)@, entry@),
    {
        let ghost e = entry@;
        if entry.as_str().is_empty() {
            return;
        }
        let n = self.entries.len();
        if n > 0 && self.entries[n - 1] == entry {
            self.reset_browse();
            return;
        }
        let ghost added = old(self)@.entries.push(e);
        self.entries.push(entry);
        assert(self@.entries =~= added);
        if self.entries.len() > self.max_size {
            self.entries.remove(0);
            assert(self@.entries =~= added.drop_first());
        }
        self.reset_browse();
    }

    /// Browses towards older entries. The first call saves `current_buffer`
    /// as the draft and gives the newest entry; later calls give older
    /// entries; none when the history is empty or the oldest entry is shown.
    pub fn browse_up(&mut self, current_buffer: &str) -> (r: Option<&str>)
        requires
            old(self).wf(),
        ensures
            final(self).wf(),
            final(self)@.entries == old(self)@.entries,
            final(self)@.max_size == old(self)@.max_size,
            old(self)@.entries.len() == 0 ==> r is None && final(self)@ == old(self)@,
            old(self)@.entries.len() > 0 ==> match old(self)@.browse_index {
                None => final(self)@.draft == current_buffer@
                    && final(self)@.browse_index == Some((old(self)@.entries.len() - 1) as nat)
                    && (r matches Some(s) && s@ == old(self)@.entries.last()),
                Some(i) => if i > 0 {
                    final(self)@ == (HistoryModel { browse_index: Some((i - 1) as nat), ..old(self)@ })
                        && (r matches Some(s) && s@ == old(self)@.entries[i - 1])
                } else {
                    r is None && final(self)@ == old(self)@
                },
            },
    {
        if self.entries.len() == 0 {
            return None;
        }
        match self.browse_index {
            None => {
                self.draft = str_to_string(current_buffer);
                let idx = self.entries.len() - 1;
                self.browse_index = Some(idx);
                Some(self.entries[idx].as_str())
            },
            Some(idx) => {
                if idx > 0 {
                    let new_idx = idx - 1;
                    self.browse_index = Some(new_idx);
                    Some(self.entries[new_idx].as_str())
                } else {
                    None
                }
            },
        }
    }

    /// Browses towards newer entries. Past the newest entry the draft is
    /// given back and browsing ends; none when not browsing.
    pub fn browse_down(&mut self) -> (r: Option<&str>)
        requires
            old(self).wf(),
        ensures
            final(self).wf(),
            match old(self)@.browse_index {
                None => r is None && final(self)@ == old(self)@,
                Some(i) => if i + 1 < old(self)@.entries.len() {
                    final(self)@ == (HistoryModel { browse_index: Some(i + 1), ..old(self)@ })
                        && (r matches Some(s) && s@ == old(self)@.entries[i as int + 1])
                } else {
                    final(self)@ == (HistoryModel { browse_index: None, ..old(self)@ })
                        && (r matches Some(s) && s@ == old(self)@.draft)
                },
            },
    {
        match self.browse_index {
            None => None,
            Some(idx) => {
                assert(self@.entries.len() == self.entries@.len());
                assert(idx < self.entries@.len());
                if idx < self.entries.len() - 1 {
                    let new_idx = idx + 1;
                    self.browse_index = Some(new_idx);
                    Some(self.entries[new_idx].as_str())
                } else {
                    self.browse_index = None;
                    Some(self.draft.as_str())
                }
            },
        }
    }

    /// Ends browsing and clears the draft.
    pub fn reset_browse(&mut self)
        ensures
            final(self)@ == (HistoryModel { browse_index: None, draft: Seq::empty(), ..old(self)@ }),
    {
        self.browse_index = None;
        self.draft = String::new();
    }

    /// The stored entries, oldest first.
    pub fn entries(&self) -> (r: &Vec<String>)
        ensures
            r@.map_values(|s: String| s@) == self@.entries,
    {
        &self.entries
    }

    /// The maximum number of entries.
    pub fn max_size(&self) -> (r: usize)
        ensures
            r == self@.max_size,
    {
        self.max_size
    }

    /// The position shown while browsing.
    pub fn browse_index(&self) -> (r: Option<usize>)
        ensures
            match r {
                Some(i) => self@.browse_index == Some(i as nat),
                None => self@.browse_index is None,
            },
    {
        self.browse_index
    }

    /// The saved draft.
    pub fn draft(&self) -> (r: &str)
        ensures
            r@ == self@.draft,
    {
        self.draft.as_str()
    }
}

impl Default for InputHistory {
    fn default() -> (r: Self)
        ensures
            r.wf(),
            r@ == (HistoryModel { entries: Seq::empty(), max_size: 50, browse_index: None, draft: Seq::empty() }),
    {
        InputHistory::new(50)
    }
}

} // verus!
