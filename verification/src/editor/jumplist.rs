//! Jump list: the history of cursor positions for Ctrl-o / Ctrl-i.

use vstd::prelude::*;
use crate::paths::{path_to_vec, paths_equal};

verus! {

/// Model of a jump list.
pub struct JumpListModel {
    pub jumps: Seq<Seq<usize>>,
    pub current: nat,
    pub max_size: nat,
}

/// The stored jumps after recording `p` (see `JumpList::record_jump`).
pub open spec fn record_model(m: JumpListModel, p: Seq<usize>) -> JumpListModel {
    if m.current < m.jumps.len() && m.jumps[m.current as int] == p {
        m
    } else {
        let kept = if m.current < m.jumps.len() { m.jumps.take(m.current as int + 1) } else { m.jumps };
        let added = kept.push(p);
        if added.len() > m.max_size {
            JumpListModel { jumps: added.drop_first(), current: (added.len() - 2) as nat, ..m }
        } else {
            JumpListModel { jumps: added, current: (added.len() - 1) as nat, ..m }
        }
    }
}

/// Moving back one entry (see `JumpList::jump_backward`): the list after
/// the move and the path of the entry moved to; none at the oldest entry.
pub open spec fn backward_model(m: JumpListModel) -> (JumpListModel, Option<Seq<usize>>) {
    if m.current == 0 || m.jumps.len() == 0 {
        (m, None)
    } else {
        (JumpListModel { current: (m.current - 1) as nat, ..m }, Some(m.jumps[m.current - 1]))
    }
}

/// Moving forward one entry (see `JumpList::jump_forward`): the list after
/// the move and the path of the entry moved to; none at the newest entry.
pub open spec fn forward_model(m: JumpListModel) -> (JumpListModel, Option<Seq<usize>>) {
    if m.jumps.len() == 0 || m.current + 1 >= m.jumps.len() {
        (m, None)
    } else {
        (JumpListModel { current: m.current + 1, ..m }, Some(m.jumps[m.current as int + 1]))
    }
}

/// Recording a jump keeps the list within its maximum size and the
/// pointer on a stored entry, so no sequence of recordings and moves ever
/// makes the list longer than its maximum.
pub proof fn law_record_keeps_bound(m: JumpListModel, p: Seq<usize>)
    requires
        m.max_size > 0,
        m.jumps.len() <= m.max_size,
        if m.jumps.len() == 0 { m.current == 0 } else { m.current < m.jumps.len() },
    ensures
        record_model(m, p).jumps.len() <= m.max_size,
        record_model(m, p).max_size == m.max_size,
        record_model(m, p).current < record_model(m, p).jumps.len(),
{
}

/// Recording a new path while the pointer is on a stored entry keeps the
/// entries up to and including that one, drops every entry after it, and
/// appends the path (dropping the oldest entry only when the list would
/// pass its maximum size). The pointer goes to the new entry, so jumping
/// back from it reaches the entry that was current when it was recorded.
pub proof fn law_record_drops_newer_entries(m: JumpListModel, p: Seq<usize>)
    requires
        m.current < m.jumps.len(),
        m.jumps[m.current as int] != p,
    ensures
        m.current + 2 <= m.max_size ==> {
            &&& record_model(m, p).jumps == m.jumps.take(m.current as int + 1).push(p)
            &&& record_model(m, p).current == m.current + 1
        },
        m.current + 2 > m.max_size ==> record_model(m, p).jumps == m.jumps.take(m.current as int + 1).push(p).drop_first(),
        record_model(m, p).jumps.last() == p,
        forall|q: Seq<usize>| #[trigger] record_model(m, p).jumps.contains(q) ==> q == p || exists|i: int|
            0 <= i <= m.current && m.jumps[i] == q,
        m.current + 2 <= m.max_size ==> backward_model(record_model(m, p)).1 == Some(m.jumps[m.current as int]),
{
    let r = record_model(m, p);
    assert forall|q: Seq<usize>| #[trigger] r.jumps.contains(q) implies q == p || exists|i: int|
        0 <= i <= m.current && m.jumps[i] == q by {
        let j = choose|j: int| 0 <= j < r.jumps.len() && r.jumps[j] == q;
        if m.current + 2 <= m.max_size {
            if j < m.current + 1 {
                assert(m.jumps[j] == q);
            }
        } else {
            if j + 1 < m.current + 1 {
                assert(m.jumps[j + 1] == q);
            }
        }
    }
}

/// Jumping forward right after a jump back returns to the entry jumped
/// from, with the list as it was.
pub proof fn law_forward_after_backward(m: JumpListModel)
    requires
        m.current < m.jumps.len(),
        backward_model(m).1 is Some,
    ensures
        forward_model(backward_model(m).0) == (m, Some(m.jumps[m.current as int])),
{
}

/// Jumping back right after a jump forward returns to the entry jumped
/// from, with the list as it was.
pub proof fn law_backward_after_forward(m: JumpListModel)
    requires
        forward_model(m).1 is Some,
    ensures
        backward_model(forward_model(m).0) == (m, Some(m.jumps[m.current as int])),
{
}

/// Cursor position history with a pointer to the current entry. Recording a
/// jump in the middle of the list drops the entries after the pointer; the
/// oldest entry is dropped when the list grows past its maximum size.
pub struct JumpList {
    jumps: Vec<Vec<usize>>,
    current: usize,
    max_size: usize,
}

impl View for JumpList {
    type V = JumpListModel;

    closed spec fn view(&self) -> JumpListModel {
        JumpListModel {
            jumps: self.jumps@.map_values(|p: Vec<usize>| p@),
            current: self.current as nat,
            max_size: self.max_size as nat,
        }
    }
}

impl JumpList {
    /// The pointer designates a stored entry (or is 0 when none is stored).
    pub open spec fn wf(&self) -> bool {
        let m = self@;
        &&& if m.jumps.len() == 0 { m.current == 0 } else { m.current < m.jumps.len() }
        &&& m.jumps.len() <= m.max_size
    }

    /// An empty jump list holding at most `max_size` jumps.
    pub fn new(max_size: usize) -> (r: Self)
        ensures
            r.wf(),
            r@ == (JumpListModel { jumps: Seq::empty(), current: 0, max_size: max_size as nat }),
    {
        let r = JumpList { jumps: Vec::new(), current: 0, max_size };
        assert(r@.jumps =~= Seq::<Seq<usize>>::empty());
        r
    }

    /// Records a jump to `cursor_path` unless it equals the current entry:
    /// entries after the current one are dropped, the path is appended and
    /// becomes current, and the oldest entry is dropped past the maximum.
    pub fn record_jump(&mut self, cursor_path: Vec<usize>)
        requires
            old(self).wf(),
            old(self)@.max_size > 0,
        ensures
            final(self).wf(),
            final(self)@ == record_model(old(self)@, cursor_path@),
    {
        let ghost m0 = self@;
        let ghost p = cursor_path@;
        if self.current < self.jumps.len() {
            if paths_equal(self.jumps[self.current].as_slice(), cursor_path.as_slice()) {
                return;
            }
        }
        if self.current < self.jumps.len() {
            self.jumps.truncate(self.current + 1);
        }
        let ghost kept = if m0.current < m0.jumps.len() { m0.jumps.take(m0.current as int + 1) } else { m0.jumps };
        assert(self@.jumps =~= kept);
        self.jumps.push(cursor_path);
        assert(self@.jumps =~= kept.push(p));
        self.current = self.jumps.len() - 1;
        if self.jumps.len() > self.max_size {
            self.jumps.remove(0);
            self.current = self.jumps.len() - 1;
            assert(self@.jumps =~= kept.push(p).drop_first());
        }
    }

    /// Moves back one entry and returns its path; none at the oldest entry.
    pub fn jump_backward(&mut self) -> (r: Option<Vec<usize>>)
        requires
            old(self).wf(),
        ensures
            final(self).wf(),
            final(self)@ == backward_model(old(self)@).0,
            match backward_model(old(self)@).1 {
                Some(p) => r matches Some(x) && x@ == p,
                None => r is None,
            },
    {
        if self.current == 0 || self.jumps.len() == 0 {
            return None;
        }
        self.current = self.current - 1;
        Some(path_to_vec(self.jumps[self.current].as_slice()))
    }

    /// Moves forward one entry and returns its path; none at the newest entry.
    pub fn jump_forward(&mut self) -> (r: Option<Vec<usize>>)
        requires
            old(self).wf(),
        ensures
            final(self).wf(),
            final(self)@ == forward_model(old(self)@).0,
            match forward_model(old(self)@).1 {
                Some(p) => r matches Some(x) && x@ == p,
                None => r is None,
            },
    {
        if self.jumps.len() == 0 || self.current >= self.jumps.len() - 1 {
            return None;
        }
        self.current = self.current + 1;
        Some(path_to_vec(self.jumps[self.current].as_slice()))
    }

    /// Number of stored jumps.
    pub fn len(&self) -> (r: usize)
        ensures
            r == self@.jumps.len(),
    {
        self.jumps.len()
    }

    /// True when no jump is stored.
    pub fn is_empty(&self) -> (r: bool)
        ensures
            r == (self@.jumps.len() == 0),
    {
        self.jumps.len() == 0
    }

    /// The index of the current entry.
    pub fn current_position(&self) -> (r: usize)
        ensures
            r == self@.current,
    {
        self.current
    }
}

} // verus!
