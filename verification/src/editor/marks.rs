//! Marks: named bookmarks of cursor positions.

use vstd::prelude::*;
use crate::assoc::{AssocMap, Key};

verus! {

/// Local marks (normally `a`-`z`) mapping a name to a cursor path. They
/// last for the editing session.
pub struct MarkSet {
    marks: AssocMap<char, Vec<usize>>,
}

/// The marks that a list of entries stands for.
pub open spec fn marks_view(s: Seq<(char, Vec<usize>)>) -> Map<char, Seq<usize>> {
    crate::assoc::assoc_view(s).map_values(|p: Vec<usize>| p@)
}

/// The names are strictly increasing.
pub open spec fn names_sorted<T>(r: Seq<(char, T)>) -> bool {
    forall|a: int, b: int| 0 <= a < b < r.len() ==> r[a].0 < r[b].0
}

proof fn lemma_sorted_insert<T>(r0: Seq<(char, T)>, pos: int, x: (char, T))
    requires
        names_sorted(r0),
        0 <= pos <= r0.len(),
        forall|a: int| 0 <= a < pos ==> #[trigger] r0[a].0 < x.0,
        pos < r0.len() ==> !(r0[pos].0 < x.0),
        forall|a: int| 0 <= a < r0.len() ==> #[trigger] r0[a].0 != x.0,
    ensures
        names_sorted(r0.insert(pos, x)),
{
    let r = r0.insert(pos, x);
    assert forall|a: int, b: int| 0 <= a < b < r.len() implies r[a].0 < r[b].0 by {
        if b < pos {
            assert(r[a] == r0[a] && r[b] == r0[b]);
        } else if b == pos {
            assert(r[a] == r0[a]);
        } else if a < pos {
            assert(r[a] == r0[a]);
            assert(r[b] == r0[b - 1]);
            assert(r0[pos].0 != x.0);
            if b - 1 > pos {
                assert(r0[pos].0 < r0[b - 1].0);
            }
        } else if a == pos {
            assert(r[b] == r0[b - 1]);
            assert(r0[pos].0 != x.0);
            if b - 1 > pos {
                assert(r0[pos].0 < r0[b - 1].0);
            }
        } else {
            assert(r[a] == r0[a - 1]);
            assert(r[b] == r0[b - 1]);
        }
    }
}

impl View for MarkSet {
    type V = Map<char, Seq<usize>>;

    closed spec fn view(&self) -> Map<char, Seq<usize>> {
        marks_view(self.marks.entries@)
    }
}

impl MarkSet {
    pub closed spec fn wf(&self) -> bool {
        self.marks.wf()
    }

    /// An empty set of marks.
    pub fn new() -> (r: Self)
        ensures
            r.wf(),
            r@ == Map::<char, Seq<usize>>::empty(),
    {
        let r = MarkSet { marks: AssocMap::new() };
        assert(r@ =~= Map::<char, Seq<usize>>::empty());
        r
    }

    /// Sets mark `name` to `cursor_path` (the name is not validated).
    pub fn set_mark(&mut self, name: char, cursor_path: Vec<usize>)
        requires
            old(self).wf(),
        ensures
            final(self).wf(),
            final(self)@ == old(self)@.insert(name, cursor_path@),
    {
        let ghost p = cursor_path@;
        self.marks.insert(name, cursor_path);
        assert(self@ =~= old(self)@.insert(name, p));
    }

    /// The path of mark `name`, if it is set.
    pub fn get_mark(&self, name: char) -> (r: Option<&Vec<usize>>)
        requires
            self.wf(),
        ensures
            match r {
                Some(p) => self@.contains_key(name) && self@[name] == p@,
                None => !self@.contains_key(name),
            },
    {
        self.marks.get(&name)
    }

    /// Clears all marks.
    pub fn clear(&mut self)
        ensures
            final(self).wf(),
            final(self)@ == Map::<char, Seq<usize>>::empty(),
    {
        self.marks.clear();
        assert(self@ =~= Map::<char, Seq<usize>>::empty());
    }

    /// All set marks as `(name, path)` pairs, sorted by name.
    pub fn list(&self) -> (r: Vec<(char, &Vec<usize>)>)
        requires
            self.wf(),
        ensures
            forall|i: int, j: int| 0 <= i < j < r@.len() ==> r@[i].0 < r@[j].0,
            forall|i: int| 0 <= i < r@.len() ==> self@.contains_key(#[trigger] r@[i].0) && self@[r@[i].0] == r@[i].1@,
            forall|c: char| #[trigger] self@.contains_key(c) ==> exists|i: int| 0 <= i < r@.len() && r@[i].0 == c,
    {
        let entries = self.marks.as_slice();
        let ghost s = self.marks.entries@;
        let mut r: Vec<(char, &Vec<usize>)> = Vec::new();
        let mut i: usize = 0;
        while i < entries.len()
            invariant
                entries@ == s,
                crate::assoc::keys_distinct(s),
                i <= s.len(),
                names_sorted(r@),
                from_entries(r@, s, i as int),
                covers(r@, s, i as int),
            decreases s.len() - i,
        {
            let c = entries[i].0;
            let mut pos: usize = 0;
            while pos < r.len() && r[pos].0 < c
                invariant
                    pos <= r@.len(),
                    forall|a: int| 0 <= a < pos ==> #[trigger] r@[a].0 < c,
                decreases r.len() - pos,
            {
                pos = pos + 1;
            }
            let ghost r0 = r@;
            proof {
                lemma_fresh_name(r0, s, i as int);
                lemma_sorted_insert(r0, pos as int, (c, &entries[i as int].1));
                lemma_insert_step(r0, s, i as int, pos as int);
            }
            r.insert(pos, (c, &entries[i].1));
            i = i + 1;
        }
        proof {
            lemma_list_complete(r@, s);
        }
        r
    }
}

/// Every listed pair is an entry among the first `n`.
pub open spec fn from_entries(r: Seq<(char, &Vec<usize>)>, s: Seq<(char, Vec<usize>)>, n: int) -> bool {
    forall|a: int| 0 <= a < r.len() ==> exists|j: int| 0 <= j < n && s[j].0 == #[trigger] r[a].0 && s[j].1@ == r[a].1@
}

/// Every name among the first `n` entries is listed.
pub open spec fn covers(r: Seq<(char, &Vec<usize>)>, s: Seq<(char, Vec<usize>)>, n: int) -> bool {
    forall|j: int| 0 <= j < n ==> exists|a: int| 0 <= a < r.len() && #[trigger] s[j].0 == r[a].0
}

proof fn lemma_fresh_name(r0: Seq<(char, &Vec<usize>)>, s: Seq<(char, Vec<usize>)>, i: int)
    requires
        crate::assoc::keys_distinct(s),
        0 <= i < s.len(),
        from_entries(r0, s, i),
    ensures
        forall|a: int| 0 <= a < r0.len() ==> #[trigger] r0[a].0 != s[i].0,
{
    assert forall|a: int| 0 <= a < r0.len() implies #[trigger] r0[a].0 != s[i].0 by {
        let j = choose|j: int| 0 <= j < i && s[j].0 == #[trigger] r0[a].0 && s[j].1@ == r0[a].1@;
        assert(s[j].0.model() != s[i].0.model());
    }
}

proof fn lemma_insert_step(r0: Seq<(char, &Vec<usize>)>, s: Seq<(char, Vec<usize>)>, i: int, pos: int)
    requires
        0 <= i < s.len(),
        0 <= pos <= r0.len(),
        from_entries(r0, s, i),
        covers(r0, s, i),
    ensures
        from_entries(r0.insert(pos, (s[i].0, &s[i].1)), s, i + 1),
        covers(r0.insert(pos, (s[i].0, &s[i].1)), s, i + 1),
{
    lemma_insert_from(r0, s, i, pos);
    lemma_insert_covers(r0, s, i, pos);
}

#[verifier::rlimit(40)]
proof fn lemma_insert_from(r0: Seq<(char, &Vec<usize>)>, s: Seq<(char, Vec<usize>)>, i: int, pos: int)
    requires
        0 <= i < s.len(),
        0 <= pos <= r0.len(),
        from_entries(r0, s, i),
    ensures
        from_entries(r0.insert(pos, (s[i].0, &s[i].1)), s, i + 1),
{
    let r = r0.insert(pos, (s[i].0, &s[i].1));
    assert forall|a: int| 0 <= a < r.len() implies exists|j: int| 0 <= j < i + 1 && s[j].0 == #[trigger] r[a].0 && s[j].1@ == r[a].1@ by {
        if a == pos {
            assert(s[i].0 == r[a].0 && s[i].1@ == r[a].1@);
        } else {
            let a0 = if a < pos { a } else { a - 1 };
            assert(r[a] == r0[a0]);
            let j = choose|j: int| 0 <= j < i && s[j].0 == #[trigger] r0[a0].0 && s[j].1@ == r0[a0].1@;
            assert(s[j].0 == r[a].0 && s[j].1@ == r[a].1@);
        }
    }
}

#[verifier::rlimit(40)]
proof fn lemma_insert_covers(r0: Seq<(char, &Vec<usize>)>, s: Seq<(char, Vec<usize>)>, i: int, pos: int)
    requires
        0 <= i < s.len(),
        0 <= pos <= r0.len(),
        covers(r0, s, i),
    ensures
        covers(r0.insert(pos, (s[i].0, &s[i].1)), s, i + 1),
{
    let r = r0.insert(pos, (s[i].0, &s[i].1));
    assert forall|j: int| 0 <= j < i + 1 implies exists|a: int| 0 <= a < r.len() && #[trigger] s[j].0 == r[a].0 by {
        if j == i {
            assert(r[pos].0 == s[j].0);
        } else {
            let a = choose|a: int| 0 <= a < r0.len() && #[trigger] s[j].0 == r0[a].0;
            let a1 = if a < pos { a } else { a + 1 };
            assert(r[a1] == r0[a]);
        }
    }
}

proof fn lemma_list_complete(r: Seq<(char, &Vec<usize>)>, s: Seq<(char, Vec<usize>)>)
    requires
        crate::assoc::keys_distinct(s),
        from_entries(r, s, s.len() as int),
        covers(r, s, s.len() as int),
    ensures
        forall|a: int| 0 <= a < r.len() ==> marks_view(s).contains_key(#[trigger] r[a].0)
            && marks_view(s)[r[a].0] == r[a].1@,
        forall|c: char| #[trigger] marks_view(s).contains_key(c) ==> exists|a: int| 0 <= a < r.len() && r[a].0 == c,
{
    let m = marks_view(s);
    assert forall|a: int| 0 <= a < r.len() implies m.contains_key(#[trigger] r[a].0) && m[r[a].0] == r[a].1@ by {
        let j = choose|j: int| 0 <= j < s.len() && s[j].0 == #[trigger] r[a].0 && s[j].1@ == r[a].1@;
        crate::assoc::lemma_lookup(s, j);
    }
    assert forall|c: char| #[trigger] m.contains_key(c) implies exists|a: int| 0 <= a < r.len() && r[a].0 == c by {
        let j = choose|j: int| 0 <= j < s.len() && #[trigger] s[j].0.model() == c;
        let a = choose|a: int| 0 <= a < r.len() && #[trigger] s[j].0 == r[a].0;
    }
}

impl Default for MarkSet {
    fn default() -> (r: Self)
        ensures
            r.wf(),
            r@ == Map::<char, Seq<usize>>::empty(),
    {
        MarkSet::new()
    }
}

} // verus!
