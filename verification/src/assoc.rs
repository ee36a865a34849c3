//! A small association map: entries kept in a vector, keys pairwise distinct.
//!
//! It stands where the editor keys state by characters, strings or paths; its
//! model is a finite `Map` from the key's model to the stored value.

use vstd::prelude::*;

verus! {

/// A key with a mathematical model and an executable equality on it.
pub trait Key: Sized {
    type M;

    spec fn model(&self) -> Self::M;

    fn same(&self, other: &Self) -> (r: bool)
        ensures
            r == (self.model() == other.model()),
    ;

    fn copy_key(&self) -> (r: Self)
        ensures
            r.model() == self.model(),
    ;
}

impl Key for char {
    type M = char;

    open spec fn model(&self) -> char {
        *self
    }

    fn same(&self, other: &Self) -> (r: bool) {
        *self == *other
    }

    fn copy_key(&self) -> (r: Self) {
        *self
    }
}

impl Key for String {
    type M = Seq<char>;

    open spec fn model(&self) -> Seq<char> {
        self@
    }

    fn same(&self, other: &Self) -> (r: bool) {
        *self == *other
    }

    fn copy_key(&self) -> (r: Self) {
        self.clone()
    }
}

impl Key for Vec<usize> {
    type M = Seq<usize>;

    open spec fn model(&self) -> Seq<usize> {
        self@
    }

    fn same(&self, other: &Self) -> (r: bool) {
        crate::paths::paths_equal(self.as_slice(), other.as_slice())
    }

    fn copy_key(&self) -> (r: Self) {
        crate::paths::path_to_vec(self.as_slice())
    }
}

/// Keys of the entries are pairwise distinct in the model.
pub open spec fn keys_distinct<K: Key, V>(s: Seq<(K, V)>) -> bool {
    forall|i: int, j: int|
        0 <= i < s.len() && 0 <= j < s.len() && i != j ==> s[i].0.model() != s[j].0.model()
}

/// The entry holds key `k` at some position.
pub open spec fn has_key<K: Key, V>(s: Seq<(K, V)>, k: K::M) -> bool {
    exists|i: int| 0 <= i < s.len() && #[trigger] s[i].0.model() == k
}

/// The map that a list of entries stands for.
pub open spec fn assoc_view<K: Key, V>(s: Seq<(K, V)>) -> Map<K::M, V> {
    Map::new(
        |k: K::M| has_key(s, k),
        |k: K::M| s[choose|i: int| 0 <= i < s.len() && #[trigger] s[i].0.model() == k].1,
    )
}

pub proof fn lemma_lookup<K: Key, V>(s: Seq<(K, V)>, i: int)
    requires
        keys_distinct(s),
        0 <= i < s.len(),
    ensures
        assoc_view(s).contains_key(s[i].0.model()),
        assoc_view(s)[s[i].0.model()] == s[i].1,
{
    let k = s[i].0.model();
    assert(has_key(s, k));
    let j = choose|j: int| 0 <= j < s.len() && #[trigger] s[j].0.model() == k;
    assert(j == i);
}

pub proof fn lemma_push<K: Key, V>(s: Seq<(K, V)>, k: K, v: V)
    requires
        keys_distinct(s),
        !has_key(s, k.model()),
    ensures
        keys_distinct(s.push((k, v))),
        assoc_view(s.push((k, v))) =~= assoc_view(s).insert(k.model(), v),
{
    let t = s.push((k, v));
    assert(keys_distinct(t));
    assert forall|x: K::M| #[trigger] assoc_view(t).contains_key(x) == assoc_view(s).insert(k.model(), v).contains_key(x) by {
        if has_key(s, x) {
            let i = choose|i: int| 0 <= i < s.len() && #[trigger] s[i].0.model() == x;
            assert(t[i].0.model() == x);
        }
        if has_key(t, x) && x != k.model() {
            let i = choose|i: int| 0 <= i < t.len() && #[trigger] t[i].0.model() == x;
            assert(s[i].0.model() == x);
        }
        if x == k.model() {
            assert(t[s.len() as int].0.model() == x);
        }
    }
    assert forall|x: K::M| #[trigger] assoc_view(t).contains_key(x) implies assoc_view(t)[x] == assoc_view(s).insert(k.model(), v)[x] by {
        if x == k.model() {
            lemma_lookup(t, s.len() as int);
        } else {
            let i = choose|i: int| 0 <= i < t.len() && #[trigger] t[i].0.model() == x;
            lemma_lookup(t, i);
            lemma_lookup(s, i);
        }
    }
}

pub proof fn lemma_update<K: Key, V>(s: Seq<(K, V)>, i: int, k: K, v: V)
    requires
        keys_distinct(s),
        0 <= i < s.len(),
        s[i].0.model() == k.model(),
    ensures
        keys_distinct(s.update(i, (k, v))),
        assoc_view(s.update(i, (k, v))) =~= assoc_view(s).insert(k.model(), v),
{
    let t = s.update(i, (k, v));
    assert(keys_distinct(t));
    assert forall|x: K::M| has_key(s, x) || x == k.model() implies #[trigger] has_key(t, x) by {
        if x == k.model() {
            assert(t[i].0.model() == x);
        } else {
            let j = choose|j: int| 0 <= j < s.len() && #[trigger] s[j].0.model() == x;
            assert(t[j].0.model() == x);
        }
    }
    assert forall|x: K::M| #[trigger] has_key(t, x) implies has_key(s, x) || x == k.model() by {
        let j = choose|j: int| 0 <= j < t.len() && #[trigger] t[j].0.model() == x;
        if j != i {
            assert(s[j].0.model() == x);
        }
    }
    assert(assoc_view(t).dom() =~= assoc_view(s).insert(k.model(), v).dom());
    assert forall|x: K::M| #[trigger] assoc_view(t).contains_key(x) implies assoc_view(t)[x] == assoc_view(s).insert(k.model(), v)[x] by {
        let j = choose|j: int| 0 <= j < t.len() && #[trigger] t[j].0.model() == x;
        lemma_lookup(t, j);
        if j != i {
            lemma_lookup(s, j);
        }
    }
}

pub proof fn lemma_remove<K: Key, V>(s: Seq<(K, V)>, i: int)
    requires
        keys_distinct(s),
        0 <= i < s.len(),
    ensures
        keys_distinct(s.remove(i)),
        assoc_view(s.remove(i)) =~= assoc_view(s).remove(s[i].0.model()),
{
    let t = s.remove(i);
    let k = s[i].0.model();
    assert forall|a: int, b: int| 0 <= a < t.len() && 0 <= b < t.len() && a != b implies t[a].0.model() != t[b].0.model() by {
        let a2 = if a < i { a } else { a + 1 };
        let b2 = if b < i { b } else { b + 1 };
        assert(t[a] == s[a2]);
        assert(t[b] == s[b2]);
    }
    assert forall|x: K::M| #[trigger] assoc_view(t).contains_key(x) == assoc_view(s).remove(k).contains_key(x) by {
        if has_key(s, x) && x != k {
            let j = choose|j: int| 0 <= j < s.len() && #[trigger] s[j].0.model() == x;
            let j2 = if j < i { j } else { j - 1 };
            assert(t[j2] == s[j]);
        }
        if has_key(t, x) {
            let j = choose|j: int| 0 <= j < t.len() && #[trigger] t[j].0.model() == x;
            let j2 = if j < i { j } else { j + 1 };
            assert(t[j] == s[j2]);
        }
    }
    assert forall|x: K::M| #[trigger] assoc_view(t).contains_key(x) implies assoc_view(t)[x] == assoc_view(s).remove(k)[x] by {
        let j = choose|j: int| 0 <= j < t.len() && #[trigger] t[j].0.model() == x;
        let j2 = if j < i { j } else { j + 1 };
        assert(t[j] == s[j2]);
        lemma_lookup(t, j);
        lemma_lookup(s, j2);
    }
}

/// Position of the entry with key `k`, if any.
pub fn find_key<K: Key, V>(entries: &Vec<(K, V)>, k: &K) -> (r: Option<usize>)
    ensures
        match r {
            Some(i) => i < entries@.len() && entries@[i as int].0.model() == k.model(),
            None => !has_key(entries@, k.model()),
        },
{
    let mut i: usize = 0;
    while i < entries.len()
        invariant
            i <= entries@.len(),
            forall|j: int| 0 <= j < i ==> (#[trigger] entries@[j]).0.model() != k.model(),
        decreases entries.len() - i,
    {
        if entries[i].0.same(k) {
            return Some(i);
        }
        i = i + 1;
    }
    None
}

/// A finite map kept as a vector of entries with distinct keys.
pub struct AssocMap<K, V> {
    pub entries: Vec<(K, V)>,
}

impl<K: Key, V> View for AssocMap<K, V> {
    type V = Map<K::M, V>;

    open spec fn view(&self) -> Map<K::M, V> {
        assoc_view(self.entries@)
    }
}

impl<K: Key, V> AssocMap<K, V> {
    /// The keys are pairwise distinct.
    pub open spec fn wf(&self) -> bool {
        keys_distinct(self.entries@)
    }

    /// The entries in the order they are kept.
    pub open spec fn entries(&self) -> Seq<(K, V)> {
        self.entries@
    }

    /// An empty map.
    pub fn new() -> (r: Self)
        ensures
            r.wf(),
            r@ == Map::<K::M, V>::empty(),
    {
        let r = AssocMap { entries: Vec::new() };
        assert(r@ =~= Map::<K::M, V>::empty());
        r
    }

    /// Number of keys.
    pub fn len(&self) -> (r: usize)
        requires
            self.wf(),
        ensures
            r == self.entries@.len(),
    {
        self.entries.len()
    }

    /// The value stored under `k`.
    pub fn get(&self, k: &K) -> (r: Option<&V>)
        requires
            self.wf(),
        ensures
            match r {
                Some(v) => self@.contains_key(k.model()) && self@[k.model()] == *v,
                None => !self@.contains_key(k.model()),
            },
    {
        match find_key(&self.entries, k) {
            Some(i) => {
                proof {
                    lemma_lookup(self.entries@, i as int);
                }
                Some(&self.entries[i].1)
            },
            None => None,
        }
    }

    /// Stores `v` under `k`, replacing any previous value.
    pub fn insert(&mut self, k: K, v: V)
        requires
            old(self).wf(),
        ensures
            final(self).wf(),
            final(self)@ == old(self)@.insert(k.model(), v),
    {
        match find_key(&self.entries, &k) {
            Some(i) => {
                proof {
                    lemma_update(self.entries@, i as int, k, v);
                }
                self.entries.set(i, (k, v));
            },
            None => {
                proof {
                    lemma_push(self.entries@, k, v);
                }
                self.entries.push((k, v));
            },
        }
    }

    /// Removes the entry stored under `k`, returning its value.
    pub fn remove(&mut self, k: &K) -> (r: Option<V>)
        requires
            old(self).wf(),
        ensures
            final(self).wf(),
            final(self)@ == old(self)@.remove(k.model()),
            r is Some ==> final(self).entries@.len() == old(self).entries@.len() - 1,
            match r {
                Some(v) => old(self)@.contains_key(k.model()) && old(self)@[k.model()] == v,
                None => !old(self)@.contains_key(k.model()),
            },
    {
        match find_key(&self.entries, k) {
            Some(i) => {
                proof {
                    lemma_lookup(self.entries@, i as int);
                    lemma_remove(self.entries@, i as int);
                }
                let (_key, v) = self.entries.remove(i);
                Some(v)
            },
            None => {
                assert(old(self)@.remove(k.model()) =~= old(self)@);
                None
            },
        }
    }

    /// Removes every entry.
    pub fn clear(&mut self)
        ensures
            final(self).wf(),
            final(self)@ == Map::<K::M, V>::empty(),
    {
        self.entries.clear();
        assert(self@ =~= Map::<K::M, V>::empty());
    }

    /// The entries, in the order they are kept.
    pub fn as_slice(&self) -> (r: &[(K, V)])
        ensures
            r@ == self.entries@,
    {
        self.entries.as_slice()
    }
}

} // verus!

verus! {

/// Two entry lists with the same keys (in the model) position by position.
pub open spec fn same_keys<K: Key, V, W>(s: Seq<(K, V)>, t: Seq<(K, W)>) -> bool {
    s.len() == t.len() && forall|i: int| 0 <= i < s.len() ==> #[trigger] s[i].0.model() == t[i].0.model()
}

pub proof fn lemma_same_keys<K: Key, V, W>(s: Seq<(K, V)>, t: Seq<(K, W)>)
    requires
        keys_distinct(s),
        same_keys(s, t),
    ensures
        keys_distinct(t),
        assoc_view(s).dom() =~= assoc_view(t).dom(),
        forall|i: int| 0 <= i < t.len() ==> assoc_view(t).contains_key(#[trigger] t[i].0.model()) && assoc_view(t)[t[i].0.model()] == t[i].1,
        forall|k: K::M| #[trigger] assoc_view(t).contains_key(k) ==> exists|i: int| 0 <= i < t.len() && t[i].0.model() == k && assoc_view(s)[k] == s[i].1 && assoc_view(t)[k] == t[i].1,
{
    assert forall|i: int, j: int| 0 <= i < t.len() && 0 <= j < t.len() && i != j implies t[i].0.model() != t[j].0.model() by {
        assert(s[i].0.model() == t[i].0.model());
        assert(s[j].0.model() == t[j].0.model());
    }
    assert forall|k: K::M| assoc_view(s).dom().contains(k) == assoc_view(t).dom().contains(k) by {
        if has_key(s, k) {
            let i = choose|i: int| 0 <= i < s.len() && #[trigger] s[i].0.model() == k;
            assert(t[i].0.model() == k);
        }
        if has_key(t, k) {
            let i = choose|i: int| 0 <= i < t.len() && #[trigger] t[i].0.model() == k;
            assert(s[i].0.model() == k);
        }
    }
    assert forall|i: int| 0 <= i < t.len() implies assoc_view(t).contains_key(#[trigger] t[i].0.model()) && assoc_view(t)[t[i].0.model()] == t[i].1 by {
        lemma_lookup(t, i);
    }
    assert forall|k: K::M| #[trigger] assoc_view(t).contains_key(k) implies exists|i: int| 0 <= i < t.len() && t[i].0.model() == k && assoc_view(s)[k] == s[i].1 && assoc_view(t)[k] == t[i].1 by {
        let i = choose|i: int| 0 <= i < t.len() && #[trigger] t[i].0.model() == k;
        lemma_lookup(t, i);
        assert(s[i].0.model() == k);
        lemma_lookup(s, i);
    }
}

} // verus!
