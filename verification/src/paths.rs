//! Operations on node paths (a sequence of child indices from the root).

use vstd::prelude::*;

verus! {

/// Returns true when the two paths are equal.
pub fn paths_equal(a: &[usize], b: &[usize]) -> (r: bool)
    ensures
        r == (a@ == b@),
{
    if a.len() != b.len() {
        return false;
    }
    let mut i: usize = 0;
    while i < a.len()
        invariant
            a@.len() == b@.len(),
            i <= a@.len(),
            forall|j: int| 0 <= j < i ==> a@[j] == b@[j],
        decreases a.len() - i,
    {
        if a[i] != b[i] {
            return false;
        }
        i = i + 1;
    }
    assert(a@ =~= b@);
    true
}

/// Copies a path into a new vector.
pub fn path_to_vec(a: &[usize]) -> (r: Vec<usize>)
    ensures
        r@ == a@,
{
    let mut r: Vec<usize> = Vec::new();
    let mut i: usize = 0;
    while i < a.len()
        invariant
            i <= a@.len(),
            r@ == a@.subrange(0, i as int),
        decreases a.len() - i,
    {
        r.push(a[i]);
        i = i + 1;
        assert(r@ =~= a@.subrange(0, i as int));
    }
    assert(a@.subrange(0, a@.len() as int) =~= a@);
    r
}

/// The first `n` indices of a path.
pub fn path_prefix(a: &[usize], n: usize) -> (r: Vec<usize>)
    requires
        n <= a@.len(),
    ensures
        r@ == a@.subrange(0, n as int),
{
    let mut r: Vec<usize> = Vec::new();
    let mut i: usize = 0;
    while i < n
        invariant
            n <= a@.len(),
            i <= n,
            r@ == a@.subrange(0, i as int),
        decreases n - i,
    {
        r.push(a[i]);
        i = i + 1;
        assert(r@ =~= a@.subrange(0, i as int));
    }
    r
}

/// `p` followed by one more index.
pub fn path_child(p: &[usize], i: usize) -> (r: Vec<usize>)
    ensures
        r@ == p@.push(i),
{
    let mut r = path_to_vec(p);
    r.push(i);
    r
}

/// `prefix` is a prefix of `p`.
pub open spec fn is_prefix(prefix: Seq<usize>, p: Seq<usize>) -> bool {
    prefix.len() <= p.len() && p.subrange(0, prefix.len() as int) == prefix
}

/// Returns true when `prefix` is a prefix of `p`.
pub fn starts_with(p: &[usize], prefix: &[usize]) -> (r: bool)
    ensures
        r == is_prefix(prefix@, p@),
{
    if prefix.len() > p.len() {
        return false;
    }
    let mut i: usize = 0;
    while i < prefix.len()
        invariant
            prefix@.len() <= p@.len(),
            i <= prefix@.len(),
            forall|j: int| 0 <= j < i ==> p@[j] == prefix@[j],
        decreases prefix.len() - i,
    {
        if p[i] != prefix[i] {
            assert(p@.subrange(0, prefix@.len() as int)[i as int] != prefix@[i as int]);
            return false;
        }
        i = i + 1;
    }
    assert(p@.subrange(0, prefix@.len() as int) =~= prefix@);
    true
}

} // verus!
