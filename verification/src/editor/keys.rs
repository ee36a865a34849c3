//! Choosing a key that a mapping does not hold yet: `base`, else `base2`,
//! `base3`, and so on.

use vstd::prelude::*;
use crate::document::edit::key_position;
use crate::document::node::{entries_model, NodeModel, YamlNode};
use crate::editor::scalar::digits_value;
use crate::text::{digit_char, format_u128, nat_text, push_str, str_to_string};

verus! {

/// The `n`-th candidate key: `base` for the first, `base` followed by `n`
/// after that.
pub open spec fn key_candidate(base: Seq<char>, n: nat) -> Seq<char> {
    if n <= 1 {
        base
    } else {
        base + nat_text(n)
    }
}

/// The mapping holds key `k`.
pub open spec fn holds_key(e: Seq<(Seq<char>, NodeModel)>, k: Seq<char>) -> bool {
    key_position(e, k) is Some
}

/// The first candidate key that the mapping does not hold.
pub open spec fn unique_key(e: Seq<(Seq<char>, NodeModel)>, base: Seq<char>) -> Seq<char> {
    key_candidate(
        base,
        choose|n: nat|
            n >= 1 && !holds_key(e, key_candidate(base, n)) && forall|m: nat|
                1 <= m < n ==> holds_key(e, #[trigger] key_candidate(base, m)),
    )
}

proof fn lemma_digit_value(d: nat)
    requires
        d < 10,
    ensures
        ((digit_char(d) as u32) - ('0' as u32)) as nat == d,
{
}

proof fn lemma_nat_text_value(n: nat)
    ensures
        digits_value(nat_text(n)) == n,
        nat_text(n).len() > 0,
    decreases n,
{
    lemma_digit_value(n % 10);
    assert(digits_value(Seq::<char>::empty()) == 0);
    if n >= 10 {
        lemma_nat_text_value(n / 10);
        let s = nat_text(n / 10);
        let t = nat_text(n);
        assert(t == s.push(digit_char(n % 10)));
        assert(t.drop_last() =~= s);
        assert(t.last() == digit_char(n % 10));
        assert(digits_value(t) == digits_value(s) * 10 + n % 10);
        assert((n / 10) * 10 + n % 10 == n);
    } else {
        let t = nat_text(n);
        assert(t == seq![digit_char(n)]);
        assert(t.drop_last() =~= Seq::<char>::empty());
        assert(t.last() == digit_char(n));
        assert(n % 10 == n);
    }
}

proof fn lemma_candidates_distinct(base: Seq<char>, a: nat, b: nat)
    requires
        1 <= a < b,
    ensures
        key_candidate(base, a) != key_candidate(base, b),
{
    lemma_nat_text_value(b);
    assert(nat_text(b) =~= key_candidate(base, b).skip(base.len() as int));
    if a >= 2 {
        lemma_nat_text_value(a);
        assert(nat_text(a) =~= key_candidate(base, a).skip(base.len() as int));
    } else {
        assert(key_candidate(base, b).len() > key_candidate(base, a).len());
    }
}

proof fn lemma_candidate_seq_unique(base: Seq<char>, m: nat)
    ensures
        Seq::new(m, |i: int| key_candidate(base, (i + 1) as nat)).no_duplicates(),
{
    let cands = Seq::new(m, |i: int| key_candidate(base, (i + 1) as nat));
    assert forall|i: int, j: int| 0 <= i < cands.len() && 0 <= j < cands.len() && i != j implies cands[i] != cands[j] by {
        if i < j {
            lemma_candidates_distinct(base, (i + 1) as nat, (j + 1) as nat);
        } else {
            lemma_candidates_distinct(base, (j + 1) as nat, (i + 1) as nat);
        }
    }
}

proof fn lemma_held_keys_subset(e: Seq<(Seq<char>, NodeModel)>, base: Seq<char>, m: nat)
    requires
        forall|i: nat| 1 <= i <= m ==> holds_key(e, #[trigger] key_candidate(base, i)),
    ensures
        Seq::new(m, |i: int| key_candidate(base, (i + 1) as nat)).to_set().subset_of(
            Seq::new(e.len(), |i: int| e[i].0).to_set(),
        ),
{
    let cands = Seq::new(m, |i: int| key_candidate(base, (i + 1) as nat));
    let keys = Seq::new(e.len(), |i: int| e[i].0);
    assert forall|k: Seq<char>| cands.to_set().contains(k) implies keys.to_set().contains(k) by {
        assert(cands.contains(k));
        let i = choose|i: int| 0 <= i < cands.len() && cands[i] == k;
        assert(holds_key(e, key_candidate(base, (i + 1) as nat)));
        assert(key_position(e, k) is Some);
        assert(exists|j: int| 0 <= j < e.len() && #[trigger] e[j].0 == k);
        let j = choose|j: int| 0 <= j < e.len() && #[trigger] e[j].0 == k;
        assert(keys[j] == e[j].0);
        assert(keys.contains(k));
    }
}

/// Every one of the first `m` candidates being held means the mapping has
/// at least `m` entries.
proof fn lemma_candidates_bound(e: Seq<(Seq<char>, NodeModel)>, base: Seq<char>, m: nat)
    requires
        forall|i: nat| 1 <= i <= m ==> holds_key(e, #[trigger] key_candidate(base, i)),
    ensures
        m <= e.len(),
{
    let cands = Seq::new(m, |i: int| key_candidate(base, (i + 1) as nat));
    let keys = Seq::new(e.len(), |i: int| e[i].0);
    lemma_candidate_seq_unique(base, m);
    cands.unique_seq_to_set();
    keys.lemma_cardinality_of_set();
    vstd::seq_lib::seq_to_set_is_finite(keys);
    lemma_held_keys_subset(e, base, m);
    vstd::set_lib::lemma_len_subset(cands.to_set(), keys.to_set());
}

/// Whether the mapping holds key `k`.
fn has_key(e: &Vec<(String, YamlNode)>, k: &String) -> (r: bool)
    ensures
        r == holds_key(entries_model(e@), k@),
{
    crate::document::edit::find_entry(e, k).is_some()
}

/// The `n`-th candidate key.
fn candidate(base: &String, n: u128) -> (r: String)
    ensures
        r@ == key_candidate(base@, n as nat),
{
    if n <= 1 {
        base.clone()
    } else {
        let mut r = base.clone();
        let digits = format_u128(n);
        push_str(&mut r, digits.as_str());
        r
    }
}

/// The first of `base`, `base2`, `base3`, ... that the mapping does not
/// hold.
pub fn find_unique_key(e: &Vec<(String, YamlNode)>, base: &String) -> (r: String)
    ensures
        r@ == unique_key(entries_model(e@), base@),
        !holds_key(entries_model(e@), r@),
{
    let ghost em = entries_model(e@);
    let len = e.len();
    let mut counter: u128 = 1;
    let mut key = candidate(base, counter);
    while has_key(e, &key)
        invariant
            em == entries_model(e@),
            1 <= counter <= e@.len() + 1,
            len == e@.len(),
            key@ == key_candidate(base@, counter as nat),
            forall|m: nat| 1 <= m < counter ==> holds_key(em, #[trigger] key_candidate(base@, m)),
        decreases e@.len() + 1 - counter,
    {
        proof {
            assert forall|i: nat| 1 <= i <= counter implies holds_key(em, #[trigger] key_candidate(base@, i)) by {
                if i < counter {
                } else {
                    assert(key_candidate(base@, i) == key@);
                }
            }
            lemma_candidates_bound(em, base@, counter as nat);
        }
        counter = counter + 1;
        key = candidate(base, counter);
    }
    proof {
        let n = counter as nat;
        assert(n >= 1 && !holds_key(em, key_candidate(base@, n)) && forall|m: nat| 1 <= m < n ==> holds_key(em, #[trigger] key_candidate(base@, m)));
        let w = choose|n: nat|
            n >= 1 && !holds_key(em, key_candidate(base@, n)) && forall|m: nat|
                1 <= m < n ==> holds_key(em, #[trigger] key_candidate(base@, m));
        assert(w == n) by {
            if w < n {
                assert(holds_key(em, key_candidate(base@, w)));
            } else if w > n {
                assert(holds_key(em, key_candidate(base@, n)));
            }
        }
    }
    key
}

} // verus!
