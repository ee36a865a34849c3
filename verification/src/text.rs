//! Text utilities: building strings character by character and printing
//! integers in decimal.

use vstd::prelude::*;
use vstd::std_specs::iter::IteratorSpec;
use vstd::string::StringExecFns;

verus! {

/// Appends one character to a string.
///
/// Trusted: calls `String::push`, which the standard library documents as
/// appending the given `char` to the end of the `String`.
#[verifier::external_body]
pub fn push_char(s: &mut String, c: char)
    ensures
        final(s)@ == old(s)@.push(c),
{
    s.push(c);
}

/// Appends a string slice to a string.
pub fn push_str(s: &mut String, t: &str)
    ensures
        final(s)@ == old(s)@ + t@,
{
    s.append(t);
}

/// A new string holding the characters of `v`.
pub fn string_from_chars(v: &[char]) -> (r: String)
    ensures
        r@ == v@,
{
    let mut r = String::new();
    let mut i: usize = 0;
    while i < v.len()
        invariant
            i <= v@.len(),
            r@ == v@.subrange(0, i as int),
        decreases v.len() - i,
    {
        push_char(&mut r, v[i]);
        i = i + 1;
        assert(r@ =~= v@.subrange(0, i as int));
    }
    assert(v@.subrange(0, v@.len() as int) =~= v@);
    r
}

/// A new string holding the first `n` characters of `v`.
pub fn string_from_char_range(v: &[char], start: usize, end: usize) -> (r: String)
    requires
        start <= end <= v@.len(),
    ensures
        r@ == v@.subrange(start as int, end as int),
{
    let mut r = String::new();
    let mut i: usize = start;
    while i < end
        invariant
            start <= i <= end <= v@.len(),
            r@ == v@.subrange(start as int, i as int),
        decreases end - i,
    {
        push_char(&mut r, v[i]);
        i = i + 1;
        assert(r@ =~= v@.subrange(start as int, i as int));
    }
    r
}

/// The characters of `s`.
pub fn chars_of(s: &str) -> (r: Vec<char>)
    ensures
        r@ == s@,
{
    let mut r: Vec<char> = Vec::new();
    proof {
        vstd::string::axiom_spec_iter(s);
    }
    for c in iter: s.chars()
        invariant
            r@ == iter.seq().take(iter.index() as int),
    {
        r.push(c);
        assert(r@ =~= iter.seq().take(iter.index() as int + 1));
    }
    assert(r@ =~= s@);
    r
}

/// A copy of a string slice.
pub fn str_to_string(s: &str) -> (r: String)
    ensures
        r@ == s@,
{
    let mut r = String::new();
    push_str(&mut r, s);
    assert(r@ =~= s@);
    r
}

/// The decimal digit character for `d < 10`.
pub open spec fn digit_char(d: nat) -> char {
    if d == 0 { '0' }
    else if d == 1 { '1' }
    else if d == 2 { '2' }
    else if d == 3 { '3' }
    else if d == 4 { '4' }
    else if d == 5 { '5' }
    else if d == 6 { '6' }
    else if d == 7 { '7' }
    else if d == 8 { '8' }
    else { '9' }
}

/// Decimal digits of a natural number, most significant first, no leading zeros.
pub open spec fn nat_text(n: nat) -> Seq<char>
    decreases n,
{
    if n < 10 {
        seq![digit_char(n)]
    } else {
        nat_text(n / 10).push(digit_char(n % 10))
    }
}

/// Decimal text of an integer, with a leading `-` when negative.
pub open spec fn int_text(n: int) -> Seq<char> {
    if n < 0 {
        seq!['-'] + nat_text((-n) as nat)
    } else {
        nat_text(n as nat)
    }
}

fn digit(d: u64) -> (c: char)
    requires
        d < 10,
    ensures
        c == digit_char(d as nat),
{
    if d == 0 { '0' }
    else if d == 1 { '1' }
    else if d == 2 { '2' }
    else if d == 3 { '3' }
    else if d == 4 { '4' }
    else if d == 5 { '5' }
    else if d == 6 { '6' }
    else if d == 7 { '7' }
    else if d == 8 { '8' }
    else { '9' }
}

fn u64_chars(n: u64) -> (r: Vec<char>)
    ensures
        r@ == nat_text(n as nat),
    decreases n,
{
    if n < 10 {
        let mut r: Vec<char> = Vec::new();
        r.push(digit(n));
        assert(r@ =~= nat_text(n as nat));
        r
    } else {
        let mut r = u64_chars(n / 10);
        r.push(digit(n % 10));
        r
    }
}

fn u128_chars(n: u128) -> (r: Vec<char>)
    ensures
        r@ == nat_text(n as nat),
    decreases n,
{
    if n < 10 {
        let mut r: Vec<char> = Vec::new();
        r.push(digit((n % 10) as u64));
        assert(r@ =~= nat_text(n as nat));
        r
    } else {
        let mut r = u128_chars(n / 10);
        r.push(digit((n % 10) as u64));
        r
    }
}

/// Decimal text of a 128-bit unsigned number.
pub fn format_u128(n: u128) -> (r: String)
    ensures
        r@ == nat_text(n as nat),
{
    let v = u128_chars(n);
    string_from_chars(v.as_slice())
}

/// Decimal text of an unsigned number.
pub fn format_usize(n: usize) -> (r: String)
    ensures
        r@ == nat_text(n as nat),
{
    let v = u64_chars(n as u64);
    string_from_chars(v.as_slice())
}

/// Decimal text of a signed number (as Rust's `Display` prints it).
pub fn format_i64(n: i64) -> (r: String)
    ensures
        r@ == int_text(n as int),
{
    if n < 0 {
        let m: u64 = if n == i64::MIN { 9223372036854775808u64 } else { (-n) as u64 };
        let digits = u64_chars(m);
        let mut r = String::new();
        push_char(&mut r, '-');
        let tail = string_from_chars(digits.as_slice());
        push_str(&mut r, tail.as_str());
        assert(r@ =~= int_text(n as int));
        r
    } else {
        let digits = u64_chars(n as u64);
        string_from_chars(digits.as_slice())
    }
}

/// Whether two strings hold the same characters.
pub fn str_eq(a: &str, b: &str) -> (r: bool)
    ensures
        r == (a@ == b@),
{
    let x = chars_of(a);
    let y = chars_of(b);
    if x.len() != y.len() {
        return false;
    }
    let mut i: usize = 0;
    while i < x.len()
        invariant
            x@ == a@,
            y@ == b@,
            x@.len() == y@.len(),
            i <= x@.len(),
            forall|j: int| 0 <= j < i ==> x@[j] == y@[j],
        decreases x.len() - i,
    {
        if x[i] != y[i] {
            return false;
        }
        i = i + 1;
    }
    assert(x@ =~= y@);
    true
}

/// Number of characters of `s`.
pub fn char_count(s: &str) -> (r: usize)
    ensures
        r == s@.len(),
{
    chars_of(s).len()
}

/// The first `n` characters of `s`.
pub fn take_chars(s: &str, n: usize) -> (r: String)
    requires
        n <= s@.len(),
    ensures
        r@ == s@.take(n as int),
{
    let v = chars_of(s);
    string_from_char_range(v.as_slice(), 0, n)
}

/// `s` with `c` inserted before character `pos`.
pub fn insert_char_at(s: &str, pos: usize, c: char) -> (r: String)
    requires
        pos <= s@.len(),
    ensures
        r@ == s@.take(pos as int).push(c) + s@.skip(pos as int),
{
    let v = chars_of(s);
    let mut r = string_from_char_range(v.as_slice(), 0, pos);
    push_char(&mut r, c);
    let rest = string_from_char_range(v.as_slice(), pos, v.len());
    push_str(&mut r, rest.as_str());
    assert(v@.subrange(pos as int, v@.len() as int) =~= s@.skip(pos as int));
    r
}

/// `s` without its character at `pos`.
pub fn remove_char_at(s: &str, pos: usize) -> (r: String)
    requires
        pos < s@.len(),
    ensures
        r@ == s@.take(pos as int) + s@.skip(pos as int + 1),
{
    let v = chars_of(s);
    assert(v@.len() == s@.len());
    assert(pos < v.len());
    let mut r = string_from_char_range(v.as_slice(), 0, pos);
    let rest = string_from_char_range(v.as_slice(), pos + 1, v.len());
    push_str(&mut r, rest.as_str());
    assert(v@.subrange(pos as int + 1, v@.len() as int) =~= s@.skip(pos as int + 1));
    r
}

/// Whether `s` begins with `p`.
pub fn starts_with(s: &str, p: &str) -> (r: bool)
    ensures
        r == (p@.len() <= s@.len() && s@.take(p@.len() as int) == p@),
{
    let x = chars_of(s);
    let y = chars_of(p);
    if y.len() > x.len() {
        return false;
    }
    let mut i: usize = 0;
    while i < y.len()
        invariant
            x@ == s@,
            y@ == p@,
            y@.len() <= x@.len(),
            i <= y@.len(),
            forall|j: int| 0 <= j < i ==> x@[j] == y@[j],
        decreases y.len() - i,
    {
        if x[i] != y[i] {
            assert(s@.take(p@.len() as int)[i as int] != p@[i as int]);
            return false;
        }
        i = i + 1;
    }
    assert(s@.take(p@.len() as int) =~= p@);
    true
}

/// The characters of `s` after the first `n`.
pub fn skip_chars(s: &str, n: usize) -> (r: String)
    requires
        n <= s@.len(),
    ensures
        r@ == s@.skip(n as int),
{
    let v = chars_of(s);
    let r = string_from_char_range(v.as_slice(), n, v.len());
    assert(v@.subrange(n as int, v@.len() as int) =~= s@.skip(n as int));
    r
}

/// A string holding `s` then `t`.
pub fn concat(s: &str, t: &str) -> (r: String)
    ensures
        r@ == s@ + t@,
{
    let mut r = str_to_string(s);
    push_str(&mut r, t);
    r
}

} // verus!

verus! {

/// ASCII lower-casing of a character (other characters are unchanged).
pub open spec fn lower_char(c: char) -> char {
    if 'A' <= c && c <= 'Z' {
        ((c as u32) + 32) as char
    } else {
        c
    }
}

/// Lower-cases an ASCII upper-case letter; other characters are unchanged.
pub fn to_ascii_lowercase(c: char) -> (r: char)
    ensures
        r == lower_char(c),
{
    if 'A' <= c && c <= 'Z' {
        let x: u32 = c as u32;
        let b: u8 = (x + 32) as u8;
        assert(b as u32 == x + 32);
        b as char
    } else {
        c
    }
}

/// The value of an ASCII decimal digit.
pub fn digit_value(c: char) -> (r: Option<u32>)
    ensures
        ('0' <= c && c <= '9') ==> r == Some(((c as u32) - ('0' as u32)) as u32),
        !('0' <= c && c <= '9') ==> r is None,
{
    if '0' <= c && c <= '9' {
        Some((c as u32) - ('0' as u32))
    } else {
        None
    }
}

/// Whether Unicode counts `c` as an upper-case letter.
pub uninterp spec fn upper_case_char(c: char) -> bool;

/// The Unicode lower-case form of `s`.
pub uninterp spec fn lower_case_text(s: Seq<char>) -> Seq<char>;

/// Whether `c` is an upper-case letter.
///
/// Trusted: calls `char::is_uppercase`, which the standard library documents
/// as testing the Unicode `Uppercase` property of the character; the result
/// is named `upper_case_char`.
#[verifier::external_body]
pub fn is_uppercase_char(c: char) -> (r: bool)
    ensures
        r == upper_case_char(c),
{
    c.is_uppercase()
}

/// The lower-case form of `s`.
///
/// Trusted: calls `str::to_lowercase`, which the standard library documents
/// as returning the Unicode lower-case equivalent of the string slice; the
/// result is named `lower_case_text`.
#[verifier::external_body]
pub fn to_lowercase_text(s: &str) -> (r: String)
    ensures
        r@ == lower_case_text(s@),
{
    s.to_lowercase()
}

/// Whether `n` occurs in `h`.
pub open spec fn occurs_in(h: Seq<char>, n: Seq<char>) -> bool {
    exists|i: int| 0 <= i && i + n.len() <= h.len() && #[trigger] h.subrange(i, i + n.len()) == n
}

/// Whether `needle` occurs in `hay`.
pub fn contains_text(hay: &str, needle: &str) -> (r: bool)
    ensures
        r == occurs_in(hay@, needle@),
{
    let h = chars_of(hay);
    let n = chars_of(needle);
    let hl = h.len();
    let nl = n.len();
    assert(hl == hay@.len() && nl == needle@.len());
    if nl > hl {
        return false;
    }
    let last = hl - nl;
    let mut i: usize = 0;
    while i <= last
        invariant
            h@ == hay@,
            n@ == needle@,
            hl == h@.len(),
            nl == n@.len(),
            nl <= hl,
            last == hl - nl,
            i <= last + 1,
            forall|j: int| 0 <= j < i ==> #[trigger] h@.subrange(j, j + n@.len()) != n@,
        decreases last + 1 - i,
    {
        let mut k: usize = 0;
        let mut same = true;
        while k < nl && same
            invariant
                h@ == hay@,
                n@ == needle@,
                hl == h@.len(),
                nl == n@.len(),
                i <= last,
                last == hl - nl,
                k <= nl,
                same ==> forall|m: int| 0 <= m < k ==> h@[i + m] == n@[m],
                !same ==> h@.subrange(i as int, i + n@.len()) != n@,
            decreases nl - k + (if same { 1int } else { 0int }),
        {
            if h[i + k] != n[k] {
                assert(h@.subrange(i as int, i + n@.len())[k as int] != n@[k as int]);
                same = false;
            } else {
                k = k + 1;
            }
        }
        if same {
            assert(h@.subrange(i as int, i + n@.len()) =~= n@);
            return true;
        }
        if i == last {
            assert forall|j: int| 0 <= j && j + n@.len() <= h@.len() implies #[trigger] h@.subrange(j, j + n@.len()) != n@ by {
                assert(j <= i);
            }
            return false;
        }
        i = i + 1;
    }
    false
}

} // verus!
