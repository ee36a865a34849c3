//! Reading a scalar typed by the user: `true`, `false`, `null`, an integer,
//! a float, or else a string.

use vstd::prelude::*;
use crate::document::node::{ValueModel, YamlNumber, YamlString, YamlValue, StrStyle};
use crate::text::{chars_of, str_eq, str_to_string, string_from_char_range};

verus! {

/// Characters with the Unicode `White_Space` property (what `str::trim`
/// removes).
pub open spec fn is_white_space(c: char) -> bool {
    let v = c as u32;
    (0x09 <= v && v <= 0x0d) || v == 0x20 || v == 0x85 || v == 0xa0 || v == 0x1680 || (0x2000 <= v
        && v <= 0x200a) || v == 0x2028 || v == 0x2029 || v == 0x202f || v == 0x205f || v == 0x3000
}

/// `s` without leading white space.
pub open spec fn trim_start(s: Seq<char>) -> Seq<char>
    decreases s.len(),
{
    if s.len() > 0 && is_white_space(s[0]) {
        trim_start(s.drop_first())
    } else {
        s
    }
}

/// `s` without trailing white space.
pub open spec fn trim_end(s: Seq<char>) -> Seq<char>
    decreases s.len(),
{
    if s.len() > 0 && is_white_space(s.last()) {
        trim_end(s.drop_last())
    } else {
        s
    }
}

/// `s` without leading and trailing white space.
pub open spec fn trim(s: Seq<char>) -> Seq<char> {
    trim_end(trim_start(s))
}

/// An ASCII decimal digit.
pub open spec fn is_digit(c: char) -> bool {
    '0' <= c && c <= '9'
}

/// The value of a string of decimal digits.
pub open spec fn digits_value(d: Seq<char>) -> nat
    decreases d.len(),
{
    if d.len() == 0 {
        0
    } else {
        digits_value(d.drop_last()) * 10 + ((d.last() as u32) - ('0' as u32)) as nat
    }
}

/// The digits after an optional sign.
pub open spec fn unsigned_part(s: Seq<char>) -> Seq<char> {
    if s.len() > 0 && (s[0] == '-' || s[0] == '+') {
        s.drop_first()
    } else {
        s
    }
}

/// What `str::parse::<i64>` gives: an optional `+` or `-`, then at least
/// one decimal digit, the value fitting in an `i64`.
pub open spec fn parse_i64_spec(s: Seq<char>) -> Option<i64> {
    let d = unsigned_part(s);
    let neg = s.len() > 0 && s[0] == '-';
    let v: int = if neg { -(digits_value(d) as int) } else { digits_value(d) as int };
    if d.len() > 0 && (forall|i: int| 0 <= i < d.len() ==> is_digit(#[trigger] d[i])) && i64::MIN
        <= v <= i64::MAX {
        Some(v as i64)
    } else {
        None
    }
}

proof fn lemma_trim_start(s: Seq<char>, i: int)
    requires
        0 <= i <= s.len(),
        forall|k: int| 0 <= k < i ==> is_white_space(s[k]),
        i == s.len() || !is_white_space(s[i]),
    ensures
        trim_start(s) == s.skip(i),
    decreases i,
{
    if i > 0 {
        lemma_trim_start(s.drop_first(), i - 1);
        assert(s.drop_first().skip(i - 1) =~= s.skip(i));
    } else {
        assert(s.skip(0) =~= s);
    }
}

proof fn lemma_trim_end(s: Seq<char>, j: int)
    requires
        0 <= j <= s.len(),
        forall|k: int| j <= k < s.len() ==> is_white_space(s[k]),
        j == 0 || !is_white_space(s[j - 1]),
    ensures
        trim_end(s) == s.take(j),
    decreases s.len() - j,
{
    if j < s.len() {
        lemma_trim_end(s.drop_last(), j);
        assert(s.drop_last().take(j) =~= s.take(j));
    } else {
        assert(s.take(j) =~= s);
    }
}

/// `s` without leading and trailing white space.
pub fn trim_text(s: &str) -> (r: String)
    ensures
        r@ == trim(s@),
{
    let v = chars_of(s);
    let n = v.len();
    let mut i: usize = 0;
    while i < n && is_white_space_char(v[i])
        invariant
            i <= n,
            n == v@.len(),
            v@ == s@,
            forall|k: int| 0 <= k < i ==> is_white_space(v@[k]),
        decreases n - i,
    {
        i = i + 1;
    }
    let mut j: usize = n;
    while j > i && is_white_space_char(v[j - 1])
        invariant
            i <= j <= n,
            n == v@.len(),
            forall|k: int| j <= k < n ==> is_white_space(v@[k]),
        decreases j,
    {
        j = j - 1;
    }
    proof {
        lemma_trim_start(s@, i as int);
        let t = s@.skip(i as int);
        if j > i {
            assert(!is_white_space(t[j - i - 1]));
        }
        lemma_trim_end(t, j - i);
        assert(t.take(j - i) =~= v@.subrange(i as int, j as int));
    }
    string_from_char_range(v.as_slice(), i, j)
}

/// Whether `c` has the Unicode `White_Space` property.
pub fn is_white_space_char(c: char) -> (r: bool)
    ensures
        r == is_white_space(c),
{
    let v = c as u32;
    (0x09 <= v && v <= 0x0d) || v == 0x20 || v == 0x85 || v == 0xa0 || v == 0x1680 || (0x2000 <= v
        && v <= 0x200a) || v == 0x2028 || v == 0x2029 || v == 0x202f || v == 0x205f || v == 0x3000
}

proof fn lemma_digits_grow(d: Seq<char>, c: char)
    requires
        is_digit(c),
    ensures
        digits_value(d.push(c)) == digits_value(d) * 10 + ((c as u32) - ('0' as u32)),
        digits_value(d.push(c)) >= digits_value(d),
{
    assert(d.push(c).drop_last() =~= d);
}

/// Parses a decimal integer as `str::parse::<i64>` does (see
/// `parse_i64_spec`).
pub fn parse_i64(s: &str) -> (r: Option<i64>)
    ensures
        r == parse_i64_spec(s@),
{
    let v = chars_of(s);
    let n = v.len();
    let neg = n > 0 && v[0] == '-';
    let start: usize = if n > 0 && (v[0] == '-' || v[0] == '+') { 1 } else { 0 };
    let ghost d = unsigned_part(s@);
    assert(d =~= v@.skip(start as int));
    if start == n {
        return None;
    }
    // the magnitude, or `limit + 1` once it passes `limit`
    let limit: u64 = 9223372036854775808;
    let mut acc: u64 = 0;
    let mut i: usize = start;
    while i < n
        invariant
            start <= i <= n,
            n == v@.len(),
            d == v@.skip(start as int),
            d == unsigned_part(s@),
            v@ == s@,
            limit == 9223372036854775808u64,
            forall|k: int| start <= k < i ==> is_digit(v@[k]),
            acc <= limit + 1,
            acc <= limit ==> acc == digits_value(d.take(i - start)),
            acc > limit ==> digits_value(d.take(i - start)) > limit,
        decreases n - i,
    {
        let c = v[i];
        if !('0' <= c && c <= '9') {
            proof {
                assert(d[i - start] == c);
                assert(!is_digit(d[i - start]));
                assert(!(forall|k: int| 0 <= k < d.len() ==> is_digit(#[trigger] d[k])));
            }
            return None;
        }
        let ghost before = d.take(i - start);
        proof {
            assert(d.take(i - start + 1) =~= before.push(c));
            lemma_digits_grow(before, c);
        }
        if acc <= limit {
            let x: u64 = (c as u32 - '0' as u32) as u64;
            if acc > (limit - x) / 10 {
                acc = limit + 1;
            } else {
                acc = acc * 10 + x;
            }
        }
        i = i + 1;
    }
    proof {
        assert(d.take(n - start) =~= d);
        assert forall|k: int| 0 <= k < d.len() implies is_digit(#[trigger] d[k]) by {
            assert(d[k] == v@[start + k]);
        }
    }
    if acc > limit {
        None
    } else if neg {
        if acc == limit {
            Some(i64::MIN)
        } else {
            Some(-(acc as i64))
        }
    } else if acc == limit {
        None
    } else {
        Some(acc as i64)
    }
}

/// The value a typed scalar stands for (`float_text` is how the float that
/// the trimmed input parses as displays, if it parses as one): `true`,
/// `false` and `null` by name, then an integer, then a float, else the
/// input, untrimmed, as a plain string.
pub open spec fn scalar_value(input: Seq<char>, float_text: Option<Seq<char>>) -> ValueModel {
    let t = trim(input);
    if t == "true"@ {
        ValueModel::Bool(true)
    } else if t == "false"@ {
        ValueModel::Bool(false)
    } else if t == "null"@ {
        ValueModel::Null
    } else if parse_i64_spec(t) is Some {
        ValueModel::Int(parse_i64_spec(t)->0)
    } else if float_text is Some {
        ValueModel::Float(float_text->0)
    } else {
        ValueModel::Str(StrStyle::Plain, input)
    }
}

/// Reads a typed scalar (see `scalar_value`); `float_text` is the display
/// text of the float that the trimmed input parses as, if any.
pub fn parse_scalar_value(input: &str, float_text: Option<String>) -> (r: YamlValue)
    ensures
        r@ == scalar_value(
            input@,
            match float_text {
                Some(f) => Some(f@),
                None => None,
            },
        ),
{
    let trimmed = trim_text(input);
    let t = trimmed.as_str();
    if str_eq(t, "true") {
        return YamlValue::Boolean(true);
    }
    if str_eq(t, "false") {
        return YamlValue::Boolean(false);
    }
    if str_eq(t, "null") {
        return YamlValue::Null;
    }
    match parse_i64(t) {
        Some(n) => YamlValue::Number(YamlNumber::Integer(n)),
        None => match float_text {
            Some(f) => YamlValue::Number(YamlNumber::Float(f)),
            None => YamlValue::String(YamlString::Plain(str_to_string(input))),
        },
    }
}

/// `parse_scalar_value`, under the name the tests use.
pub fn parse_scalar_value_for_test(input: &str, float_text: Option<String>) -> (r: YamlValue)
    ensures
        r@ == scalar_value(
            input@,
            match float_text {
                Some(f) => Some(f@),
                None => None,
            },
        ),
{
    parse_scalar_value(input, float_text)
}

} // verus!
