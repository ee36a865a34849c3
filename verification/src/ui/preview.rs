//! One-line previews of YAML values, as shown beside keys in the tree view.
//!
//! Lengths that decide truncation are UTF-8 byte lengths (`byte_len`), the
//! length Rust's `str::len` reports.

use vstd::prelude::*;
use vstd::utf8::encode_utf8;
use crate::document::node::{
    lemma_node_value_view, reveal_views, NodeModel, ValueModel, YamlNode, YamlNumber, YamlString,
    YamlValue, StrStyle,
};
use crate::text::{
    chars_of, format_i64, format_usize, int_text, nat_text, push_char, push_str,
    str_to_string, string_from_char_range,
};

verus! {

broadcast use vstd::std_specs::vec::group_vec_axioms;

/// Number of bytes of the UTF-8 encoding of `s`.
pub open spec fn byte_len(s: Seq<char>) -> nat {
    encode_utf8(s).len()
}

/// `s` between double quotes.
pub open spec fn quoted(s: Seq<char>) -> Seq<char> {
    seq!['"'] + s + seq!['"']
}

/// The text of a boolean.
pub open spec fn bool_text(b: bool) -> Seq<char> {
    if b { "true"@ } else { "false"@ }
}

/// At most the first ten characters of `s`.
pub open spec fn first_ten(s: Seq<char>) -> Seq<char> {
    if s.len() <= 10 { s } else { s.take(10) }
}

/// Index of the first line feed in `s` (its length when there is none).
pub open spec fn first_newline(s: Seq<char>) -> nat
    decreases s.len(),
{
    if s.len() == 0 {
        0
    } else if s[0] == '\n' {
        0
    } else {
        1 + first_newline(s.drop_first())
    }
}

/// The first line of `s` as `str::lines` yields it: the text before the
/// first line feed, without a carriage return just before it (empty for an
/// empty string).
pub open spec fn first_line(s: Seq<char>) -> Seq<char> {
    let j = first_newline(s);
    if j < s.len() && j > 0 && s[j - 1] == '\r' {
        s.take(j - 1)
    } else {
        s.take(j as int)
    }
}

/// `str::lines` yields more than one line: some text follows the first
/// line feed.
pub open spec fn has_more_lines(s: Seq<char>) -> bool {
    first_newline(s) + 1 < s.len()
}

/// Preview of a string scalar: quoted when plain; the first line after `|`
/// or `>` for block scalars, with `...` when more lines follow.
pub open spec fn string_preview(style: StrStyle, t: Seq<char>) -> Seq<char> {
    match style {
        StrStyle::Plain => quoted(t),
        StrStyle::Literal => "| "@ + first_line(t) + (if has_more_lines(t) { "..."@ } else { Seq::empty() }),
        StrStyle::Folded => "> "@ + first_line(t) + (if has_more_lines(t) { "..."@ } else { Seq::empty() }),
    }
}

/// Preview of a scalar; containers show their size.
pub open spec fn value_preview(v: ValueModel) -> Seq<char> {
    match v {
        ValueModel::Object(e) => "{ "@ + nat_text(e.len()) + " fields }"@,
        ValueModel::Array(a) => "[ "@ + nat_text(a.len()) + " items ]"@,
        ValueModel::MultiDoc(a) => "[ "@ + nat_text(a.len()) + " items ]"@,
        ValueModel::Str(st, t) => string_preview(st, t),
        ValueModel::Int(i) => int_text(i as int),
        ValueModel::Float(f) => f,
        ValueModel::Bool(b) => bool_text(b),
        ValueModel::Null => "null"@,
        ValueModel::Alias(a) => "*"@ + a,
    }
}

/// How a child value appears inside a collapsed preview, when the preview
/// so far takes `cur_len` bytes: containers are elided, and a string that
/// would pass `max` bytes is cut to its first ten characters.
pub open spec fn inline_value(v: ValueModel, cur_len: nat, max: nat) -> Seq<char> {
    match v {
        ValueModel::Object(_) => "{…}"@,
        ValueModel::Array(_) => "[…]"@,
        ValueModel::MultiDoc(_) => "[…]"@,
        ValueModel::Str(_, t) => if cur_len + byte_len(quoted(t)) > max {
            "\""@ + first_ten(t) + "...\""@
        } else {
            quoted(t)
        },
        ValueModel::Int(i) => int_text(i as int),
        ValueModel::Float(f) => f,
        ValueModel::Bool(b) => bool_text(b),
        ValueModel::Null => "null"@,
        ValueModel::Alias(a) => "*"@ + a,
    }
}

/// The rest of a collapsed mapping preview from entry `i` on, after `acc`:
/// each entry as `key: value`, separated by `, `; when the next key would
/// not leave ten bytes below `max`, `...` ends the preview, else `}` does.
pub open spec fn object_preview_from(
    e: Seq<(Seq<char>, NodeModel)>,
    i: nat,
    acc: Seq<char>,
    max: nat,
) -> Seq<char>
    decreases e.len() - i,
{
    if i >= e.len() {
        acc.push('}')
    } else if byte_len(acc) + byte_len(e[i as int].0) + 10 > max {
        acc + "..."@
    } else {
        let pre = acc + e[i as int].0 + ": "@;
        let with_value = pre + inline_value(e[i as int].1.value, byte_len(pre), max);
        let next = if i + 1 < e.len() { with_value + ", "@ } else { with_value };
        object_preview_from(e, i + 1, next, max)
    }
}

/// The rest of a collapsed sequence preview from element `i` on, after
/// `acc`, in the manner of `object_preview_from`, closed by `]`.
pub open spec fn array_preview_from(v: Seq<NodeModel>, i: nat, acc: Seq<char>, max: nat) -> Seq<char>
    decreases v.len() - i,
{
    if i >= v.len() {
        acc.push(']')
    } else if byte_len(acc) + 10 > max {
        acc + "..."@
    } else {
        let with_value = acc + inline_value(v[i as int].value, byte_len(acc), max);
        let next = if i + 1 < v.len() { with_value + ", "@ } else { with_value };
        array_preview_from(v, i + 1, next, max)
    }
}

/// Collapsed preview of a sequence: `(N) [a, b, ...]`, or `[…]` when empty.
pub open spec fn collapsed_array(v: Seq<NodeModel>, max: nat) -> Seq<char> {
    if v.len() == 0 {
        "[…]"@
    } else {
        array_preview_from(v, 0, "("@ + nat_text(v.len()) + ") ["@, max)
    }
}

/// Collapsed preview of a node (`jless` style): `(N) {k: v, ...}` for a
/// mapping, `(N) [a, b, ...]` for a sequence, the scalar preview otherwise.
pub open spec fn collapsed_preview(n: NodeModel, max: nat) -> Seq<char> {
    match n.value {
        ValueModel::Object(e) => if e.len() == 0 {
            "{…}"@
        } else {
            object_preview_from(e, 0, "("@ + nat_text(e.len()) + ") {"@, max)
        },
        ValueModel::Array(v) => collapsed_array(v, max),
        ValueModel::MultiDoc(v) => collapsed_array(v, max),
        ValueModel::Float(f) => f,
        ValueModel::Int(i) => int_text(i as int),
        ValueModel::Str(st, t) => string_preview(st, t),
        ValueModel::Bool(b) => bool_text(b),
        ValueModel::Null => "null"@,
        ValueModel::Alias(a) => "*"@ + a,
    }
}

/// Whether `a + b + c > max`, without overflow.
fn sum_exceeds(a: usize, b: usize, c: usize, max: usize) -> (r: bool)
    ensures
        r == (a + b + c > max),
{
    match a.checked_add(b) {
        None => true,
        Some(s) => match s.checked_add(c) {
            None => true,
            Some(t) => t > max,
        },
    }
}

/// The UTF-8 byte length of a string.
///
/// Trusted: calls `str::len`, which the standard library documents as the
/// length of the string in bytes; a `str` holds the UTF-8 encoding of its
/// characters, so that length is `byte_len` of them. vstd states `str::len`
/// as that length cast to `usize` and leaves out that it always fits, since
/// the bytes are in memory; this wrapper states the length exactly.
#[verifier::external_body]
pub fn str_byte_len(s: &str) -> (r: usize)
    ensures
        r == byte_len(s@),
{
    s.len()
}

/// The text of a boolean.
pub fn format_bool(b: bool) -> (r: String)
    ensures
        r@ == bool_text(b),
{
    if b { str_to_string("true") } else { str_to_string("false") }
}

/// `s` between double quotes.
pub fn quote(s: &str) -> (r: String)
    ensures
        r@ == quoted(s@),
{
    let mut r = String::new();
    push_char(&mut r, '"');
    push_str(&mut r, s);
    push_char(&mut r, '"');
    assert(r@ =~= quoted(s@));
    r
}

proof fn lemma_first_newline(s: Seq<char>, j: int)
    requires
        0 <= j <= s.len(),
        forall|k: int| 0 <= k < j ==> s[k] != '\n',
        j == s.len() || s[j] == '\n',
    ensures
        first_newline(s) == j,
    decreases s.len(),
{
    if s.len() > 0 && j > 0 {
        lemma_first_newline(s.drop_first(), j - 1);
    }
}

/// The first line of `s` (as `str::lines` gives it) and whether more lines
/// follow.
pub fn split_first_line(s: &str) -> (r: (String, bool))
    ensures
        r.0@ == first_line(s@),
        r.1 == has_more_lines(s@),
{
    let v = chars_of(s);
    let n = v.len();
    let mut j: usize = 0;
    while j < n && v[j] != '\n'
        invariant
            j <= n,
            n == v@.len(),
            forall|k: int| 0 <= k < j ==> v@[k] != '\n',
        decreases n - j,
    {
        j = j + 1;
    }
    proof {
        lemma_first_newline(s@, j as int);
    }
    let end = if j < n && j > 0 && v[j - 1] == '\r' { j - 1 } else { j };
    let line = string_from_char_range(v.as_slice(), 0, end);
    assert(line@ =~= first_line(s@));
    (line, j < n && j + 1 < n)
}

/// Preview of a string scalar (see `string_preview`).
pub fn format_yaml_string_preview(s: &YamlString) -> (r: String)
    ensures
        r@ == string_preview(s.style(), s.text()),
{
    match s {
        YamlString::Plain(content) => quote(content.as_str()),
        YamlString::Literal(content) => {
            let (line, more) = split_first_line(content.as_str());
            let mut r = str_to_string("| ");
            push_str(&mut r, line.as_str());
            if more {
                push_str(&mut r, "...");
            }
            assert(r@ =~= string_preview(s.style(), s.text()));
            r
        },
        YamlString::Folded(content) => {
            let (line, more) = split_first_line(content.as_str());
            let mut r = str_to_string("> ");
            push_str(&mut r, line.as_str());
            if more {
                push_str(&mut r, "...");
            }
            assert(r@ =~= string_preview(s.style(), s.text()));
            r
        },
    }
}

/// The text of a number: an integer in decimal, a float as it is held.
pub fn format_number_yaml(n: &YamlNumber) -> (r: String)
    ensures
        r@ == (match n {
            YamlNumber::Integer(i) => int_text(*i as int),
            YamlNumber::Float(f) => f@,
        }),
{
    match n {
        YamlNumber::Integer(i) => format_i64(*i),
        YamlNumber::Float(f) => f.clone(),
    }
}

/// `*name`.
fn alias_text(name: &str) -> (r: String)
    ensures
        r@ == "*"@ + name@,
{
    let mut r = str_to_string("*");
    push_str(&mut r, name);
    r
}

/// Preview of a value: containers show their size, scalars their text.
pub fn value_preview_text(value: &YamlValue) -> (r: String)
    ensures
        r@ == value_preview(value@),
{
    proof {
        reveal_views(value);
    }
    match value {
        YamlValue::Object(entries) => {
            let mut r = str_to_string("{ ");
            let c = format_usize(entries.len());
            push_str(&mut r, c.as_str());
            push_str(&mut r, " fields }");
            r
        },
        YamlValue::Array(elements) | YamlValue::MultiDoc(elements) => {
            let mut r = str_to_string("[ ");
            let c = format_usize(elements.len());
            push_str(&mut r, c.as_str());
            push_str(&mut r, " items ]");
            r
        },
        YamlValue::String(s) => format_yaml_string_preview(s),
        YamlValue::Number(n) => format_number_yaml(n),
        YamlValue::Boolean(b) => format_bool(*b),
        YamlValue::Null => str_to_string("null"),
        YamlValue::Alias(name) => alias_text(name.as_str()),
    }
}

/// A child value as it appears inside a collapsed preview (see
/// `inline_value`).
fn inline_value_text(value: &YamlValue, cur_len: usize, max_chars: usize) -> (r: String)
    ensures
        r@ == inline_value(value@, cur_len as nat, max_chars as nat),
{
    match value {
        YamlValue::Object(_) => str_to_string("{…}"),
        YamlValue::Array(_) | YamlValue::MultiDoc(_) => str_to_string("[…]"),
        YamlValue::String(s) => {
            let s_str = s.as_str();
            let q = quote(s_str);
            let qlen = str_byte_len(q.as_str());
            if sum_exceeds(cur_len, qlen, 0, max_chars) {
                let v = chars_of(s_str);
                let take = if v.len() <= 10 { v.len() } else { 10 };
                let head = string_from_char_range(v.as_slice(), 0, take);
                let mut r = str_to_string("\"");
                push_str(&mut r, head.as_str());
                push_str(&mut r, "...\"");
                assert(head@ =~= first_ten(s.text()));
                r
            } else {
                q
            }
        },
        YamlValue::Number(n) => format_number_yaml(n),
        YamlValue::Boolean(b) => format_bool(*b),
        YamlValue::Null => str_to_string("null"),
        YamlValue::Alias(name) => alias_text(name.as_str()),
    }
}

fn format_collapsed_object(fields: &Vec<(String, YamlNode)>, max_chars: usize) -> (r: String)
    requires
        fields@.len() > 0,
    ensures
        r@ == object_preview_from(
            YamlValue::Object(*fields)@->Object_0,
            0,
            "("@ + nat_text(fields@.len()) + ") {"@,
            max_chars as nat,
        ),
{
    let ghost e = YamlValue::Object(*fields)@->Object_0;
    proof {
        crate::document::node::lemma_object_view(*fields);
    }
    let mut preview = str_to_string("(");
    let c = format_usize(fields.len());
    push_str(&mut preview, c.as_str());
    push_str(&mut preview, ") {");
    let ghost init = preview@;
    assert(init =~= "("@ + nat_text(fields@.len()) + ") {"@);
    let n = fields.len();
    let mut i: usize = 0;
    while i < n
        invariant
            n == fields@.len(),
            e.len() == n,
            e == crate::document::node::entries_model(fields@),
            e == YamlValue::Object(*fields)@->Object_0,
            init == "("@ + nat_text(fields@.len()) + ") {"@,
            i <= n,
            object_preview_from(e, i as nat, preview@, max_chars as nat)
                == object_preview_from(e, 0, init, max_chars as nat),
        decreases n - i,
    {
        let key = &fields[i].0;
        let node = &fields[i].1;
        let plen = str_byte_len(preview.as_str());
        let klen = str_byte_len(key.as_str());
        if sum_exceeds(plen, klen, 10, max_chars) {
            let ghost p0 = preview@;
            assert(e[i as int].0 == key@);
            assert(object_preview_from(e, i as nat, p0, max_chars as nat) == p0 + "..."@);
            push_str(&mut preview, "...");
            return preview;
        }
        let ghost before = preview@;
        push_str(&mut preview, key.as_str());
        push_str(&mut preview, ": ");
        let ghost pre = preview@;
        assert(pre =~= before + e[i as int].0 + ": "@);
        let cur = str_byte_len(preview.as_str());
        proof {
            lemma_node_value_view(*node);
        }
        let value_str = inline_value_text(node.value(), cur, max_chars);
        push_str(&mut preview, value_str.as_str());
        if i < n - 1 {
            push_str(&mut preview, ", ");
        }
        i = i + 1;
    }
    push_char(&mut preview, '}');
    preview
}

fn format_collapsed_array(elements: &Vec<YamlNode>, max_chars: usize) -> (r: String)
    requires
        elements@.len() > 0,
    ensures
        r@ == array_preview_from(
            crate::document::node::nodes_model(elements@),
            0,
            "("@ + nat_text(elements@.len()) + ") ["@,
            max_chars as nat,
        ),
{
    let ghost v = crate::document::node::nodes_model(elements@);
    let mut preview = str_to_string("(");
    let c = format_usize(elements.len());
    push_str(&mut preview, c.as_str());
    push_str(&mut preview, ") [");
    let ghost init = preview@;
    assert(init =~= "("@ + nat_text(elements@.len()) + ") ["@);
    let n = elements.len();
    let mut i: usize = 0;
    while i < n
        invariant
            n == elements@.len(),
            v.len() == n,
            v == crate::document::node::nodes_model(elements@),
            init == "("@ + nat_text(elements@.len()) + ") ["@,
            i <= n,
            array_preview_from(v, i as nat, preview@, max_chars as nat)
                == array_preview_from(v, 0, init, max_chars as nat),
        decreases n - i,
    {
        let node = &elements[i];
        let plen = str_byte_len(preview.as_str());
        if sum_exceeds(plen, 10, 0, max_chars) {
            let ghost p0 = preview@;
            assert(array_preview_from(v, i as nat, p0, max_chars as nat) == p0 + "..."@);
            push_str(&mut preview, "...");
            return preview;
        }
        proof {
            lemma_node_value_view(*node);
        }
        let value_str = inline_value_text(node.value(), plen, max_chars);
        push_str(&mut preview, value_str.as_str());
        if i < n - 1 {
            push_str(&mut preview, ", ");
        }
        i = i + 1;
    }
    push_char(&mut preview, ']');
    preview
}

/// Formats a collapsed preview of a node (see `collapsed_preview`):
/// truncated with `...` when it would pass `max_chars` bytes.
pub fn format_collapsed_preview(node: &YamlNode, max_chars: usize) -> (r: String)
    ensures
        r@ == collapsed_preview(node@, max_chars as nat),
{
    proof {
        lemma_node_value_view(*node);
        reveal_views(&node.value);
    }
    match node.value() {
        YamlValue::Object(fields) => {
            if fields.len() == 0 {
                str_to_string("{…}")
            } else {
                format_collapsed_object(fields, max_chars)
            }
        },
        YamlValue::Array(elements) | YamlValue::MultiDoc(elements) => {
            if elements.len() == 0 {
                str_to_string("[…]")
            } else {
                format_collapsed_array(elements, max_chars)
            }
        },
        YamlValue::String(s) => format_yaml_string_preview(s),
        YamlValue::Number(n) => format_number_yaml(n),
        YamlValue::Boolean(b) => format_bool(*b),
        YamlValue::Null => str_to_string("null"),
        YamlValue::Alias(name) => alias_text(name.as_str()),
    }
}

} // verus!
