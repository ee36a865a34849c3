//! Serialising a document tree to text.
//!
//! Three layouts are offered: the default one (`serialize_node`), which puts
//! a container of scalars on one line when that line takes at most 80 bytes
//! and otherwise writes one child per line; a jq-like one that always
//! writes one child per line; and a compact single-line one used for the
//! documents of a multi-document file. Strings are written quoted, with
//! `\`, `"` and control characters escaped.

use vstd::prelude::*;
use crate::document::node::{
    lemma_node_value_view, reveal_views, NodeModel, ValueModel, YamlNode, YamlNumber, YamlValue,
};
use crate::text::{chars_of, format_i64, int_text, push_char, push_str, str_to_string};
use crate::ui::preview::{bool_text, byte_len, format_bool, str_byte_len};
use vstd::string::StringSliceAdditionalSpecFns;
use vstd::utf8::{decode_utf8, encode_utf8, is_char_boundary, valid_utf8};

verus! {

broadcast use vstd::std_specs::vec::group_vec_axioms;

/// Widest compact line, in bytes.
pub const COMPACT_LIMIT: usize = 80;

/// `n` spaces.
pub open spec fn spaces(n: nat) -> Seq<char> {
    Seq::new(n, |i: int| ' ')
}

/// A lower-case hexadecimal digit.
pub open spec fn hex_digit(d: nat) -> char {
    if d < 10 {
        crate::text::digit_char(d)
    } else if d == 10 {
        'a'
    } else if d == 11 {
        'b'
    } else if d == 12 {
        'c'
    } else if d == 13 {
        'd'
    } else if d == 14 {
        'e'
    } else {
        'f'
    }
}

/// Characters of general category Cc (control codes).
pub open spec fn is_control(c: char) -> bool {
    (c as u32) < 0x20 || (0x7f <= (c as u32) && (c as u32) <= 0x9f)
}

/// How one character is written inside a quoted string.
pub open spec fn escape_char(c: char) -> Seq<char> {
    if c == '\\' {
        seq!['\\', '\\']
    } else if c == '"' {
        seq!['\\', '"']
    } else if c == '\n' {
        seq!['\\', 'n']
    } else if c == '\r' {
        seq!['\\', 'r']
    } else if c == '\t' {
        seq!['\\', 't']
    } else if c == '\x08' {
        seq!['\\', 'b']
    } else if c == '\x0C' {
        seq!['\\', 'f']
    } else if is_control(c) {
        let v = c as u32 as nat;
        seq![
            '\\',
            'u',
            hex_digit((v / 4096) % 16),
            hex_digit((v / 256) % 16),
            hex_digit((v / 16) % 16),
            hex_digit(v % 16),
        ]
    } else {
        seq![c]
    }
}

/// `s` with every character escaped.
pub open spec fn escaped(s: Seq<char>) -> Seq<char>
    decreases s.len(),
{
    if s.len() == 0 {
        Seq::empty()
    } else {
        escaped(s.drop_last()) + escape_char(s.last())
    }
}

/// `s` escaped, between double quotes.
pub open spec fn quoted_escaped(s: Seq<char>) -> Seq<char> {
    "\""@ + escaped(s) + "\""@
}

/// The text of a scalar (an alias as `*name`; nothing for a container).
pub open spec fn scalar_text(v: ValueModel) -> Seq<char> {
    match v {
        ValueModel::Str(_, t) => quoted_escaped(t),
        ValueModel::Int(i) => int_text(i as int),
        ValueModel::Float(f) => f,
        ValueModel::Bool(b) => bool_text(b),
        ValueModel::Null => "null"@,
        ValueModel::Alias(a) => "*"@ + a,
        _ => Seq::empty(),
    }
}

/// No value of the mapping is a container.
pub open spec fn scalar_entries(e: Seq<(Seq<char>, NodeModel)>) -> bool {
    forall|i: int| 0 <= i < e.len() ==> !(#[trigger] e[i].1).value.is_container()
}

/// No element of the sequence is a container.
pub open spec fn scalar_elements(v: Seq<NodeModel>) -> bool {
    forall|i: int| 0 <= i < v.len() ==> !(#[trigger] v[i]).value.is_container()
}

/// Entries `i..` of a mapping of scalars on one line: `"k": v`, joined by
/// `, `.
pub open spec fn compact_entries(e: Seq<(Seq<char>, NodeModel)>, i: nat) -> Seq<char>
    decreases e.len() - i,
{
    if i >= e.len() {
        Seq::empty()
    } else {
        quoted_escaped(e[i as int].0) + ": "@ + scalar_text(e[i as int].1.value) + (if i + 1
            < e.len() {
            ", "@
        } else {
            Seq::empty()
        }) + compact_entries(e, i + 1)
    }
}

/// Elements `i..` of a sequence of scalars on one line, joined by `, `.
pub open spec fn compact_elements(v: Seq<NodeModel>, i: nat) -> Seq<char>
    decreases v.len() - i,
{
    if i >= v.len() {
        Seq::empty()
    } else {
        scalar_text(v[i as int].value) + (if i + 1 < v.len() {
            ", "@
        } else {
            Seq::empty()
        }) + compact_elements(v, i + 1)
    }
}

/// Every node of `n` fits its indentation: at depth `d` (relative to the
/// node serialised first) the next level's indentation `k * (d + 1)` fits
/// in a `usize`.
pub open spec fn indent_fits(n: NodeModel, k: nat, d: nat) -> bool
    decreases n,
{
    &&& k * (d + 1) <= usize::MAX
    &&& d + 1 <= usize::MAX
    &&& match n.value {
        ValueModel::Object(e) => forall|i: int| 0 <= i < e.len() ==> indent_fits(#[trigger] e[i].1, k, d + 1),
        ValueModel::Array(v) => forall|i: int| 0 <= i < v.len() ==> indent_fits(#[trigger] v[i], k, d + 1),
        ValueModel::MultiDoc(v) => forall|i: int| 0 <= i < v.len() ==> indent_fits(#[trigger] v[i], k, d + 1),
        _ => true,
    }
}

/// Text of `n` in the default layout, with `k` spaces per level, `n` at
/// depth `d`.
pub open spec fn serialized(n: NodeModel, k: nat, d: nat, jq: bool) -> Seq<char>
    decreases n, n.value.child_count() + 1,
{
    match n.value {
        ValueModel::Object(e) => if e.len() == 0 {
            "{}"@
        } else if !jq && scalar_entries(e) && byte_len(
            "{"@ + compact_entries(e, 0) + "}"@,
        ) <= COMPACT_LIMIT {
            "{"@ + compact_entries(e, 0) + "}"@
        } else {
            "{\n"@ + block_children(n, k, d, jq, 0) + spaces(k * d) + "}"@
        },
        ValueModel::Array(v) => if v.len() == 0 {
            "[]"@
        } else if !jq && scalar_elements(v) && byte_len(
            "["@ + compact_elements(v, 0) + "]"@,
        ) <= COMPACT_LIMIT {
            "["@ + compact_elements(v, 0) + "]"@
        } else {
            "[\n"@ + block_children(n, k, d, jq, 0) + spaces(k * d) + "]"@
        },
        ValueModel::MultiDoc(v) => if v.len() == 0 {
            "[]"@
        } else if !jq && scalar_elements(v) && byte_len(
            "["@ + compact_elements(v, 0) + "]"@,
        ) <= COMPACT_LIMIT {
            "["@ + compact_elements(v, 0) + "]"@
        } else {
            "[\n"@ + block_children(n, k, d, jq, 0) + spaces(k * d) + "]"@
        },
        _ => scalar_text(n.value),
    }
}

/// Children `i..` of `n`, one per line, indented one level deeper than `n`:
/// `"key": value` for a mapping, the value alone for a sequence, each but
/// the last followed by `,`.
pub open spec fn block_children(n: NodeModel, k: nat, d: nat, jq: bool, i: nat) -> Seq<char>
    decreases n, n.value.child_count() - i,
{
    if i >= n.value.child_count() {
        Seq::empty()
    } else {
        let sep = if i + 1 < n.value.child_count() { ","@ } else { Seq::empty() };
        let rest = block_children(n, k, d, jq, i + 1);
        match n.value {
            ValueModel::Object(e) => spaces(k * (d + 1)) + quoted_escaped(e[i as int].0) + ": "@
                + serialized(e[i as int].1, k, d + 1, jq) + sep + "\n"@ + rest,
            ValueModel::Array(v) => spaces(k * (d + 1)) + serialized(v[i as int], k, d + 1, jq)
                + sep + "\n"@ + rest,
            ValueModel::MultiDoc(v) => spaces(k * (d + 1)) + serialized(v[i as int], k, d + 1, jq)
                + sep + "\n"@ + rest,
            _ => rest,
        }
    }
}

/// Text of `n` on a single line: `{"k":v,...}`, `[a,...]`, scalars as
/// `scalar_text`.
pub open spec fn compact(n: NodeModel) -> Seq<char>
    decreases n, n.value.child_count() + 1,
{
    match n.value {
        ValueModel::Object(e) => if e.len() == 0 {
            "{}"@
        } else {
            "{"@ + compact_children(n, 0) + "}"@
        },
        ValueModel::Array(v) => if v.len() == 0 {
            "[]"@
        } else {
            "["@ + compact_children(n, 0) + "]"@
        },
        ValueModel::MultiDoc(v) => if v.len() == 0 {
            "[]"@
        } else {
            "["@ + compact_children(n, 0) + "]"@
        },
        _ => scalar_text(n.value),
    }
}

/// Children `i..` of `n` on one line, joined by `,`.
pub open spec fn compact_children(n: NodeModel, i: nat) -> Seq<char>
    decreases n, n.value.child_count() - i,
{
    if i >= n.value.child_count() {
        Seq::empty()
    } else {
        let sep = if i + 1 < n.value.child_count() { ","@ } else { Seq::empty() };
        let rest = compact_children(n, i + 1);
        match n.value {
            ValueModel::Object(e) => quoted_escaped(e[i as int].0) + ":"@ + compact(e[i as int].1)
                + sep + rest,
            ValueModel::Array(v) => compact(v[i as int]) + sep + rest,
            ValueModel::MultiDoc(v) => compact(v[i as int]) + sep + rest,
            _ => rest,
        }
    }
}

fn hex_digit_char(d: u32) -> (c: char)
    requires
        d < 16,
    ensures
        c == hex_digit(d as nat),
{
    if d == 0 { '0' }
    else if d == 1 { '1' }
    else if d == 2 { '2' }
    else if d == 3 { '3' }
    else if d == 4 { '4' }
    else if d == 5 { '5' }
    else if d == 6 { '6' }
    else if d == 7 { '7' }
    else if d == 8 { '8' }
    else if d == 9 { '9' }
    else if d == 10 { 'a' }
    else if d == 11 { 'b' }
    else if d == 12 { 'c' }
    else if d == 13 { 'd' }
    else if d == 14 { 'e' }
    else { 'f' }
}

fn push_escaped(out: &mut String, c: char)
    ensures
        final(out)@ == old(out)@ + escape_char(c),
{
    let ghost o = out@;
    if c == '\\' {
        push_char(out, '\\');
        push_char(out, '\\');
    } else if c == '"' {
        push_char(out, '\\');
        push_char(out, '"');
    } else if c == '\n' {
        push_char(out, '\\');
        push_char(out, 'n');
    } else if c == '\r' {
        push_char(out, '\\');
        push_char(out, 'r');
    } else if c == '\t' {
        push_char(out, '\\');
        push_char(out, 't');
    } else if c == '\x08' {
        push_char(out, '\\');
        push_char(out, 'b');
    } else if c == '\x0C' {
        push_char(out, '\\');
        push_char(out, 'f');
    } else {
        let v: u32 = c as u32;
        if v < 0x20 || (0x7f <= v && v <= 0x9f) {
            push_char(out, '\\');
            push_char(out, 'u');
            push_char(out, hex_digit_char((v / 4096) % 16));
            push_char(out, hex_digit_char((v / 256) % 16));
            push_char(out, hex_digit_char((v / 16) % 16));
            push_char(out, hex_digit_char(v % 16));
        } else {
            push_char(out, c);
        }
    }
    assert(out@ =~= o + escape_char(c));
}

/// Escapes `\`, `"` and control characters (`\n`, `\r`, `\t`, `\b`, `\f`,
/// others as `\u00XX`).
pub fn escape_yaml_string(s: &str) -> (r: String)
    ensures
        r@ == escaped(s@),
{
    let v = chars_of(s);
    let mut r = String::new();
    let mut i: usize = 0;
    while i < v.len()
        invariant
            v@ == s@,
            i <= v@.len(),
            r@ == escaped(v@.take(i as int)),
        decreases v.len() - i,
    {
        push_escaped(&mut r, v[i]);
        proof {
            assert(v@.take(i + 1).drop_last() =~= v@.take(i as int));
        }
        i = i + 1;
    }
    assert(v@.take(v@.len() as int) =~= s@);
    r
}

fn quote_escaped(s: &str) -> (r: String)
    ensures
        r@ == quoted_escaped(s@),
{
    let mut r = str_to_string("\"");
    let e = escape_yaml_string(s);
    push_str(&mut r, e.as_str());
    push_str(&mut r, "\"");
    r
}

/// Text of a scalar (see `scalar_text`).
pub fn serialize_scalar(value: &YamlValue) -> (r: String)
    requires
        !value@.is_container(),
    ensures
        r@ == scalar_text(value@),
{
    match value {
        YamlValue::String(s) => quote_escaped(s.as_str()),
        YamlValue::Number(n) => match n {
            YamlNumber::Integer(i) => format_i64(*i),
            YamlNumber::Float(f) => f.clone(),
        },
        YamlValue::Boolean(b) => format_bool(*b),
        YamlValue::Null => str_to_string("null"),
        YamlValue::Alias(name) => {
            let mut r = str_to_string("*");
            push_str(&mut r, name.as_str());
            r
        },
        YamlValue::Object(_) | YamlValue::Array(_) | YamlValue::MultiDoc(_) => String::new(),
    }
}

/// A string of `n` spaces.
pub fn spaces_string(n: usize) -> (r: String)
    ensures
        r@ == spaces(n as nat),
{
    let mut r = String::new();
    let mut i: usize = 0;
    while i < n
        invariant
            i <= n,
            r@ == spaces(i as nat),
        decreases n - i,
    {
        push_char(&mut r, ' ');
        i = i + 1;
        assert(r@ =~= spaces(i as nat));
    }
    r
}

fn entries_all_scalar(e: &Vec<(String, YamlNode)>) -> (r: bool)
    ensures
        r == scalar_entries(crate::document::node::entries_model(e@)),
{
    let ghost em = crate::document::node::entries_model(e@);
    let mut i: usize = 0;
    while i < e.len()
        invariant
            em == crate::document::node::entries_model(e@),
            i <= e@.len(),
            forall|j: int| 0 <= j < i ==> !(#[trigger] em[j].1).value.is_container(),
        decreases e.len() - i,
    {
        proof {
            lemma_node_value_view(e@[i as int].1);
        }
        if e[i].1.value().is_container() {
            assert(em[i as int].1.value.is_container());
            return false;
        }
        i = i + 1;
    }
    true
}

fn elements_all_scalar(v: &Vec<YamlNode>) -> (r: bool)
    ensures
        r == scalar_elements(crate::document::node::nodes_model(v@)),
{
    let ghost vm = crate::document::node::nodes_model(v@);
    let mut i: usize = 0;
    while i < v.len()
        invariant
            vm == crate::document::node::nodes_model(v@),
            i <= v@.len(),
            forall|j: int| 0 <= j < i ==> !(#[trigger] vm[j]).value.is_container(),
        decreases v.len() - i,
    {
        proof {
            lemma_node_value_view(v@[i as int]);
        }
        if v[i].value().is_container() {
            assert(vm[i as int].value.is_container());
            return false;
        }
        i = i + 1;
    }
    true
}

/// A mapping of scalars on one line (see `compact_entries`).
fn serialize_object_compact(e: &Vec<(String, YamlNode)>) -> (r: String)
    requires
        scalar_entries(crate::document::node::entries_model(e@)),
    ensures
        r@ == "{"@ + compact_entries(crate::document::node::entries_model(e@), 0) + "}"@,
{
    let ghost em = crate::document::node::entries_model(e@);
    let mut r = str_to_string("{");
    let ghost init = r@;
    let mut i: usize = 0;
    while i < e.len()
        invariant
            em == crate::document::node::entries_model(e@),
            scalar_entries(em),
            init == "{"@,
            i <= e@.len(),
            r@ + compact_entries(em, i as nat) == init + compact_entries(em, 0),
        decreases e.len() - i,
    {
        let ghost before = r@;
        proof {
            lemma_node_value_view(e@[i as int].1);
            assert(!em[i as int].1.value.is_container());
        }
        let q = quote_escaped(e[i].0.as_str());
        push_str(&mut r, q.as_str());
        push_str(&mut r, ": ");
        let t = serialize_scalar(e[i].1.value());
        push_str(&mut r, t.as_str());
        if i + 1 < e.len() {
            push_str(&mut r, ", ");
        }
        assert(r@ + compact_entries(em, (i + 1) as nat) =~= before + compact_entries(em, i as nat));
        i = i + 1;
    }
    push_str(&mut r, "}");
    assert(r@ =~= init + compact_entries(em, 0) + "}"@);
    r
}

/// A sequence of scalars on one line (see `compact_elements`).
fn serialize_array_compact(v: &Vec<YamlNode>) -> (r: String)
    requires
        scalar_elements(crate::document::node::nodes_model(v@)),
    ensures
        r@ == "["@ + compact_elements(crate::document::node::nodes_model(v@), 0) + "]"@,
{
    let ghost vm = crate::document::node::nodes_model(v@);
    let mut r = str_to_string("[");
    let ghost init = r@;
    let mut i: usize = 0;
    while i < v.len()
        invariant
            vm == crate::document::node::nodes_model(v@),
            scalar_elements(vm),
            init == "["@,
            i <= v@.len(),
            r@ + compact_elements(vm, i as nat) == init + compact_elements(vm, 0),
        decreases v.len() - i,
    {
        let ghost before = r@;
        proof {
            lemma_node_value_view(v@[i as int]);
            assert(!vm[i as int].value.is_container());
        }
        let t = serialize_scalar(v[i].value());
        push_str(&mut r, t.as_str());
        if i + 1 < v.len() {
            push_str(&mut r, ", ");
        }
        assert(r@ + compact_elements(vm, (i + 1) as nat) =~= before + compact_elements(vm, i as nat));
        i = i + 1;
    }
    push_str(&mut r, "]");
    assert(r@ =~= init + compact_elements(vm, 0) + "]"@);
    r
}

proof fn lemma_indent_bound(k: nat, d: nat)
    ensures
        k * d <= k * (d + 1),
{
    assert(k * d <= k * (d + 1)) by (nonlinear_arith);
}

fn serialize_layout(node: &YamlNode, indent_size: usize, current_depth: usize, jq: bool) -> (r: String)
    requires
        indent_fits(node@, indent_size as nat, current_depth as nat),
    ensures
        r@ == serialized(node@, indent_size as nat, current_depth as nat, jq),
    decreases node, 1int,
{
    proof {
        lemma_node_value_view(*node);
        reveal_views(&node.value);
        lemma_indent_bound(indent_size as nat, current_depth as nat);
    }
    let indent = spaces_string(indent_size * current_depth);
    match &node.value {
        YamlValue::Object(e) => {
            if e.len() == 0 {
                return str_to_string("{}");
            }
            if !jq && entries_all_scalar(e) {
                let c = serialize_object_compact(e);
                if str_byte_len(c.as_str()) <= COMPACT_LIMIT {
                    return c;
                }
            }
            let mut r = str_to_string("{\n");
            let body = serialize_entries_block(e, indent_size, current_depth, jq, Ghost(node@));
            push_str(&mut r, body.as_str());
            push_str(&mut r, indent.as_str());
            push_str(&mut r, "}");
            r
        },
        YamlValue::Array(v) | YamlValue::MultiDoc(v) => {
            if v.len() == 0 {
                return str_to_string("[]");
            }
            if !jq && elements_all_scalar(v) {
                let c = serialize_array_compact(v);
                if str_byte_len(c.as_str()) <= COMPACT_LIMIT {
                    return c;
                }
            }
            let mut r = str_to_string("[\n");
            let body = serialize_elements_block(v, indent_size, current_depth, jq, Ghost(node@));
            push_str(&mut r, body.as_str());
            push_str(&mut r, indent.as_str());
            push_str(&mut r, "]");
            r
        },
        _ => serialize_scalar(&node.value),
    }
}

#[verifier::rlimit(40)]
fn serialize_entries_block(
    e: &Vec<(String, YamlNode)>,
    indent_size: usize,
    current_depth: usize,
    jq: bool,
    Ghost(n): Ghost<NodeModel>,
) -> (r: String)
    requires
        n.value == ValueModel::Object(crate::document::node::entries_model(e@)),
        indent_fits(n, indent_size as nat, current_depth as nat),
    ensures
        r@ == block_children(n, indent_size as nat, current_depth as nat, jq, 0),
    decreases e, 0int,
{
    let ghost em = crate::document::node::entries_model(e@);
    let ghost k = indent_size as nat;
    let ghost d = current_depth as nat;
    let next_indent = spaces_string(indent_size * (current_depth + 1));
    let mut r = String::new();
    let mut i: usize = 0;
    while i < e.len()
        invariant
            n.value == ValueModel::Object(em),
            em == crate::document::node::entries_model(e@),
            indent_fits(n, k, d),
            k == indent_size,
            d == current_depth,
            next_indent@ == spaces(k * (d + 1)),
            i <= e@.len(),
            r@ + block_children(n, k, d, jq, i as nat) == block_children(n, k, d, jq, 0),
        decreases e.len() - i,
    {
        let ghost before = r@;
        let child = &e[i].1;
        proof {
            assert(indent_fits(em[i as int].1, k, d + 1));
        }
        push_str(&mut r, next_indent.as_str());
        let q = quote_escaped(e[i].0.as_str());
        push_str(&mut r, q.as_str());
        push_str(&mut r, ": ");
        let t = serialize_layout(child, indent_size, current_depth + 1, jq);
        push_str(&mut r, t.as_str());
        if i + 1 < e.len() {
            push_str(&mut r, ",");
        }
        push_str(&mut r, "\n");
        assert(r@ + block_children(n, k, d, jq, (i + 1) as nat) =~= before + block_children(n, k, d, jq, i as nat));
        i = i + 1;
    }
    assert(r@ =~= block_children(n, k, d, jq, 0));
    r
}

#[verifier::rlimit(40)]
fn serialize_elements_block(
    v: &Vec<YamlNode>,
    indent_size: usize,
    current_depth: usize,
    jq: bool,
    Ghost(n): Ghost<NodeModel>,
) -> (r: String)
    requires
        n.value == ValueModel::Array(crate::document::node::nodes_model(v@))
            || n.value == ValueModel::MultiDoc(crate::document::node::nodes_model(v@)),
        indent_fits(n, indent_size as nat, current_depth as nat),
    ensures
        r@ == block_children(n, indent_size as nat, current_depth as nat, jq, 0),
    decreases v, 0int,
{
    let ghost vm = crate::document::node::nodes_model(v@);
    let ghost k = indent_size as nat;
    let ghost d = current_depth as nat;
    let next_indent = spaces_string(indent_size * (current_depth + 1));
    let mut r = String::new();
    let mut i: usize = 0;
    while i < v.len()
        invariant
            n.value == ValueModel::Array(vm) || n.value == ValueModel::MultiDoc(vm),
            vm == crate::document::node::nodes_model(v@),
            indent_fits(n, k, d),
            k == indent_size,
            d == current_depth,
            next_indent@ == spaces(k * (d + 1)),
            i <= v@.len(),
            r@ + block_children(n, k, d, jq, i as nat) == block_children(n, k, d, jq, 0),
        decreases v.len() - i,
    {
        let ghost before = r@;
        let child = &v[i];
        proof {
            assert(indent_fits(vm[i as int], k, d + 1));
        }
        push_str(&mut r, next_indent.as_str());
        let t = serialize_layout(child, indent_size, current_depth + 1, jq);
        push_str(&mut r, t.as_str());
        if i + 1 < v.len() {
            push_str(&mut r, ",");
        }
        push_str(&mut r, "\n");
        assert(r@ + block_children(n, k, d, jq, (i + 1) as nat) =~= before + block_children(n, k, d, jq, i as nat));
        i = i + 1;
    }
    assert(r@ =~= block_children(n, k, d, jq, 0));
    r
}

/// Serialises a node with `indent_size` spaces per level, the node being at
/// `current_depth`: a non-empty container of scalars goes on one line when
/// that line takes at most 80 bytes, other containers put one child per
/// line (see `serialized`).
pub fn serialize_node(node: &YamlNode, indent_size: usize, current_depth: usize) -> (r: String)
    requires
        indent_fits(node@, indent_size as nat, current_depth as nat),
    ensures
        r@ == serialized(node@, indent_size as nat, current_depth as nat, false),
{
    serialize_layout(node, indent_size, current_depth, false)
}

/// Serialises a node as jq prints it: every non-empty container puts one
/// child per line.
pub fn serialize_node_jq_style(node: &YamlNode, indent_size: usize, current_depth: usize) -> (r: String)
    requires
        indent_fits(node@, indent_size as nat, current_depth as nat),
    ensures
        r@ == serialized(node@, indent_size as nat, current_depth as nat, true),
{
    serialize_layout(node, indent_size, current_depth, true)
}

/// Serialises a node on a single line, with no spaces (see `compact`).
pub fn serialize_node_compact(node: &YamlNode) -> (r: String)
    ensures
        r@ == compact(node@),
    decreases node, 1int,
{
    proof {
        lemma_node_value_view(*node);
        reveal_views(&node.value);
    }
    match &node.value {
        YamlValue::Object(e) => {
            if e.len() == 0 {
                return str_to_string("{}");
            }
            let mut r = str_to_string("{");
            let body = compact_entries_text(e, Ghost(node@));
            push_str(&mut r, body.as_str());
            push_str(&mut r, "}");
            r
        },
        YamlValue::Array(v) | YamlValue::MultiDoc(v) => {
            if v.len() == 0 {
                return str_to_string("[]");
            }
            let mut r = str_to_string("[");
            let body = compact_elements_text(v, Ghost(node@));
            push_str(&mut r, body.as_str());
            push_str(&mut r, "]");
            r
        },
        _ => serialize_scalar(&node.value),
    }
}

fn compact_entries_text(e: &Vec<(String, YamlNode)>, Ghost(n): Ghost<NodeModel>) -> (r: String)
    requires
        n.value == ValueModel::Object(crate::document::node::entries_model(e@)),
    ensures
        r@ == compact_children(n, 0),
    decreases e, 0int,
{
    let ghost em = crate::document::node::entries_model(e@);
    let mut r = String::new();
    let mut i: usize = 0;
    while i < e.len()
        invariant
            n.value == ValueModel::Object(em),
            em == crate::document::node::entries_model(e@),
            i <= e@.len(),
            r@ + compact_children(n, i as nat) == compact_children(n, 0),
        decreases e.len() - i,
    {
        let ghost before = r@;
        let q = quote_escaped(e[i].0.as_str());
        push_str(&mut r, q.as_str());
        push_str(&mut r, ":");
        let t = serialize_node_compact(&e[i].1);
        push_str(&mut r, t.as_str());
        if i + 1 < e.len() {
            push_str(&mut r, ",");
        }
        assert(r@ + compact_children(n, (i + 1) as nat) =~= before + compact_children(n, i as nat));
        i = i + 1;
    }
    assert(r@ =~= compact_children(n, 0));
    r
}

fn compact_elements_text(v: &Vec<YamlNode>, Ghost(n): Ghost<NodeModel>) -> (r: String)
    requires
        n.value == ValueModel::Array(crate::document::node::nodes_model(v@))
            || n.value == ValueModel::MultiDoc(crate::document::node::nodes_model(v@)),
    ensures
        r@ == compact_children(n, 0),
    decreases v, 0int,
{
    let ghost vm = crate::document::node::nodes_model(v@);
    let mut r = String::new();
    let mut i: usize = 0;
    while i < v.len()
        invariant
            n.value == ValueModel::Array(vm) || n.value == ValueModel::MultiDoc(vm),
            vm == crate::document::node::nodes_model(v@),
            i <= v@.len(),
            r@ + compact_children(n, i as nat) == compact_children(n, 0),
        decreases v.len() - i,
    {
        let ghost before = r@;
        let t = serialize_node_compact(&v[i]);
        push_str(&mut r, t.as_str());
        if i + 1 < v.len() {
            push_str(&mut r, ",");
        }
        assert(r@ + compact_children(n, (i + 1) as nat) =~= before + compact_children(n, i as nat));
        i = i + 1;
    }
    assert(r@ =~= compact_children(n, 0));
    r
}

/// The text of `s` between the byte offsets `start` and `end` of its UTF-8
/// encoding, when `start <= end` and both offsets fall on character
/// boundaries of that encoding (the end of the text counts as one).
pub open spec fn source_text(s: Seq<char>, start: nat, end: nat) -> Option<Seq<char>> {
    let b = encode_utf8(s);
    if start <= end && is_char_boundary(b, start as int) && is_char_boundary(b, end as int) {
        Some(decode_utf8(b.subrange(start as int, end as int)))
    } else {
        None
    }
}

/// A character boundary of a valid encoding at or before another boundary
/// `end` is a character boundary of the prefix that ends at `end`.
proof fn lemma_boundary_in_prefix(b: Seq<u8>, start: int, end: int)
    requires
        valid_utf8(b),
        0 <= start <= end,
        is_char_boundary(b, start),
        is_char_boundary(b, end),
    ensures
        valid_utf8(b.subrange(0, end)),
        is_char_boundary(b.subrange(0, end), start),
{
    broadcast use vstd::utf8::valid_utf8_split;

    let h = b.subrange(0, end);
    assert(end <= b.len());
    assert(valid_utf8(h));
    if start == 0 {
    } else if start == end {
        vstd::utf8::is_char_boundary_start_end_of_seq(h);
    } else {
        vstd::utf8::is_char_boundary_iff_not_is_continuation_byte(b, start);
        vstd::utf8::is_char_boundary_iff_not_is_continuation_byte(h, start);
        assert(h[start] == b[start]);
    }
}

/// The bytes `start..end` of `s` as a string, or `None` where `str::get`
/// gives none: when `start > end` or an offset is not a character boundary.
fn slice_source(s: &str, start: usize, end: usize) -> (r: Option<String>)
    ensures
        match source_text(s@, start as nat, end as nat) {
            Some(t) => r matches Some(x) && x@ == t,
            None => r is None,
        },
{
    broadcast use vstd::utf8::encode_utf8_valid_utf8, vstd::utf8::encode_utf8_decode_utf8;

    if start <= end && s.is_char_boundary(start) && s.is_char_boundary(end) {
        let ghost b = encode_utf8(s@);
        proof {
            lemma_boundary_in_prefix(b, start as int, end as int);
        }
        let (head, _tail) = s.split_at(end);
        let (_pre, mid) = head.split_at(start);
        proof {
            assert(mid.spec_bytes() =~= b.subrange(start as int, end as int));
            assert(decode_utf8(encode_utf8(mid@)) == mid@);
        }
        Some(str_to_string(mid))
    } else {
        None
    }
}

/// The text of `n` when writing it back: with `preserve`, a node not
/// modified since loading and carrying a source span is written as that
/// span of `original`; containers are written one child per line (their
/// children in turn preserved); anything else as `serialized`.
pub open spec fn preserved(n: NodeModel, original: Seq<char>, preserve: bool, k: nat, d: nat) -> Seq<char>
    decreases n, n.value.child_count() + 1,
{
    if !preserve {
        serialized(n, k, d, false)
    } else if !n.metadata.modified && n.metadata.text_span is Some && source_text(
        original,
        n.metadata.text_span->0.start as nat,
        n.metadata.text_span->0.end as nat,
    ) is Some {
        source_text(original, n.metadata.text_span->0.start as nat, n.metadata.text_span->0.end as nat)->0
    } else {
        match n.value {
            ValueModel::Object(e) => if e.len() == 0 {
                "{}"@
            } else {
                "{\n"@ + preserved_children(n, original, k, d, 0) + spaces(k * d) + "}"@
            },
            ValueModel::Array(v) | ValueModel::MultiDoc(v) => if v.len() == 0 {
                "[]"@
            } else {
                "[\n"@ + preserved_children(n, original, k, d, 0) + spaces(k * d) + "]"@
            },
            _ => serialized(n, k, d, false),
        }
    }
}

/// Children `i..` of `n` as `preserved` writes them.
pub open spec fn preserved_children(n: NodeModel, original: Seq<char>, k: nat, d: nat, i: nat) -> Seq<char>
    decreases n, n.value.child_count() - i,
{
    if i >= n.value.child_count() {
        Seq::empty()
    } else {
        let sep = if i + 1 < n.value.child_count() { ","@ } else { Seq::empty() };
        let rest = preserved_children(n, original, k, d, i + 1);
        match n.value {
            ValueModel::Object(e) => spaces(k * (d + 1)) + quoted_escaped(e[i as int].0) + ": "@
                + preserved(e[i as int].1, original, true, k, d + 1) + sep + "\n"@ + rest,
            ValueModel::Array(v) | ValueModel::MultiDoc(v) => spaces(k * (d + 1)) + preserved(
                v[i as int],
                original,
                true,
                k,
                d + 1,
            ) + sep + "\n"@ + rest,
            _ => rest,
        }
    }
}

/// No node of `n` is written from the source text: each is modified, has
/// no span, or has a span that cannot be cut out of `original`.
pub open spec fn nothing_kept(n: NodeModel, original: Seq<char>) -> bool
    decreases n,
{
    &&& !(!n.metadata.modified && n.metadata.text_span is Some && source_text(
        original,
        n.metadata.text_span->0.start as nat,
        n.metadata.text_span->0.end as nat,
    ) is Some)
    &&& match n.value {
        ValueModel::Object(e) => forall|i: int| 0 <= i < e.len() ==> nothing_kept(#[trigger] e[i].1, original),
        ValueModel::Array(v) => forall|i: int| 0 <= i < v.len() ==> nothing_kept(#[trigger] v[i], original),
        ValueModel::MultiDoc(v) => forall|i: int| 0 <= i < v.len() ==> nothing_kept(#[trigger] v[i], original),
        _ => true,
    }
}

/// A document of which nothing can be kept from the source is written by
/// the format-preserving writer exactly as the one-child-per-line layout
/// writes it: the same lines, the same indentation, a `,` after every
/// element and entry but the last.
pub proof fn law_preserving_without_source_is_block_layout(n: NodeModel, original: Seq<char>, k: nat, d: nat)
    requires
        nothing_kept(n, original),
    ensures
        preserved(n, original, true, k, d) == serialized(n, k, d, true),
    decreases n, n.value.child_count() + 1,
{
    match n.value {
        ValueModel::Object(e) => {
            if e.len() > 0 {
                lemma_preserved_children_block(n, original, k, d, 0);
            }
        },
        ValueModel::Array(v) => {
            if v.len() > 0 {
                lemma_preserved_children_block(n, original, k, d, 0);
            }
        },
        ValueModel::MultiDoc(v) => {
            if v.len() > 0 {
                lemma_preserved_children_block(n, original, k, d, 0);
            }
        },
        _ => {},
    }
}

proof fn lemma_preserved_children_block(n: NodeModel, original: Seq<char>, k: nat, d: nat, i: nat)
    requires
        nothing_kept(n, original),
    ensures
        preserved_children(n, original, k, d, i) == block_children(n, k, d, true, i),
    decreases n, n.value.child_count() - i,
{
    if i < n.value.child_count() {
        match n.value {
            ValueModel::Object(e) => {
                law_preserving_without_source_is_block_layout(e[i as int].1, original, k, d + 1);
            },
            ValueModel::Array(v) => {
                law_preserving_without_source_is_block_layout(v[i as int], original, k, d + 1);
            },
            ValueModel::MultiDoc(v) => {
                law_preserving_without_source_is_block_layout(v[i as int], original, k, d + 1);
            },
            _ => {},
        }
        lemma_preserved_children_block(n, original, k, d, i + 1);
    }
}

/// Writes `node` back (see `preserved`), with the indentation and the
/// preservation switch of `config`, `node` being at `depth`.
pub fn serialize_preserving_format(node: &YamlNode, original: &str, config: &crate::config::Config, depth: usize) -> (r: String)
    requires
        indent_fits(node@, config.indent_size as nat, depth as nat),
    ensures
        r@ == preserved(node@, original@, config.preserve_formatting, config.indent_size as nat, depth as nat),
{
    if !config.preserve_formatting {
        return serialize_node(node, config.indent_size, depth);
    }
    preserve_layout(node, original, config.indent_size, depth)
}

fn preserve_layout(node: &YamlNode, original: &str, indent_size: usize, depth: usize) -> (r: String)
    requires
        indent_fits(node@, indent_size as nat, depth as nat),
    ensures
        r@ == preserved(node@, original@, true, indent_size as nat, depth as nat),
    decreases node, 1int,
{
    proof {
        lemma_node_value_view(*node);
        reveal_views(&node.value);
        lemma_indent_bound(indent_size as nat, depth as nat);
    }
    if !node.metadata.modified {
        match node.metadata.text_span {
            Some(span) => match slice_source(original, span.start, span.end) {
                Some(t) => return t,
                None => {},
            },
            None => {},
        }
    }
    match &node.value {
        YamlValue::Object(e) => {
            if e.len() == 0 {
                return str_to_string("{}");
            }
            let indent = spaces_string(indent_size * depth);
            let mut r = str_to_string("{\n");
            let body = preserve_entries(e, original, indent_size, depth, Ghost(node@));
            push_str(&mut r, body.as_str());
            push_str(&mut r, indent.as_str());
            push_str(&mut r, "}");
            r
        },
        YamlValue::Array(v) | YamlValue::MultiDoc(v) => {
            if v.len() == 0 {
                return str_to_string("[]");
            }
            let indent = spaces_string(indent_size * depth);
            let mut r = str_to_string("[\n");
            let body = preserve_elements(v, original, indent_size, depth, Ghost(node@));
            push_str(&mut r, body.as_str());
            push_str(&mut r, indent.as_str());
            push_str(&mut r, "]");
            r
        },
        _ => serialize_node(node, indent_size, depth),
    }
}

#[verifier::rlimit(40)]
fn preserve_entries(
    e: &Vec<(String, YamlNode)>,
    original: &str,
    indent_size: usize,
    current_depth: usize,
    Ghost(n): Ghost<NodeModel>,
) -> (r: String)
    requires
        n.value == ValueModel::Object(crate::document::node::entries_model(e@)),
        indent_fits(n, indent_size as nat, current_depth as nat),
    ensures
        r@ == preserved_children(n, original@, indent_size as nat, current_depth as nat, 0),
    decreases e, 0int,
{
    let ghost em = crate::document::node::entries_model(e@);
    let ghost k = indent_size as nat;
    let ghost d = current_depth as nat;
    let ghost o = original@;
    let next_indent = spaces_string(indent_size * (current_depth + 1));
    let mut r = String::new();
    let mut i: usize = 0;
    while i < e.len()
        invariant
            n.value == ValueModel::Object(em),
            em == crate::document::node::entries_model(e@),
            indent_fits(n, k, d),
            k == indent_size,
            d == current_depth,
            o == original@,
            next_indent@ == spaces(k * (d + 1)),
            i <= e@.len(),
            r@ + preserved_children(n, o, k, d, i as nat) == preserved_children(n, o, k, d, 0),
        decreases e.len() - i,
    {
        let ghost before = r@;
        let child = &e[i].1;
        proof {
            assert(indent_fits(em[i as int].1, k, d + 1));
        }
        push_str(&mut r, next_indent.as_str());
        let q = quote_escaped(e[i].0.as_str());
        push_str(&mut r, q.as_str());
        push_str(&mut r, ": ");
        let t = preserve_layout(child, original, indent_size, current_depth + 1);
        push_str(&mut r, t.as_str());
        if i + 1 < e.len() {
            push_str(&mut r, ",");
        }
        push_str(&mut r, "\n");
        assert(r@ + preserved_children(n, o, k, d, (i + 1) as nat) =~= before + preserved_children(n, o, k, d, i as nat));
        i = i + 1;
    }
    assert(r@ =~= preserved_children(n, o, k, d, 0));
    r
}

#[verifier::rlimit(40)]
fn preserve_elements(
    v: &Vec<YamlNode>,
    original: &str,
    indent_size: usize,
    current_depth: usize,
    Ghost(n): Ghost<NodeModel>,
) -> (r: String)
    requires
        n.value == ValueModel::Array(crate::document::node::nodes_model(v@))
            || n.value == ValueModel::MultiDoc(crate::document::node::nodes_model(v@)),
        indent_fits(n, indent_size as nat, current_depth as nat),
    ensures
        r@ == preserved_children(n, original@, indent_size as nat, current_depth as nat, 0),
    decreases v, 0int,
{
    let ghost vm = crate::document::node::nodes_model(v@);
    let ghost k = indent_size as nat;
    let ghost d = current_depth as nat;
    let ghost o = original@;
    let next_indent = spaces_string(indent_size * (current_depth + 1));
    let mut r = String::new();
    let mut i: usize = 0;
    while i < v.len()
        invariant
            n.value == ValueModel::Array(vm) || n.value == ValueModel::MultiDoc(vm),
            vm == crate::document::node::nodes_model(v@),
            indent_fits(n, k, d),
            k == indent_size,
            d == current_depth,
            o == original@,
            next_indent@ == spaces(k * (d + 1)),
            i <= v@.len(),
            r@ + preserved_children(n, o, k, d, i as nat) == preserved_children(n, o, k, d, 0),
        decreases v.len() - i,
    {
        let ghost before = r@;
        let child = &v[i];
        proof {
            assert(indent_fits(vm[i as int], k, d + 1));
        }
        push_str(&mut r, next_indent.as_str());
        let t = preserve_layout(child, original, indent_size, current_depth + 1);
        push_str(&mut r, t.as_str());
        if i + 1 < v.len() {
            push_str(&mut r, ",");
        }
        push_str(&mut r, "\n");
        assert(r@ + preserved_children(n, o, k, d, (i + 1) as nat) =~= before + preserved_children(n, o, k, d, i as nat));
        i = i + 1;
    }
    assert(r@ =~= preserved_children(n, o, k, d, 0));
    r
}

/// The documents of a multi-document stream, one compact line each.
pub open spec fn stream_text(v: Seq<NodeModel>) -> Seq<char>
    decreases v.len(),
{
    if v.len() == 0 {
        Seq::empty()
    } else {
        stream_text(v.drop_last()) + compact(v.last()) + "\n"@
    }
}

/// The text a save writes for `doc`: a multi-document stream one compact
/// line per document; any other document as `preserved` writes it against
/// the source it was loaded from (`serialized` when there is none), with a
/// final newline when the source ended with one.
pub open spec fn saved_text(doc: crate::document::tree::TreeModel, preserve: bool, k: nat) -> Seq<char> {
    match doc.root.value {
        ValueModel::MultiDoc(v) => stream_text(v),
        _ => match doc.source {
            Some(o) => {
                let t = preserved(doc.root, o, preserve, k, 0);
                if o.len() > 0 && o.last() == '\n' && !(t.len() > 0 && t.last() == '\n') { t.push('\n') } else { t }
            },
            None => serialized(doc.root, k, 0, false),
        },
    }
}

/// The text to write when saving `tree` with `config` (see `saved_text`).
pub fn document_text(tree: &crate::document::tree::YamlTree, config: &crate::config::Config) -> (r: String)
    requires
        indent_fits(tree@.root, config.indent_size as nat, 0),
    ensures
        r@ == saved_text(tree@, config.preserve_formatting, config.indent_size as nat),
{
    let root = tree.root();
    proof {
        lemma_node_value_view(*root);
        reveal_views(&root.value);
    }
    match &root.value {
        YamlValue::MultiDoc(v) => {
            let ghost vm = crate::document::node::nodes_model(v@);
            let mut r = String::new();
            let mut i: usize = 0;
            while i < v.len()
                invariant
                    vm == crate::document::node::nodes_model(v@),
                    i <= v@.len(),
                    r@ == stream_text(vm.take(i as int)),
                decreases v.len() - i,
            {
                assert(vm.take(i as int + 1).drop_last() =~= vm.take(i as int));
                let line = serialize_node_compact(&v[i]);
                push_str(&mut r, line.as_str());
                push_str(&mut r, "\n");
                i = i + 1;
            }
            assert(vm.take(v@.len() as int) =~= vm);
            r
        },
        _ => match tree.original_source() {
            Some(o) => {
                let mut t = serialize_preserving_format(root, o, config, 0);
                let oc = chars_of(o);
                let tc = chars_of(t.as_str());
                if oc.len() > 0 && oc[oc.len() - 1] == '\n' && !(tc.len() > 0 && tc[tc.len() - 1] == '\n') {
                    push_char(&mut t, '\n');
                }
                t
            },
            None => serialize_node(root, config.indent_size, 0),
        },
    }
}

} // verus!
