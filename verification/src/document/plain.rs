//! Documents read by a generic YAML reader, which hands over plain values
//! (no anchors, no source positions) and leaves to this module how they
//! become a tree: mapping keys are read as text, a key given twice keeps
//! its first place and its last value, and tagged values or keys that are
//! not scalars are refused.

use vstd::prelude::*;
use crate::document::node::{
    entries_model, lemma_array_view, lemma_node_value_view, lemma_object_view, nodes_model, NodeMetadata,
    NodeModel, StrStyle, ValueModel, YamlNode, YamlNumber, YamlString, YamlValue,
};
use crate::document::parser::{entries_insert, insert_entry};
use crate::text::{push_str, str_to_string};

verus! {

broadcast use vstd::std_specs::vec::group_vec_axioms;

/// A value as a generic YAML reader gives it.
pub enum PlainValue {
    Null,
    Bool(bool),
    /// A number: the `i64` it is, when it is one; its own text, used when
    /// it is a mapping key; and the text of the float it reads as.
    Number(Option<i64>, String, String),
    String(String),
    Sequence(Vec<PlainValue>),
    Mapping(Vec<(PlainValue, PlainValue)>),
    /// A tagged value, by its tag.
    Tagged(String),
}

/// Why a plain value has no tree.
#[derive(Debug, Clone, PartialEq, Eq)]
pub enum ConvertError {
    /// A mapping key is a sequence, a mapping or tagged
    ComplexKey,
    /// A tagged value, with its tag
    Tagged(String),
}

impl ConvertError {
    /// The message describing the error.
    pub fn message(&self) -> (r: String)
        ensures
            r@ == match self {
                ConvertError::ComplexKey => "Complex mapping keys are not supported"@,
                ConvertError::Tagged(t) => "Tagged values are not supported in v1: !"@ + t@,
            },
    {
        match self {
            ConvertError::ComplexKey => str_to_string("Complex mapping keys are not supported"),
            ConvertError::Tagged(t) => {
                let mut r = str_to_string("Tagged values are not supported in v1: !");
                push_str(&mut r, t.as_str());
                r
            },
        }
    }
}

/// The text a mapping key reads as; none for a key that is not a scalar.
pub open spec fn key_text(k: PlainValue) -> Option<Seq<char>> {
    match k {
        PlainValue::Null => Some("null"@),
        PlainValue::Bool(b) => Some(if b { "true"@ } else { "false"@ }),
        PlainValue::Number(_, t, _) => Some(t@),
        PlainValue::String(s) => Some(s@),
        _ => None,
    }
}

/// A node read from a document: unmodified, with no source span, anchor or
/// alias.
pub open spec fn read_model(v: ValueModel) -> NodeModel {
    NodeModel {
        value: v,
        metadata: NodeMetadata { text_span: None, modified: false },
        anchor: None,
        alias_target: None,
    }
}

/// The tree of `v`, or the first error met reading it in document order.
pub open spec fn plain_model(v: PlainValue) -> Result<NodeModel, ConvertError>
    decreases v, 0nat,
{
    match v {
        PlainValue::Null => Ok(read_model(ValueModel::Null)),
        PlainValue::Bool(b) => Ok(read_model(ValueModel::Bool(b))),
        PlainValue::Number(Some(i), _, _) => Ok(read_model(ValueModel::Int(i))),
        PlainValue::Number(None, _, f) => Ok(read_model(ValueModel::Float(f@))),
        PlainValue::String(s) => Ok(read_model(ValueModel::Str(StrStyle::Plain, s@))),
        PlainValue::Sequence(items) => match items_model(items@, items@.len()) {
            Ok(ns) => Ok(read_model(ValueModel::Array(ns))),
            Err(e) => Err(e),
        },
        PlainValue::Mapping(es) => match pairs_model(es@, es@.len()) {
            Ok(m) => Ok(read_model(ValueModel::Object(m))),
            Err(e) => Err(e),
        },
        PlainValue::Tagged(t) => Err(ConvertError::Tagged(t)),
    }
}

/// The trees of the first `n` of `items`, or the first error among them.
pub open spec fn items_model(items: Seq<PlainValue>, n: nat) -> Result<Seq<NodeModel>, ConvertError>
    decreases items, n,
{
    if n == 0 || n > items.len() {
        Ok(Seq::empty())
    } else {
        match items_model(items, (n - 1) as nat) {
            Err(e) => Err(e),
            Ok(ns) => match plain_model(items[n - 1]) {
                Err(e) => Err(e),
                Ok(m) => Ok(ns.push(m)),
            },
        }
    }
}

/// The entries of the first `n` of `pairs`, each key read as text and a
/// repeated key set in place (see `entries_insert`), or the first error:
/// a key that is not a scalar, then an error inside the value.
pub open spec fn pairs_model(pairs: Seq<(PlainValue, PlainValue)>, n: nat) -> Result<Seq<(Seq<char>, NodeModel)>, ConvertError>
    decreases pairs, n,
{
    if n == 0 || n > pairs.len() {
        Ok(Seq::empty())
    } else {
        match pairs_model(pairs, (n - 1) as nat) {
            Err(e) => Err(e),
            Ok(m) => match key_text(pairs[n - 1].0) {
                None => Err(ConvertError::ComplexKey),
                Some(k) => match plain_model(pairs[n - 1].1) {
                    Err(e) => Err(e),
                    Ok(c) => Ok(entries_insert(m, k, c)),
                },
            },
        }
    }
}

/// An error among the first `j` items is the error of any longer prefix.
proof fn lemma_items_error_stays(items: Seq<PlainValue>, j: nat, n: nat)
    requires
        j <= n <= items.len(),
        items_model(items, j) is Err,
    ensures
        items_model(items, n) == items_model(items, j),
    decreases n - j,
{
    if n > j {
        lemma_items_error_stays(items, j, (n - 1) as nat);
    }
}

/// An error among the first `j` pairs is the error of any longer prefix.
proof fn lemma_pairs_error_stays(pairs: Seq<(PlainValue, PlainValue)>, j: nat, n: nat)
    requires
        j <= n <= pairs.len(),
        pairs_model(pairs, j) is Err,
    ensures
        pairs_model(pairs, n) == pairs_model(pairs, j),
    decreases n - j,
{
    if n > j {
        lemma_pairs_error_stays(pairs, j, (n - 1) as nat);
    }
}

fn read_node(value: YamlValue) -> (r: YamlNode)
    ensures
        r@ == read_model(value@),
{
    let r = YamlNode { value, metadata: NodeMetadata { text_span: None, modified: false }, anchor: None, alias_target: None };
    proof {
        lemma_node_value_view(r);
    }
    r
}

fn key_of(k: &PlainValue) -> (r: Option<String>)
    ensures
        match r {
            Some(s) => key_text(*k) == Some(s@),
            None => key_text(*k) is None,
        },
{
    match k {
        PlainValue::Null => Some(str_to_string("null")),
        PlainValue::Bool(b) => if *b {
            Some(str_to_string("true"))
        } else {
            Some(str_to_string("false"))
        },
        PlainValue::Number(_, t, _) => Some(t.clone()),
        PlainValue::String(s) => Some(s.clone()),
        _ => None,
    }
}

/// The tree of `v`: a read node per value, sequences and mappings in
/// order; or the first error (see `plain_model`).
pub fn convert_value(v: &PlainValue) -> (r: Result<YamlNode, ConvertError>)
    ensures
        match plain_model(*v) {
            Ok(m) => r matches Ok(n) && n@ == m,
            Err(e) => r == Err::<YamlNode, ConvertError>(e),
        },
    decreases v,
{
    match v {
        PlainValue::Null => Ok(read_node(YamlValue::Null)),
        PlainValue::Bool(b) => Ok(read_node(YamlValue::Boolean(*b))),
        PlainValue::Number(Some(i), _, _) => Ok(read_node(YamlValue::Number(YamlNumber::Integer(*i)))),
        PlainValue::Number(None, _, f) => Ok(read_node(YamlValue::Number(YamlNumber::Float(f.clone())))),
        PlainValue::String(s) => Ok(read_node(YamlValue::String(YamlString::Plain(s.clone())))),
        PlainValue::Sequence(items) => {
            let mut out: Vec<YamlNode> = Vec::new();
            let mut i: usize = 0;
            assert(nodes_model(out@) =~= Seq::<NodeModel>::empty());
            while i < items.len()
                invariant
                    i <= items@.len(),
                    *v == PlainValue::Sequence(*items),
                    items_model(items@, i as nat) == Ok::<Seq<NodeModel>, ConvertError>(nodes_model(out@)),
                decreases items@.len() - i,
            {
                assert(decreases_to!(*v => items@[i as int])) by {
                    assert(decreases_to!(*v => *items));
                    assert(decreases_to!(*items => items@));
                    assert(decreases_to!(items@ => items@[i as int]));
                }
                match convert_value(&items[i]) {
                    Ok(n) => {
                        let ghost before = out@;
                        out.push(n);
                        assert(nodes_model(out@) =~= nodes_model(before).push(n@));
                    },
                    Err(e) => {
                        proof {
                            lemma_items_error_stays(items@, (i + 1) as nat, items@.len());
                        }
                        return Err(e);
                    },
                }
                i = i + 1;
            }
            proof {
                lemma_array_view(out);
            }
            Ok(read_node(YamlValue::Array(out)))
        },
        PlainValue::Mapping(pairs) => {
            let mut out: Vec<(String, YamlNode)> = Vec::new();
            let mut i: usize = 0;
            assert(entries_model(out@) =~= Seq::<(Seq<char>, NodeModel)>::empty());
            while i < pairs.len()
                invariant
                    i <= pairs@.len(),
                    *v == PlainValue::Mapping(*pairs),
                    pairs_model(pairs@, i as nat) == Ok::<Seq<(Seq<char>, NodeModel)>, ConvertError>(entries_model(out@)),
                decreases pairs@.len() - i,
            {
                let k = match key_of(&pairs[i].0) {
                    Some(k) => k,
                    None => {
                        proof {
                            lemma_pairs_error_stays(pairs@, (i + 1) as nat, pairs@.len());
                        }
                        return Err(ConvertError::ComplexKey);
                    },
                };
                assert(decreases_to!(*v => pairs@[i as int].1)) by {
                    assert(decreases_to!(*v => *pairs));
                    assert(decreases_to!(*pairs => pairs@));
                    assert(decreases_to!(pairs@ => pairs@[i as int]));
                    assert(decreases_to!(pairs@[i as int] => pairs@[i as int].1));
                }
                match convert_value(&pairs[i].1) {
                    Ok(n) => {
                        insert_entry(&mut out, k, n);
                    },
                    Err(e) => {
                        proof {
                            lemma_pairs_error_stays(pairs@, (i + 1) as nat, pairs@.len());
                        }
                        return Err(e);
                    },
                }
                i = i + 1;
            }
            proof {
                lemma_object_view(out);
            }
            Ok(read_node(YamlValue::Object(out)))
        },
        PlainValue::Tagged(t) => Err(ConvertError::Tagged(t.clone())),
    }
}

/// The tree of `v`, or a null node when `v` has none.
pub fn parse_value(v: &PlainValue) -> (r: YamlNode)
    ensures
        r@ == match plain_model(*v) {
            Ok(m) => m,
            Err(_) => read_model(ValueModel::Null),
        },
{
    match convert_value(v) {
        Ok(n) => n,
        Err(_) => read_node(YamlValue::Null),
    }
}

} // verus!
