//! YAML node representation with metadata tracking.
//!
//! Every YAML value is wrapped in a `YamlNode` that records whether it was
//! modified since loading, the byte range it occupied in the original source,
//! and the anchor / alias information attached to it.
//!
//! Objects keep their entries as an ordered list of `(key, node)` pairs whose
//! keys are pairwise distinct (see `entries_keys_distinct`).
//!
//! Each executable value has a mathematical model (`ValueModel`, `NodeModel`)
//! built from `Seq`s; contracts throughout the crate are stated over it.

use vstd::prelude::*;

verus! {

broadcast use vstd::std_specs::vec::group_vec_axioms;

/// A byte range in the original YAML source (end exclusive).
#[derive(Debug, Clone, Copy, PartialEq, Eq, Structural)]
pub struct TextSpan {
    /// Start byte offset in the original source
    pub start: usize,
    /// End byte offset in the original source (exclusive)
    pub end: usize,
}

/// Metadata associated with a node.
#[derive(Debug, Clone, Copy, PartialEq, Eq, Structural)]
pub struct NodeMetadata {
    /// Byte range in the original source (for unmodified nodes)
    pub text_span: Option<TextSpan>,
    /// Whether this node has been modified
    pub modified: bool,
}

/// The presentation style of a YAML string scalar.
#[derive(Debug, Clone, Copy, PartialEq, Eq, Structural)]
pub enum StrStyle {
    Plain,
    Literal,
    Folded,
}

/// A YAML string together with the style it is written in.
#[derive(Debug, Clone, PartialEq)]
pub enum YamlString {
    /// A plain or quoted scalar
    Plain(String),
    /// A literal block scalar (`|`)
    Literal(String),
    /// A folded block scalar (`>`)
    Folded(String),
}

/// A YAML number.
///
/// A floating-point number is held as the decimal text by which Rust displays
/// the `f64` value (for example `3.14`, `2.5`, `inf`): the library never
/// computes with it, it only carries and prints it.
#[derive(Debug, Clone, PartialEq)]
pub enum YamlNumber {
    Integer(i64),
    Float(String),
}

/// A YAML value without metadata.
#[derive(Debug, PartialEq)]
pub enum YamlValue {
    /// A mapping: ordered `(key, node)` entries with pairwise distinct keys
    Object(Vec<(String, YamlNode)>),
    /// A sequence
    Array(Vec<YamlNode>),
    /// A string scalar
    String(YamlString),
    /// A number scalar
    Number(YamlNumber),
    /// A boolean scalar
    Boolean(bool),
    /// The null scalar
    Null,
    /// An alias (`*name`) referring to an anchor
    Alias(String),
    /// The root of a multi-document stream; each element is one document
    MultiDoc(Vec<YamlNode>),
}

/// A YAML value wrapped with metadata.
#[derive(Debug, PartialEq)]
pub struct YamlNode {
    pub value: YamlValue,
    pub metadata: NodeMetadata,
    /// Anchor name defined on this node (`&name`), if any
    pub anchor: Option<String>,
    /// Anchor name this node refers to when it is an alias, if any
    pub alias_target: Option<String>,
}

/// Model of a value: the executable value with every `Vec` and `String`
/// replaced by its sequence.
#[verifier::ext_equal]
pub enum ValueModel {
    Object(Seq<(Seq<char>, NodeModel)>),
    Array(Seq<NodeModel>),
    Str(StrStyle, Seq<char>),
    Int(i64),
    Float(Seq<char>),
    Bool(bool),
    Null,
    Alias(Seq<char>),
    MultiDoc(Seq<NodeModel>),
}

/// Model of a node.
#[verifier::ext_equal]
pub struct NodeModel {
    pub value: ValueModel,
    pub metadata: NodeMetadata,
    pub anchor: Option<Seq<char>>,
    pub alias_target: Option<Seq<char>>,
}

pub open spec fn opt_str_view(o: Option<String>) -> Option<Seq<char>> {
    match o {
        Some(s) => Some(s@),
        None => None,
    }
}

pub open spec fn null_model() -> NodeModel {
    NodeModel {
        value: ValueModel::Null,
        metadata: NodeMetadata { text_span: None, modified: false },
        anchor: None,
        alias_target: None,
    }
}

impl YamlString {
    pub open spec fn style(&self) -> StrStyle {
        match self {
            YamlString::Plain(_) => StrStyle::Plain,
            YamlString::Literal(_) => StrStyle::Literal,
            YamlString::Folded(_) => StrStyle::Folded,
        }
    }

    pub open spec fn text(&self) -> Seq<char> {
        match self {
            YamlString::Plain(t) => t@,
            YamlString::Literal(t) => t@,
            YamlString::Folded(t) => t@,
        }
    }

    /// Returns the string content regardless of its style.
    pub fn as_str(&self) -> (r: &str)
        ensures
            r@ == self.text(),
    {
        match self {
            YamlString::Plain(t) => t.as_str(),
            YamlString::Literal(t) => t.as_str(),
            YamlString::Folded(t) => t.as_str(),
        }
    }
}

/// Model of a node: defined by structural recursion over the tree.
pub open spec fn model_of(n: YamlNode) -> NodeModel
    decreases n,
{
    let value = match n.value {
        YamlValue::Object(e) => ValueModel::Object(
            Seq::new(
                e.len() as nat,
                |i: int|
                    if 0 <= i < e.len() {
                        (e@[i].0@, model_of(e@[i].1))
                    } else {
                        (Seq::empty(), null_model())
                    },
            ),
        ),
        YamlValue::Array(v) => ValueModel::Array(
            Seq::new(
                v.len() as nat,
                |i: int|
                    if 0 <= i < v.len() {
                        model_of(v@[i])
                    } else {
                        null_model()
                    },
            ),
        ),
        YamlValue::String(s) => ValueModel::Str(s.style(), s.text()),
        YamlValue::Number(YamlNumber::Integer(i)) => ValueModel::Int(i),
        YamlValue::Number(YamlNumber::Float(f)) => ValueModel::Float(f@),
        YamlValue::Boolean(b) => ValueModel::Bool(b),
        YamlValue::Null => ValueModel::Null,
        YamlValue::Alias(a) => ValueModel::Alias(a@),
        YamlValue::MultiDoc(v) => ValueModel::MultiDoc(
            Seq::new(
                v.len() as nat,
                |i: int|
                    if 0 <= i < v.len() {
                        model_of(v@[i])
                    } else {
                        null_model()
                    },
            ),
        ),
    };
    NodeModel {
        value,
        metadata: n.metadata,
        anchor: opt_str_view(n.anchor),
        alias_target: opt_str_view(n.alias_target),
    }
}

impl View for YamlValue {
    type V = ValueModel;

    /// The model of a value is the model of the value inside any node.
    open spec fn view(&self) -> ValueModel {
        model_of(
            YamlNode {
                value: *self,
                metadata: NodeMetadata { text_span: None, modified: false },
                anchor: None,
                alias_target: None,
            },
        ).value
    }
}

impl View for YamlNode {
    type V = NodeModel;

    open spec fn view(&self) -> NodeModel {
        model_of(*self)
    }
}

pub proof fn lemma_node_value_view(n: YamlNode)
    ensures
        n@.value == n.value@,
{
}

/// Model of the entries of a mapping.
pub open spec fn entries_model(e: Seq<(String, YamlNode)>) -> Seq<(Seq<char>, NodeModel)> {
    Seq::new(e.len(), |i: int| (e[i].0@, e[i].1@))
}

/// Model of the elements of a sequence.
pub open spec fn nodes_model(v: Seq<YamlNode>) -> Seq<NodeModel> {
    Seq::new(v.len(), |i: int| v[i]@)
}

pub proof fn lemma_object_view(e: Vec<(String, YamlNode)>)
    ensures
        YamlValue::Object(e)@ == ValueModel::Object(entries_model(e@)),
{
    let m = YamlValue::Object(e)@->Object_0;
    assert(m.len() == e.len());
    assert forall|i: int| 0 <= i < e@.len() implies m[i] == entries_model(e@)[i] by {}
    assert(m =~= entries_model(e@));
}

pub proof fn lemma_array_view(v: Vec<YamlNode>)
    ensures
        YamlValue::Array(v)@ == ValueModel::Array(nodes_model(v@)),
        YamlValue::MultiDoc(v)@ == ValueModel::MultiDoc(nodes_model(v@)),
{
    let a = YamlValue::Array(v)@->Array_0;
    let m = YamlValue::MultiDoc(v)@->MultiDoc_0;
    assert forall|i: int| 0 <= i < v@.len() implies a[i] == nodes_model(v@)[i] && m[i] == nodes_model(v@)[i] by {}
    assert(a =~= nodes_model(v@));
    assert(m =~= nodes_model(v@));
}

impl ValueModel {
    /// The value is a mapping.
    pub open spec fn is_object(self) -> bool {
        self is Object
    }

    /// The value is a sequence.
    pub open spec fn is_array(self) -> bool {
        self is Array
    }

    /// The value has children: a mapping, a sequence or a multi-document root.
    pub open spec fn is_container(self) -> bool {
        self is Object || self is Array || self is MultiDoc
    }

    /// Number of children of a container (0 for scalars).
    pub open spec fn child_count(self) -> nat {
        match self {
            ValueModel::Object(e) => e.len(),
            ValueModel::Array(v) => v.len(),
            ValueModel::MultiDoc(v) => v.len(),
            _ => 0,
        }
    }

    /// The `i`-th child of a container.
    pub open spec fn child(self, i: int) -> Option<NodeModel> {
        match self {
            ValueModel::Object(e) => if 0 <= i < e.len() { Some(e[i].1) } else { None },
            ValueModel::Array(v) => if 0 <= i < v.len() { Some(v[i]) } else { None },
            ValueModel::MultiDoc(v) => if 0 <= i < v.len() { Some(v[i]) } else { None },
            _ => None,
        }
    }
}

/// Keys of a mapping are pairwise distinct.
pub open spec fn entries_keys_distinct(e: Seq<(Seq<char>, NodeModel)>) -> bool {
    forall|i: int, j: int| 0 <= i < e.len() && 0 <= j < e.len() && i != j ==> e[i].0 != e[j].0
}

/// The node reached from `n` by following `path` (an index per level).
pub open spec fn node_at(n: NodeModel, path: Seq<usize>) -> Option<NodeModel>
    decreases path.len(),
{
    if path.len() == 0 {
        Some(n)
    } else {
        match n.value.child(path[0] as int) {
            Some(c) => node_at(c, path.drop_first()),
            None => None,
        }
    }
}

/// A node freshly created by the editor: modified, no span, no anchor or alias.
pub open spec fn fresh_model(v: ValueModel) -> NodeModel {
    NodeModel {
        value: v,
        metadata: NodeMetadata { text_span: None, modified: true },
        anchor: None,
        alias_target: None,
    }
}

impl YamlValue {
    /// Returns true if this value is a mapping.
    pub fn is_object(&self) -> (r: bool)
        ensures
            r == self@.is_object(),
    {
        match self {
            YamlValue::Object(_) => true,
            _ => false,
        }
    }

    /// Returns true if this value is a sequence.
    pub fn is_array(&self) -> (r: bool)
        ensures
            r == self@.is_array(),
    {
        match self {
            YamlValue::Array(_) => true,
            _ => false,
        }
    }

    /// Returns true if this value is a container (mapping, sequence or
    /// multi-document root).
    pub fn is_container(&self) -> (r: bool)
        ensures
            r == self@.is_container(),
    {
        match self {
            YamlValue::Object(_) | YamlValue::Array(_) | YamlValue::MultiDoc(_) => true,
            _ => false,
        }
    }

    /// Number of children (0 for scalars).
    pub fn child_count(&self) -> (r: usize)
        ensures
            r == self@.child_count(),
    {
        proof {
            reveal_views(self);
        }
        match self {
            YamlValue::Object(e) => e.len(),
            YamlValue::Array(v) => v.len(),
            YamlValue::MultiDoc(v) => v.len(),
            _ => 0,
        }
    }

    /// The `i`-th child of a container, if there is one.
    pub fn child(&self, i: usize) -> (r: Option<&YamlNode>)
        ensures
            match r {
                Some(c) => self@.child(i as int) == Some(c@),
                None => self@.child(i as int) is None,
            },
    {
        proof {
            reveal_views(self);
        }
        match self {
            YamlValue::Object(e) => {
                if i < e.len() {
                    Some(&e[i].1)
                } else {
                    None
                }
            },
            YamlValue::Array(v) | YamlValue::MultiDoc(v) => {
                if i < v.len() {
                    Some(&v[i])
                } else {
                    None
                }
            },
            _ => None,
        }
    }
}

/// Unfolds the view of a container into the models of its parts.
pub proof fn reveal_views(v: &YamlValue)
    ensures
        v matches YamlValue::Object(e) ==> v@ == ValueModel::Object(entries_model(e@)),
        v matches YamlValue::Array(a) ==> v@ == ValueModel::Array(nodes_model(a@)),
        v matches YamlValue::MultiDoc(a) ==> v@ == ValueModel::MultiDoc(nodes_model(a@)),
{
    match v {
        YamlValue::Object(e) => lemma_object_view(*e),
        YamlValue::Array(a) => lemma_array_view(*a),
        YamlValue::MultiDoc(a) => lemma_array_view(*a),
        _ => {},
    }
}

fn copy_opt_string(o: &Option<String>) -> (r: Option<String>)
    ensures
        opt_str_view(r) == opt_str_view(*o),
{
    match o {
        Some(s) => Some(s.clone()),
        None => None,
    }
}

impl YamlNode {
    /// Creates a new node holding `value`, marked as modified, with no text
    /// span, anchor or alias.
    pub fn new(value: YamlValue) -> (r: Self)
        ensures
            r@ == fresh_model(value@),
            r.value == value,
    {
        YamlNode {
            value,
            metadata: NodeMetadata { text_span: None, modified: true },
            anchor: None,
            alias_target: None,
        }
    }

    /// Returns the node's value.
    pub fn value(&self) -> (r: &YamlValue)
        ensures
            r == &self.value,
    {
        &self.value
    }

    /// Returns the node's value for writing, marking the node as modified.
    pub fn value_mut(&mut self) -> (r: &mut YamlValue)
        ensures
            *r == old(self).value,
            final(self).value == *final(r),
            final(self).metadata == (NodeMetadata { modified: true, ..old(self).metadata }),
            final(self).anchor == old(self).anchor,
            final(self).alias_target == old(self).alias_target,
    {
        self.metadata.modified = true;
        &mut self.value
    }

    /// Returns whether this node has been modified.
    pub fn is_modified(&self) -> (r: bool)
        ensures
            r == self@.metadata.modified,
    {
        self.metadata.modified
    }

    /// The anchor name defined on this node, if any.
    pub fn anchor(&self) -> (r: Option<&str>)
        ensures
            match r {
                Some(a) => self@.anchor == Some(a@),
                None => self@.anchor is None,
            },
    {
        match &self.anchor {
            Some(a) => Some(a.as_str()),
            None => None,
        }
    }

    /// The anchor this node refers to when it is an alias, if any.
    pub fn alias_target(&self) -> (r: Option<&str>)
        ensures
            match r {
                Some(a) => self@.alias_target == Some(a@),
                None => self@.alias_target is None,
            },
    {
        match &self.alias_target {
            Some(a) => Some(a.as_str()),
            None => None,
        }
    }

    /// A deep copy of the node, equal to it in the model.
    pub fn duplicate(&self) -> (r: YamlNode)
        ensures
            r@ == self@,
        decreases self, 1int,
    {
        proof {
            reveal_views(&self.value);
        }
        let value = match &self.value {
            YamlValue::Object(e) => {
                let out = duplicate_entries(e);
                proof {
                    lemma_object_view(out);
                }
                YamlValue::Object(out)
            },
            YamlValue::Array(v) => {
                let out = duplicate_nodes(v);
                proof {
                    lemma_array_view(out);
                }
                YamlValue::Array(out)
            },
            YamlValue::MultiDoc(v) => {
                let out = duplicate_nodes(v);
                proof {
                    lemma_array_view(out);
                }
                YamlValue::MultiDoc(out)
            },
            YamlValue::String(s) => YamlValue::String(
                match s {
                    YamlString::Plain(t) => YamlString::Plain(t.clone()),
                    YamlString::Literal(t) => YamlString::Literal(t.clone()),
                    YamlString::Folded(t) => YamlString::Folded(t.clone()),
                },
            ),
            YamlValue::Number(YamlNumber::Integer(n)) => YamlValue::Number(YamlNumber::Integer(*n)),
            YamlValue::Number(YamlNumber::Float(f)) => YamlValue::Number(YamlNumber::Float(f.clone())),
            YamlValue::Boolean(b) => YamlValue::Boolean(*b),
            YamlValue::Null => YamlValue::Null,
            YamlValue::Alias(a) => YamlValue::Alias(a.clone()),
        };
        YamlNode {
            value,
            metadata: self.metadata,
            anchor: copy_opt_string(&self.anchor),
            alias_target: copy_opt_string(&self.alias_target),
        }
    }
}

impl Clone for YamlNode {
    fn clone(&self) -> (r: Self)
        ensures
            r@ == self@,
    {
        self.duplicate()
    }
}

/// A deep copy of the entries of a mapping.
pub fn duplicate_entries(e: &Vec<(String, YamlNode)>) -> (out: Vec<(String, YamlNode)>)
    ensures
        entries_model(out@) == entries_model(e@),
    decreases e, 0int,
{
    let mut out: Vec<(String, YamlNode)> = Vec::new();
    let mut i: usize = 0;
    while i < e.len()
        invariant
            i <= e.len(),
            out@.len() == i,
            forall|j: int| 0 <= j < i ==> (#[trigger] out@[j]).0@ == e@[j].0@ && out@[j].1@ == e@[j].1@,
        decreases e.len() - i,
    {
        let k = e[i].0.clone();
        let c = e[i].1.duplicate();
        out.push((k, c));
        i = i + 1;
    }
    assert(entries_model(out@) =~= entries_model(e@));
    out
}

/// A deep copy of a list of nodes.
pub fn duplicate_nodes(v: &Vec<YamlNode>) -> (out: Vec<YamlNode>)
    ensures
        nodes_model(out@) == nodes_model(v@),
    decreases v, 0int,
{
    let mut out: Vec<YamlNode> = Vec::new();
    let mut i: usize = 0;
    while i < v.len()
        invariant
            i <= v.len(),
            out@.len() == i,
            forall|j: int| 0 <= j < i ==> (#[trigger] out@[j])@ == v@[j]@,
        decreases v.len() - i,
    {
        let c = v[i].duplicate();
        out.push(c);
        i = i + 1;
    }
    assert(nodes_model(out@) =~= nodes_model(v@));
    out
}

} // verus!
