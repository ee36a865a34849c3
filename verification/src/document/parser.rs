//! Building document trees from a stream of YAML parse events.
//!
//! A YAML parser reports a document as a stream of events (start and end of
//! documents, mappings and sequences, scalars, aliases). `TreeBuilder` turns
//! that stream into `YamlNode` trees: a stack holds the containers still
//! open, a scalar met where a mapping awaits a key becomes that key, and
//! every finished value goes into the innermost open container, or becomes
//! a document when none is open. Anchors are reported by number; the
//! builder is given their names in numbering order.

use vstd::prelude::*;
use crate::document::edit::{find_entry, key_position};
use crate::document::node::{
    entries_model, nodes_model, NodeMetadata, NodeModel, StrStyle, ValueModel, YamlNode,
    YamlNumber, YamlString, YamlValue,
};
use crate::editor::scalar::{parse_i64, parse_i64_spec};
use crate::text::{format_usize, nat_text, push_str, str_eq, str_to_string};
use yaml_rust2::parser::{Event, Parser, Tag};
use yaml_rust2::scanner::{Scanner, TScalarStyle, TokenType};

verus! {

broadcast use vstd::std_specs::vec::group_vec_axioms;

/// How a scalar was written.
#[derive(Debug, Clone, Copy, PartialEq, Eq, Structural)]
pub enum ScalarStyle {
    Plain,
    SingleQuoted,
    DoubleQuoted,
    Literal,
    Folded,
}

/// One parse event. Anchor numbers start at 1; 0 means "no anchor".
#[derive(Debug, Clone, PartialEq, Eq)]
pub enum ParseEvent {
    Nothing,
    StreamStart,
    StreamEnd,
    DocumentStart,
    DocumentEnd,
    /// An alias to the anchor with this number
    Alias(usize),
    /// A scalar: its text, style and anchor number, and the display text of
    /// the float its text parses as, if it parses as one
    Scalar(String, ScalarStyle, usize, Option<String>),
    /// The start of a sequence, with its anchor number
    SequenceStart(usize),
    SequenceEnd,
    /// The start of a mapping, with its anchor number
    MappingStart(usize),
    MappingEnd,
}

/// Model of an event.
pub enum EventModel {
    Ignored,
    DocumentStart,
    Alias(nat),
    Scalar(Seq<char>, nat, Option<Seq<char>>),
    SequenceStart(nat),
    SequenceEnd,
    MappingStart(nat),
    MappingEnd,
}

impl View for ParseEvent {
    type V = EventModel;

    open spec fn view(&self) -> EventModel {
        match self {
            ParseEvent::Alias(id) => EventModel::Alias(*id as nat),
            ParseEvent::Scalar(v, _, id, f) => EventModel::Scalar(
                v@,
                *id as nat,
                match f {
                    Some(t) => Some(t@),
                    None => None,
                },
            ),
            ParseEvent::DocumentStart => EventModel::DocumentStart,
            ParseEvent::SequenceStart(id) => EventModel::SequenceStart(*id as nat),
            ParseEvent::SequenceEnd => EventModel::SequenceEnd,
            ParseEvent::MappingStart(id) => EventModel::MappingStart(*id as nat),
            ParseEvent::MappingEnd => EventModel::MappingEnd,
            _ => EventModel::Ignored,
        }
    }
}

/// A container still open.
pub enum BuildNode {
    Mapping { entries: Vec<(String, YamlNode)>, anchor: Option<String>, current_key: Option<String> },
    Sequence { elements: Vec<YamlNode>, anchor: Option<String> },
}

/// Model of an open container.
pub enum FrameModel {
    Mapping {
        entries: Seq<(Seq<char>, NodeModel)>,
        anchor: Option<Seq<char>>,
        key: Option<Seq<char>>,
    },
    Sequence { elements: Seq<NodeModel>, anchor: Option<Seq<char>> },
}

pub open spec fn opt_view(o: Option<String>) -> Option<Seq<char>> {
    match o {
        Some(s) => Some(s@),
        None => None,
    }
}

impl View for BuildNode {
    type V = FrameModel;

    open spec fn view(&self) -> FrameModel {
        match self {
            BuildNode::Mapping { entries, anchor, current_key } => FrameModel::Mapping {
                entries: entries_model(entries@),
                anchor: opt_view(*anchor),
                key: opt_view(*current_key),
            },
            BuildNode::Sequence { elements, anchor } => FrameModel::Sequence {
                elements: nodes_model(elements@),
                anchor: opt_view(*anchor),
            },
        }
    }
}

/// Model of the builder: open containers (innermost last) and finished
/// documents.
pub struct BuilderModel {
    pub stack: Seq<FrameModel>,
    pub documents: Seq<NodeModel>,
}

/// The value a parsed scalar stands for: `null` and the empty text are
/// null, then `true`, `false`, an integer, a float, else the text as a
/// plain string.
pub open spec fn parsed_scalar(v: Seq<char>, float_text: Option<Seq<char>>) -> ValueModel {
    if v == "null"@ || v.len() == 0 {
        ValueModel::Null
    } else if v == "true"@ {
        ValueModel::Bool(true)
    } else if v == "false"@ {
        ValueModel::Bool(false)
    } else if parse_i64_spec(v) is Some {
        ValueModel::Int(parse_i64_spec(v)->0)
    } else if float_text is Some {
        ValueModel::Float(float_text->0)
    } else {
        ValueModel::Str(StrStyle::Plain, v)
    }
}

/// A node read from the source: not modified, no span.
pub open spec fn parsed_node(v: ValueModel, anchor: Option<Seq<char>>, alias: Option<Seq<char>>) -> NodeModel {
    NodeModel {
        value: v,
        metadata: NodeMetadata { text_span: None, modified: false },
        anchor,
        alias_target: alias,
    }
}

/// The name of anchor number `id` (numbers start at 1).
pub open spec fn anchor_name(names: Seq<Seq<char>>, id: nat) -> Option<Seq<char>> {
    if 1 <= id <= names.len() {
        Some(names[id - 1])
    } else {
        None
    }
}

/// `(k, v)` set in a mapping as an insertion map does it: an existing key
/// keeps its place and takes the new value, a new key goes last.
pub open spec fn entries_insert(e: Seq<(Seq<char>, NodeModel)>, k: Seq<char>, v: NodeModel) -> Seq<(Seq<char>, NodeModel)> {
    match key_position(e, k) {
        Some(j) => e.update(j, (e[j].0, v)),
        None => e.push((k, v)),
    }
}

/// A finished value goes into the innermost open container (as the value
/// of the awaited key of a mapping; dropped when a mapping awaits no key),
/// or becomes a document.
pub open spec fn push_value(s: BuilderModel, n: NodeModel) -> BuilderModel {
    if s.stack.len() == 0 {
        BuilderModel { documents: s.documents.push(n), ..s }
    } else {
        let top = s.stack.last();
        let i = s.stack.len() - 1;
        match top {
            FrameModel::Mapping { entries, anchor, key } => match key {
                Some(k) => BuilderModel {
                    stack: s.stack.update(
                        i,
                        FrameModel::Mapping { entries: entries_insert(entries, k, n), anchor, key: None },
                    ),
                    ..s
                },
                None => s,
            },
            FrameModel::Sequence { elements, anchor } => BuilderModel {
                stack: s.stack.update(i, FrameModel::Sequence { elements: elements.push(n), anchor }),
                ..s
            },
        }
    }
}

/// The name given to an alias whose anchor number is unknown.
pub open spec fn unknown_anchor(id: nat) -> Seq<char> {
    "unknown_"@ + nat_text(id)
}

/// The builder after one event.
pub open spec fn step(s: BuilderModel, names: Seq<Seq<char>>, ev: EventModel) -> BuilderModel {
    match ev {
        EventModel::Ignored => s,
        EventModel::DocumentStart => BuilderModel { stack: Seq::empty(), ..s },
        EventModel::Alias(id) => {
            let name = match anchor_name(names, id) {
                Some(n) => n,
                None => unknown_anchor(id),
            };
            push_value(s, parsed_node(ValueModel::Alias(name), None, Some(name)))
        },
        EventModel::Scalar(v, id, f) => {
            if s.stack.len() > 0 && (s.stack.last() matches FrameModel::Mapping { key: None, .. }) {
                let i = s.stack.len() - 1;
                BuilderModel {
                    stack: s.stack.update(
                        i,
                        FrameModel::Mapping {
                            entries: s.stack.last()->entries,
                            anchor: s.stack.last()->Mapping_anchor,
                            key: Some(v),
                        },
                    ),
                    ..s
                }
            } else {
                push_value(s, parsed_node(parsed_scalar(v, f), anchor_name(names, id), None))
            }
        },
        EventModel::SequenceStart(id) => BuilderModel {
            stack: s.stack.push(FrameModel::Sequence { elements: Seq::empty(), anchor: anchor_name(names, id) }),
            ..s
        },
        EventModel::MappingStart(id) => BuilderModel {
            stack: s.stack.push(
                FrameModel::Mapping { entries: Seq::empty(), anchor: anchor_name(names, id), key: None },
            ),
            ..s
        },
        EventModel::SequenceEnd => if s.stack.len() == 0 {
            s
        } else {
            let popped = BuilderModel { stack: s.stack.drop_last(), ..s };
            match s.stack.last() {
                FrameModel::Sequence { elements, anchor } => push_value(
                    popped,
                    parsed_node(ValueModel::Array(elements), anchor, None),
                ),
                _ => popped,
            }
        },
        EventModel::MappingEnd => if s.stack.len() == 0 {
            s
        } else {
            let popped = BuilderModel { stack: s.stack.drop_last(), ..s };
            match s.stack.last() {
                FrameModel::Mapping { entries, anchor, .. } => push_value(
                    popped,
                    parsed_node(ValueModel::Object(entries), anchor, None),
                ),
                _ => popped,
            }
        },
    }
}

/// The builder after the events `evs[i..]`.
pub open spec fn run(s: BuilderModel, names: Seq<Seq<char>>, evs: Seq<EventModel>, i: nat) -> BuilderModel
    decreases evs.len() - i,
{
    if i >= evs.len() {
        s
    } else {
        run(step(s, names, evs[i as int]), names, evs, i + 1)
    }
}

/// Models of the open containers.
pub open spec fn frames_view(v: Seq<BuildNode>) -> Seq<FrameModel> {
    Seq::new(v.len(), |i: int| v[i]@)
}

/// Models of the anchor names.
pub open spec fn names_view(v: Seq<String>) -> Seq<Seq<char>> {
    Seq::new(v.len(), |i: int| v[i]@)
}

/// Models of the events.
pub open spec fn events_view(v: Seq<ParseEvent>) -> Seq<EventModel> {
    Seq::new(v.len(), |i: int| v[i]@)
}

/// The builder with nothing read yet.
pub open spec fn initial_builder() -> BuilderModel {
    BuilderModel { stack: Seq::empty(), documents: Seq::empty() }
}

/// Why no document came out of a parse.
#[derive(Debug, Clone, Copy, PartialEq, Eq, Structural)]
pub enum ParseError {
    /// The stream held no document
    NoDocuments,
    /// The text is not well-formed YAML
    Syntax,
}

impl ParseError {
    /// The message describing the error.
    pub fn message(&self) -> (r: String)
        ensures
            r@ == match self {
                ParseError::NoDocuments => "No YAML documents found"@,
                ParseError::Syntax => "Failed to parse YAML with Parser"@,
            },
    {
        match self {
            ParseError::NoDocuments => str_to_string("No YAML documents found"),
            ParseError::Syntax => str_to_string("Failed to parse YAML with Parser"),
        }
    }
}

/// Builds trees from parse events.
pub struct TreeBuilder {
    stack: Vec<BuildNode>,
    anchor_names: Vec<String>,
    documents: Vec<YamlNode>,
}

impl View for TreeBuilder {
    type V = BuilderModel;

    closed spec fn view(&self) -> BuilderModel {
        BuilderModel { stack: frames_view(self.stack@), documents: nodes_model(self.documents@) }
    }
}

fn copy_name(o: &Option<String>) -> (r: Option<String>)
    ensures
        opt_view(r) == opt_view(*o),
{
    match o {
        Some(s) => Some(s.clone()),
        None => None,
    }
}

fn new_parsed_node(value: YamlValue, anchor: Option<String>, alias_target: Option<String>) -> (r: YamlNode)
    ensures
        r@ == parsed_node(value@, opt_view(anchor), opt_view(alias_target)),
{
    let r = YamlNode {
        value,
        metadata: NodeMetadata { text_span: None, modified: false },
        anchor,
        alias_target,
    };
    proof {
        crate::document::node::lemma_node_value_view(r);
    }
    r
}

/// `(k, n)` set in the entries of a mapping (see `entries_insert`).
pub(crate) fn insert_entry(e: &mut Vec<(String, YamlNode)>, k: String, n: YamlNode)
    ensures
        entries_model(final(e)@) == entries_insert(entries_model(old(e)@), k@, n@),
{
    match find_entry(e, &k) {
        Some(j) => {
            let key0 = e[j].0.clone();
            let ghost em = entries_model(e@);
            e.set(j, (key0, n));
            assert(entries_model(e@) =~= em.update(j as int, (em[j as int].0, n@)));
        },
        None => {
            let ghost em = entries_model(e@);
            e.push((k, n));
            assert(entries_model(e@) =~= em.push((k@, n@)));
        },
    }
}

/// The value a parsed scalar stands for (see `parsed_scalar`).
pub fn parse_scalar(v: &str, float_text: Option<String>) -> (r: YamlValue)
    ensures
        r@ == parsed_scalar(v@, opt_view(float_text)),
{
    if str_eq(v, "null") || crate::text::chars_of(v).len() == 0 {
        return YamlValue::Null;
    }
    if str_eq(v, "true") {
        return YamlValue::Boolean(true);
    }
    if str_eq(v, "false") {
        return YamlValue::Boolean(false);
    }
    match parse_i64(v) {
        Some(i) => YamlValue::Number(YamlNumber::Integer(i)),
        None => match float_text {
            Some(f) => YamlValue::Number(YamlNumber::Float(f)),
            None => YamlValue::String(YamlString::Plain(str_to_string(v))),
        },
    }
}

impl TreeBuilder {
    /// The names of the anchors, in numbering order.
    pub closed spec fn names(&self) -> Seq<Seq<char>> {
        names_view(self.anchor_names@)
    }

    /// A builder with nothing read, knowing the anchors' names in numbering
    /// order.
    pub fn new(anchor_names: Vec<String>) -> (r: Self)
        ensures
            r@ == initial_builder(),
            r.names() == names_view(anchor_names@),
    {
        let r = TreeBuilder { stack: Vec::new(), anchor_names, documents: Vec::new() };
        assert(r@.stack =~= Seq::<FrameModel>::empty());
        assert(r@.documents =~= Seq::<NodeModel>::empty());
        r
    }

    /// The name of anchor number `anchor_id`, if it is known.
    pub fn get_anchor_name(&self, anchor_id: usize) -> (r: Option<String>)
        ensures
            opt_view(r) == anchor_name(self.names(), anchor_id as nat),
    {
        if anchor_id > 0 && anchor_id <= self.anchor_names.len() {
            Some(self.anchor_names[anchor_id - 1].clone())
        } else {
            None
        }
    }

    fn pop_frame(&mut self) -> (r: Option<BuildNode>)
        ensures
            final(self).names() == old(self).names(),
            match r {
                Some(f) => old(self)@.stack.len() > 0 && f@ == old(self)@.stack.last() && final(self)@
                    == (BuilderModel { stack: old(self)@.stack.drop_last(), ..old(self)@ }),
                None => old(self)@.stack.len() == 0 && final(self)@ == old(self)@,
            },
    {
        let ghost st = self.stack@;
        let r = self.stack.pop();
        proof {
            if r is Some {
                assert(frames_view(self.stack@) =~= frames_view(st).drop_last());
            }
        }
        r
    }

    fn push_frame(&mut self, f: BuildNode)
        ensures
            final(self).names() == old(self).names(),
            final(self)@ == (BuilderModel { stack: old(self)@.stack.push(f@), ..old(self)@ }),
    {
        let ghost st = self.stack@;
        self.stack.push(f);
        assert(frames_view(self.stack@) =~= frames_view(st).push(f@));
    }

    /// Puts a finished value into the innermost open container, or makes it
    /// a document (see `push_value`).
    pub fn push_value(&mut self, node: YamlNode)
        ensures
            final(self).names() == old(self).names(),
            final(self)@ == push_value(old(self)@, node@),
    {
        match self.pop_frame() {
            None => {
                let ghost d = self.documents@;
                self.documents.push(node);
                assert(nodes_model(self.documents@) =~= nodes_model(d).push(node@));
            },
            Some(frame) => {
                match frame {
                    BuildNode::Mapping { mut entries, anchor, current_key } => {
                        match current_key {
                            Some(key) => {
                                insert_entry(&mut entries, key, node);
                                self.push_frame(BuildNode::Mapping { entries, anchor, current_key: None });
                            },
                            None => {
                                self.push_frame(BuildNode::Mapping { entries, anchor, current_key: None });
                            },
                        }
                    },
                    BuildNode::Sequence { mut elements, anchor } => {
                        let ghost el = elements@;
                        elements.push(node);
                        assert(nodes_model(elements@) =~= nodes_model(el).push(node@));
                        self.push_frame(BuildNode::Sequence { elements, anchor });
                    },
                }
                assert(self@.stack =~= push_value(old(self)@, node@).stack);
            },
        }
    }

    /// Reads one event (see `step`).
    pub fn on_event(&mut self, ev: ParseEvent)
        ensures
            final(self).names() == old(self).names(),
            final(self)@ == step(old(self)@, old(self).names(), ev@),
    {
        match ev {
            ParseEvent::Nothing | ParseEvent::StreamStart | ParseEvent::StreamEnd
            | ParseEvent::DocumentEnd => {},
            ParseEvent::DocumentStart => {
                self.stack.clear();
                assert(self@.stack =~= Seq::<FrameModel>::empty());
            },
            ParseEvent::Alias(anchor_id) => {
                let name = match self.get_anchor_name(anchor_id) {
                    Some(n) => n,
                    None => {
                        let mut n = str_to_string("unknown_");
                        let digits = format_usize(anchor_id);
                        push_str(&mut n, digits.as_str());
                        n
                    },
                };
                let target = name.clone();
                let node = new_parsed_node(YamlValue::Alias(name), None, Some(target));
                self.push_value(node);
            },
            ParseEvent::Scalar(value, _style, anchor_id, float_text) => {
                let awaiting_key = match self.stack.last() {
                    Some(BuildNode::Mapping { current_key: None, .. }) => true,
                    _ => false,
                };
                if awaiting_key {
                    match self.pop_frame() {
                        Some(BuildNode::Mapping { entries, anchor, .. }) => {
                            self.push_frame(BuildNode::Mapping { entries, anchor, current_key: Some(value) });
                            assert(self@.stack =~= step(old(self)@, old(self).names(), ev@).stack);
                        },
                        _ => {},
                    }
                } else {
                    let v = parse_scalar(value.as_str(), float_text);
                    let anchor = self.get_anchor_name(anchor_id);
                    let node = new_parsed_node(v, anchor, None);
                    self.push_value(node);
                }
            },
            ParseEvent::SequenceStart(anchor_id) => {
                let anchor = self.get_anchor_name(anchor_id);
                let elements: Vec<YamlNode> = Vec::new();
                assert(nodes_model(elements@) =~= Seq::<NodeModel>::empty());
                let f = BuildNode::Sequence { elements, anchor };
                self.push_frame(f);
            },
            ParseEvent::MappingStart(anchor_id) => {
                let anchor = self.get_anchor_name(anchor_id);
                let entries: Vec<(String, YamlNode)> = Vec::new();
                assert(entries_model(entries@) =~= Seq::<(Seq<char>, NodeModel)>::empty());
                let f = BuildNode::Mapping { entries, anchor, current_key: None };
                self.push_frame(f);
            },
            ParseEvent::SequenceEnd => {
                match self.pop_frame() {
                    Some(BuildNode::Sequence { elements, anchor }) => {
                        proof {
                            crate::document::node::lemma_array_view(elements);
                        }
                        let node = new_parsed_node(YamlValue::Array(elements), anchor, None);
                        self.push_value(node);
                    },
                    _ => {},
                }
            },
            ParseEvent::MappingEnd => {
                match self.pop_frame() {
                    Some(BuildNode::Mapping { entries, anchor, .. }) => {
                        proof {
                            crate::document::node::lemma_object_view(entries);
                        }
                        let node = new_parsed_node(YamlValue::Object(entries), anchor, None);
                        self.push_value(node);
                    },
                    _ => {},
                }
            },
        }
    }

    /// The documents finished so far.
    pub fn into_documents(self) -> (r: Vec<YamlNode>)
        ensures
            nodes_model(r@) == self@.documents,
    {
        self.documents
    }
}

fn copy_event(e: &ParseEvent) -> (r: ParseEvent)
    ensures
        r@ == e@,
{
    match e {
        ParseEvent::Nothing => ParseEvent::Nothing,
        ParseEvent::StreamStart => ParseEvent::StreamStart,
        ParseEvent::StreamEnd => ParseEvent::StreamEnd,
        ParseEvent::DocumentStart => ParseEvent::DocumentStart,
        ParseEvent::DocumentEnd => ParseEvent::DocumentEnd,
        ParseEvent::Alias(id) => ParseEvent::Alias(*id),
        ParseEvent::Scalar(v, st, id, f) => ParseEvent::Scalar(v.clone(), *st, *id, copy_name(f)),
        ParseEvent::SequenceStart(id) => ParseEvent::SequenceStart(*id),
        ParseEvent::SequenceEnd => ParseEvent::SequenceEnd,
        ParseEvent::MappingStart(id) => ParseEvent::MappingStart(*id),
        ParseEvent::MappingEnd => ParseEvent::MappingEnd,
    }
}

/// Builds the documents described by `events`, anchors being named by
/// `anchor_names` in numbering order (see `run`).
pub fn build_documents(events: &Vec<ParseEvent>, anchor_names: Vec<String>) -> (r: Vec<YamlNode>)
    ensures
        nodes_model(r@) == run(initial_builder(), names_view(anchor_names@), events_view(events@), 0).documents,
{
    let ghost names = names_view(anchor_names@);
    let ghost evs = events_view(events@);
    let mut b = TreeBuilder::new(anchor_names);
    let mut i: usize = 0;
    while i < events.len()
        invariant
            b.names() == names,
            evs == events_view(events@),
            i <= events@.len(),
            run(b@, names, evs, i as nat) == run(initial_builder(), names, evs, 0),
        decreases events.len() - i,
    {
        let ev = copy_event(&events[i]);
        b.on_event(ev);
        i = i + 1;
    }
    b.into_documents()
}

/// The root of a parsed stream: its only document, or a multi-document
/// root holding all of them; an error when there is none.
pub fn documents_to_root(docs: Vec<YamlNode>) -> (r: Result<YamlNode, ParseError>)
    ensures
        docs@.len() == 0 ==> r == Err::<YamlNode, ParseError>(ParseError::NoDocuments),
        docs@.len() == 1 ==> (r matches Ok(n) && n@ == docs@[0]@),
        docs@.len() > 1 ==> (r matches Ok(n) && n@ == crate::document::node::fresh_model(
            ValueModel::MultiDoc(nodes_model(docs@)),
        )),
{
    if docs.len() == 0 {
        Err(ParseError::NoDocuments)
    } else if docs.len() == 1 {
        let mut docs = docs;
        let d = docs.remove(0);
        Ok(d)
    } else {
        proof {
            crate::document::node::lemma_array_view(docs);
        }
        Ok(YamlNode::new(YamlValue::MultiDoc(docs)))
    }
}

#[verifier::external_type_specification]
pub struct ExTag(Tag);

#[verifier::external_type_specification]
pub struct ExTScalarStyle(TScalarStyle);

#[verifier::external_type_specification]
pub struct ExEvent(Event);

/// The scalar style of the parser's style.
pub fn style_of(st: TScalarStyle) -> (r: ScalarStyle)
    ensures
        r == match st {
            TScalarStyle::Plain => ScalarStyle::Plain,
            TScalarStyle::SingleQuoted => ScalarStyle::SingleQuoted,
            TScalarStyle::DoubleQuoted => ScalarStyle::DoubleQuoted,
            TScalarStyle::Literal => ScalarStyle::Literal,
            TScalarStyle::Folded => ScalarStyle::Folded,
        },
{
    match st {
        TScalarStyle::Plain => ScalarStyle::Plain,
        TScalarStyle::SingleQuoted => ScalarStyle::SingleQuoted,
        TScalarStyle::DoubleQuoted => ScalarStyle::DoubleQuoted,
        TScalarStyle::Literal => ScalarStyle::Literal,
        TScalarStyle::Folded => ScalarStyle::Folded,
    }
}

/// The model of one of the parser's events; tags are dropped and no scalar
/// carries a float text yet.
pub open spec fn event_model(ev: Event) -> EventModel {
    match ev {
        Event::Alias(id) => EventModel::Alias(id as nat),
        Event::Scalar(v, _, id, _) => EventModel::Scalar(v@, id as nat, None),
        Event::DocumentStart => EventModel::DocumentStart,
        Event::SequenceStart(id, _) => EventModel::SequenceStart(id as nat),
        Event::SequenceEnd => EventModel::SequenceEnd,
        Event::MappingStart(id, _) => EventModel::MappingStart(id as nat),
        Event::MappingEnd => EventModel::MappingEnd,
        _ => EventModel::Ignored,
    }
}

/// The library's event for one of the parser's events; tags are dropped
/// and no scalar carries a float text yet.
pub fn event_of(ev: Event) -> (r: ParseEvent)
    ensures
        r@ == event_model(ev),
{
    match ev {
        Event::Nothing => ParseEvent::Nothing,
        Event::StreamStart => ParseEvent::StreamStart,
        Event::StreamEnd => ParseEvent::StreamEnd,
        Event::DocumentStart => ParseEvent::DocumentStart,
        Event::DocumentEnd => ParseEvent::DocumentEnd,
        Event::Alias(id) => ParseEvent::Alias(id),
        Event::Scalar(v, st, id, _) => ParseEvent::Scalar(v, style_of(st), id, None),
        Event::SequenceStart(id, _) => ParseEvent::SequenceStart(id),
        Event::SequenceEnd => ParseEvent::SequenceEnd,
        Event::MappingStart(id, _) => ParseEvent::MappingStart(id),
        Event::MappingEnd => ParseEvent::MappingEnd,
    }
}

/// The events a YAML parser reports for `text`, none when the text is not
/// well-formed YAML.
pub uninterp spec fn yaml_events(text: Seq<char>) -> Option<Seq<EventModel>>;

/// For each token that yaml-rust2's scanner reads from `text`, in order:
/// the anchor's name for an anchor token, none for any other token.
pub uninterp spec fn yaml_token_anchors(text: Seq<char>) -> Seq<Option<Seq<char>>>;

/// The anchor names among `toks`, in order.
pub open spec fn anchors_of(toks: Seq<Option<Seq<char>>>) -> Seq<Seq<char>>
    decreases toks.len(),
{
    if toks.len() == 0 {
        Seq::empty()
    } else {
        let rest = anchors_of(toks.drop_last());
        match toks.last() {
            Some(name) => rest.push(name),
            None => rest,
        }
    }
}

/// The view of a list of optional strings.
pub open spec fn opt_names_view(v: Seq<Option<String>>) -> Seq<Option<Seq<char>>> {
    v.map_values(|o: Option<String>| match o {
        Some(s) => Some(s@),
        None => None,
    })
}

/// The parser's events for `text`, up to the end of the stream.
///
/// Trusted: runs yaml-rust2's `Parser::next_token` from `Parser::new_from_str`
/// and collects the events until the end-of-stream event; none when the
/// parser reports an error. Their models (see `event_model`) are named
/// `yaml_events`.
#[verifier::external_body]
fn parser_raw_events(text: &str) -> (r: Option<Vec<Event>>)
    ensures
        match r {
            Some(v) => yaml_events(text@) == Some(v@.map_values(|e: Event| event_model(e))),
            None => yaml_events(text@) is None,
        },
{
    let mut parser = Parser::new_from_str(text);
    let mut out = Vec::new();
    loop {
        match parser.next_token() {
            Ok((Event::StreamEnd, _)) => return Some(out),
            Ok((ev, _)) => out.push(ev),
            Err(_) => return None,
        }
    }
}

/// The library's events for the parser's events, in order.
fn events_of(raw: Vec<Event>) -> (r: Vec<ParseEvent>)
    ensures
        events_view(r@) == raw@.map_values(|e: Event| event_model(e)),
{
    let ghost orig = raw@;
    let mut rest = raw;
    let mut rev: Vec<ParseEvent> = Vec::new();
    while rest.len() > 0
        invariant
            rest@ == orig.subrange(0, rest@.len() as int),
            rev@.len() + rest@.len() == orig.len(),
            forall|i: int| 0 <= i < rev@.len() ==> #[trigger] rev@[i]@ == event_model(orig[orig.len() - 1 - i]),
        decreases rest@.len(),
    {
        let ev = rest.pop().unwrap();
        rev.push(event_of(ev));
    }
    let mut out: Vec<ParseEvent> = Vec::new();
    while rev.len() > 0
        invariant
            out@.len() + rev@.len() == orig.len(),
            forall|j: int| 0 <= j < out@.len() ==> #[trigger] out@[j]@ == event_model(orig[j]),
            forall|i: int| 0 <= i < rev@.len() ==> #[trigger] rev@[i]@ == event_model(orig[orig.len() - 1 - i]),
        decreases rev@.len(),
    {
        let e = rev.pop().unwrap();
        out.push(e);
    }
    assert(events_view(out@) =~= orig.map_values(|e: Event| event_model(e)));
    out
}

/// The parser's events for `text` as the library's events; none when the
/// parser reports an error.
fn parser_events(text: &str) -> (r: Option<Vec<ParseEvent>>)
    ensures
        match r {
            Some(v) => yaml_events(text@) == Some(events_view(v@)),
            None => yaml_events(text@) is None,
        },
{
    match parser_raw_events(text) {
        Some(raw) => Some(events_of(raw)),
        None => None,
    }
}

/// The tokens of `text`, each as the anchor name it defines, if any.
///
/// Trusted: walks yaml-rust2's `Scanner` over the characters of `text` and
/// gives, for each token in order, the name of an anchor token or none.
/// The result is named `yaml_token_anchors`.
#[verifier::external_body]
fn scanner_token_anchors(text: &str) -> (r: Vec<Option<String>>)
    ensures
        opt_names_view(r@) == yaml_token_anchors(text@),
{
    let mut out = Vec::new();
    for token in Scanner::new(text.chars()) {
        out.push(match token.1 {
            TokenType::Anchor(name) => Some(name),
            _ => None,
        });
    }
    out
}

/// The anchor names of `toks`, in order.
pub fn anchor_names_of(toks: Vec<Option<String>>) -> (r: Vec<String>)
    ensures
        names_view(r@) == anchors_of(opt_names_view(toks@)),
{
    let mut out: Vec<String> = Vec::new();
    let mut i: usize = 0;
    while i < toks.len()
        invariant
            i <= toks.len(),
            names_view(out@) == anchors_of(opt_names_view(toks@).take(i as int)),
        decreases toks.len() - i,
    {
        proof {
            assert(opt_names_view(toks@).take(i + 1).drop_last() =~= opt_names_view(toks@).take(i as int));
        }
        match &toks[i] {
            Some(name) => {
                out.push(name.clone());
                assert(names_view(out@) =~= anchors_of(opt_names_view(toks@).take(i + 1)));
            },
            None => {},
        }
        i = i + 1;
    }
    assert(opt_names_view(toks@).take(toks.len() as int) =~= opt_names_view(toks@));
    out
}

/// The anchor number an event defines (0 for none).
pub open spec fn anchor_of(e: EventModel) -> nat {
    match e {
        EventModel::Scalar(_, id, _) => id,
        EventModel::SequenceStart(id) => id,
        EventModel::MappingStart(id) => id,
        _ => 0,
    }
}

/// After the first `n` events: the highest anchor number defined before
/// the current document, the highest defined so far, and whether every
/// alias so far names an anchor of its own document. Anchor numbers only
/// grow, so an anchor of the current document is numbered above the first.
pub open spec fn scope_scan(evs: Seq<EventModel>, n: nat) -> (nat, nat, bool)
    decreases n,
{
    if n == 0 || n > evs.len() {
        (0, 0, true)
    } else {
        let (base, top, ok) = scope_scan(evs, (n - 1) as nat);
        match evs[n - 1] {
            EventModel::DocumentStart => (top, top, ok),
            EventModel::Alias(id) => (base, top, ok && id > base),
            e => (base, if anchor_of(e) > top { anchor_of(e) } else { top }, ok),
        }
    }
}

/// Every alias names an anchor defined in its own document: the anchors
/// are forgotten when a new document starts.
pub open spec fn aliases_in_scope(evs: Seq<EventModel>) -> bool {
    scope_scan(evs, evs.len()).2
}

/// Whether every alias among `events` names an anchor of its own document.
pub fn aliases_in_own_document(events: &Vec<ParseEvent>) -> (r: bool)
    ensures
        r == aliases_in_scope(events_view(events@)),
{
    let ghost evs = events_view(events@);
    let mut base: usize = 0;
    let mut top: usize = 0;
    let mut i: usize = 0;
    while i < events.len()
        invariant
            i <= events@.len(),
            evs == events_view(events@),
            scope_scan(evs, i as nat) == (base as nat, top as nat, true),
        decreases events@.len() - i,
    {
        match &events[i] {
            ParseEvent::DocumentStart => {
                base = top;
            },
            ParseEvent::Alias(id) => {
                if *id <= base {
                    proof {
                        lemma_scope_fails_stay(evs, (i + 1) as nat, evs.len());
                    }
                    return false;
                }
            },
            ParseEvent::Scalar(_, _, id, _) => {
                if *id > top {
                    top = *id;
                }
            },
            ParseEvent::SequenceStart(id) => {
                if *id > top {
                    top = *id;
                }
            },
            ParseEvent::MappingStart(id) => {
                if *id > top {
                    top = *id;
                }
            },
            _ => {},
        }
        i = i + 1;
    }
    true
}

proof fn lemma_scope_fails_stay(evs: Seq<EventModel>, j: nat, n: nat)
    requires
        j <= n <= evs.len(),
        !scope_scan(evs, j).2,
    ensures
        !scope_scan(evs, n).2,
    decreases n - j,
{
    if n > j {
        lemma_scope_fails_stay(evs, j, (n - 1) as nat);
    }
}

/// The parse events of `text` and the names of its anchors; a syntax error
/// when the parser refuses the text, or when an alias names an anchor of an
/// earlier document (each document starts with no anchors). No scalar carries a float text yet:
/// the caller adds the display text of each scalar that reads as a
/// floating-point number before building the documents.
pub fn parse_events(text: &str) -> (r: Result<(Vec<ParseEvent>, Vec<String>), ParseError>)
    ensures
        match yaml_events(text@) {
            Some(evs) => if aliases_in_scope(evs) {
                r matches Ok((v, names)) && events_view(v@) == evs && names_view(names@) == anchors_of(
                    yaml_token_anchors(text@),
                )
            } else {
                r == Err::<(Vec<ParseEvent>, Vec<String>), ParseError>(ParseError::Syntax)
            },
            None => r == Err::<(Vec<ParseEvent>, Vec<String>), ParseError>(ParseError::Syntax),
        },
{
    match parser_events(text) {
        Some(v) => {
            if aliases_in_own_document(&v) {
                Ok((v, anchor_names_of(scanner_token_anchors(text))))
            } else {
                Err(ParseError::Syntax)
            }
        },
        None => Err(ParseError::Syntax),
    }
}

/// The root of the documents described by `events`, anchors being named by
/// `anchor_names` (see `build_documents` and `documents_to_root`).
pub fn parse_yaml_auto(events: &Vec<ParseEvent>, anchor_names: Vec<String>) -> (r: Result<YamlNode, ParseError>)
    ensures
        ({
            let docs = run(initial_builder(), names_view(anchor_names@), events_view(events@), 0).documents;
            &&& docs.len() == 0 ==> r == Err::<YamlNode, ParseError>(ParseError::NoDocuments)
            &&& docs.len() == 1 ==> (r matches Ok(n) && n@ == docs[0])
            &&& docs.len() > 1 ==> (r matches Ok(n) && n@ == crate::document::node::fresh_model(ValueModel::MultiDoc(docs)))
        }),
{
    let docs = build_documents(events, anchor_names);
    documents_to_root(docs)
}

} // verus!
