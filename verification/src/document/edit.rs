//! Structural edits of a node tree: removing and inserting children of the
//! node found at a path.

use vstd::prelude::*;
use crate::document::node::{
    entries_model, lemma_array_view, lemma_object_view, node_at, nodes_model, reveal_views,
    NodeMetadata, NodeModel, ValueModel, YamlNode, YamlValue,
};
use crate::text::{format_usize, nat_text, push_str, str_to_string};

verus! {

broadcast use vstd::std_specs::vec::group_vec_axioms;

/// Why a structural edit was refused.
#[derive(Debug, Clone, PartialEq, Eq)]
pub enum TreeError {
    /// The root itself cannot be deleted
    CannotDeleteRoot,
    /// No node exists at the parent path
    ParentNotFound,
    /// The index is past the end of the mapping
    ObjectIndexOutOfBounds { index: usize, len: usize },
    /// The index is past the end of the sequence
    ArrayIndexOutOfBounds { index: usize, len: usize },
    /// The parent of a deleted node holds no children
    ParentNotContainer,
    /// An entry was to be inserted into something other than a mapping
    TargetNotObject,
    /// An element was to be inserted into something other than a sequence
    TargetNotArray,
}

impl TreeError {
    /// The message that describes this error.
    pub fn message(&self) -> (r: String)
        ensures
            r@ == self.message_text(),
    {
        match self {
            TreeError::CannotDeleteRoot => str_to_string("Cannot delete root node"),
            TreeError::ParentNotFound => str_to_string("Parent node not found"),
            TreeError::ObjectIndexOutOfBounds { index, len } => {
                let mut r = str_to_string("Index ");
                let a = format_usize(*index);
                push_str(&mut r, a.as_str());
                push_str(&mut r, " out of bounds for object with ");
                let b = format_usize(*len);
                push_str(&mut r, b.as_str());
                push_str(&mut r, " entries");
                r
            },
            TreeError::ArrayIndexOutOfBounds { index, len } => {
                let mut r = str_to_string("Index ");
                let a = format_usize(*index);
                push_str(&mut r, a.as_str());
                push_str(&mut r, " out of bounds for array with ");
                let b = format_usize(*len);
                push_str(&mut r, b.as_str());
                push_str(&mut r, " elements");
                r
            },
            TreeError::ParentNotContainer => str_to_string("Parent is not a container type"),
            TreeError::TargetNotObject => str_to_string("Target is not an object"),
            TreeError::TargetNotArray => str_to_string("Target is not an array"),
        }
    }

    pub open spec fn message_text(&self) -> Seq<char> {
        match self {
            TreeError::CannotDeleteRoot => "Cannot delete root node"@,
            TreeError::ParentNotFound => "Parent node not found"@,
            TreeError::ObjectIndexOutOfBounds { index, len } => "Index "@ + nat_text(*index as nat)
                + " out of bounds for object with "@ + nat_text(*len as nat) + " entries"@,
            TreeError::ArrayIndexOutOfBounds { index, len } => "Index "@ + nat_text(*index as nat)
                + " out of bounds for array with "@ + nat_text(*len as nat) + " elements"@,
            TreeError::ParentNotContainer => "Parent is not a container type"@,
            TreeError::TargetNotObject => "Target is not an object"@,
            TreeError::TargetNotArray => "Target is not an array"@,
        }
    }
}

/// An edit applied to the children of one node.
pub enum EditOp {
    /// Remove the child at this index
    Remove(usize),
    /// Insert a mapping entry at this index
    InsertEntry(usize, String, YamlNode),
    /// Insert a sequence element at this index
    InsertElement(usize, YamlNode),
}

/// Model of an edit.
pub enum EditModel {
    Remove(usize),
    InsertEntry(usize, Seq<char>, NodeModel),
    InsertElement(usize, NodeModel),
}

impl View for EditOp {
    type V = EditModel;

    open spec fn view(&self) -> EditModel {
        match self {
            EditOp::Remove(i) => EditModel::Remove(*i),
            EditOp::InsertEntry(i, k, n) => EditModel::InsertEntry(*i, k@, n@),
            EditOp::InsertElement(i, n) => EditModel::InsertElement(*i, n@),
        }
    }
}

/// First position of key `k` among the entries of a mapping.
pub open spec fn key_position(e: Seq<(Seq<char>, NodeModel)>, k: Seq<char>) -> Option<int> {
    if exists|j: int| 0 <= j < e.len() && #[trigger] e[j].0 == k {
        Some(
            choose|j: int|
                0 <= j < e.len() && #[trigger] e[j].0 == k && forall|m: int|
                    0 <= m < j ==> e[m].0 != k,
        )
    } else {
        None
    }
}

/// Inserting `(k, n)` at `index` into a mapping: an existing entry with the
/// same key keeps its key, takes the new node and moves to `index`; otherwise
/// the new entry is inserted at `index`.
pub open spec fn shift_insert_model(
    e: Seq<(Seq<char>, NodeModel)>,
    index: int,
    k: Seq<char>,
    n: NodeModel,
) -> Seq<(Seq<char>, NodeModel)> {
    match key_position(e, k) {
        Some(j) => e.remove(j).insert(index, (e[j].0, n)),
        None => e.insert(index, (k, n)),
    }
}

/// An insertion that the editing operations refuse to make: moving an
/// existing key to the end position.
pub open spec fn entry_move_out_of_range(v: ValueModel, op: EditModel) -> bool {
    match (v, op) {
        (ValueModel::Object(e), EditModel::InsertEntry(i, k, _)) => i == e.len() && key_position(
            e,
            k,
        ) is Some,
        _ => false,
    }
}

/// Removing the `i`-th child of a value.
pub open spec fn remove_model(v: ValueModel, i: usize) -> (ValueModel, Result<(), TreeError>) {
    match v {
        ValueModel::Object(e) => if i >= e.len() {
            (v, Err(TreeError::ObjectIndexOutOfBounds { index: i, len: e.len() as usize }))
        } else {
            (ValueModel::Object(e.remove(i as int)), Ok(()))
        },
        ValueModel::Array(a) => if i >= a.len() {
            (v, Err(TreeError::ArrayIndexOutOfBounds { index: i, len: a.len() as usize }))
        } else {
            (ValueModel::Array(a.remove(i as int)), Ok(()))
        },
        ValueModel::MultiDoc(a) => if i >= a.len() {
            (v, Err(TreeError::ArrayIndexOutOfBounds { index: i, len: a.len() as usize }))
        } else {
            (ValueModel::MultiDoc(a.remove(i as int)), Ok(()))
        },
        _ => (v, Err(TreeError::ParentNotContainer)),
    }
}

/// Inserting the entry `(k, c)` at position `i` of a mapping.
pub open spec fn insert_entry_model(v: ValueModel, i: usize, k: Seq<char>, c: NodeModel) -> (
    ValueModel,
    Result<(), TreeError>,
) {
    match v {
        ValueModel::Object(e) => if i > e.len() {
            (v, Err(TreeError::ObjectIndexOutOfBounds { index: i, len: e.len() as usize }))
        } else {
            (ValueModel::Object(shift_insert_model(e, i as int, k, c)), Ok(()))
        },
        _ => (v, Err(TreeError::TargetNotObject)),
    }
}

/// Inserting the element `c` at position `i` of a sequence.
pub open spec fn insert_element_model(v: ValueModel, i: usize, c: NodeModel) -> (
    ValueModel,
    Result<(), TreeError>,
) {
    match v {
        ValueModel::Array(a) => if i > a.len() {
            (v, Err(TreeError::ArrayIndexOutOfBounds { index: i, len: a.len() as usize }))
        } else {
            (ValueModel::Array(a.insert(i as int, c)), Ok(()))
        },
        ValueModel::MultiDoc(a) => if i > a.len() {
            (v, Err(TreeError::ArrayIndexOutOfBounds { index: i, len: a.len() as usize }))
        } else {
            (ValueModel::MultiDoc(a.insert(i as int, c)), Ok(()))
        },
        _ => (v, Err(TreeError::TargetNotArray)),
    }
}

/// The result of applying `op` to the node `n`: the node after the edit
/// (marked modified whether or not the edit succeeds) and the outcome.
pub open spec fn apply_edit_model(n: NodeModel, op: EditModel) -> (NodeModel, Result<(), TreeError>) {
    let (v2, r) = match op {
        EditModel::Remove(i) => remove_model(n.value, i),
        EditModel::InsertEntry(i, k, c) => insert_entry_model(n.value, i, k, c),
        EditModel::InsertElement(i, c) => insert_element_model(n.value, i, c),
    };
    (NodeModel { value: v2, metadata: NodeMetadata { modified: true, ..n.metadata }, ..n }, r)
}

/// The value `v` with its `i`-th child replaced by `c`.
pub open spec fn with_child(v: ValueModel, i: int, c: NodeModel) -> ValueModel {
    match v {
        ValueModel::Object(e) => ValueModel::Object(e.update(i, (e[i].0, c))),
        ValueModel::Array(a) => ValueModel::Array(a.update(i, c)),
        ValueModel::MultiDoc(a) => ValueModel::MultiDoc(a.update(i, c)),
        _ => v,
    }
}

/// The tree `n` with the node at `path` replaced by `new` (unchanged when
/// there is no node at `path`).
pub open spec fn update_at(n: NodeModel, path: Seq<usize>, new: NodeModel) -> NodeModel
    decreases path.len(),
{
    if path.len() == 0 {
        new
    } else {
        match n.value.child(path[0] as int) {
            Some(c) => NodeModel {
                value: with_child(n.value, path[0] as int, update_at(c, path.drop_first(), new)),
                ..n
            },
            None => n,
        }
    }
}

/// The outcome of applying `op` to the node at `path` below `n`.
pub open spec fn edit_at_model(n: NodeModel, path: Seq<usize>, op: EditModel) -> (
    NodeModel,
    Result<(), TreeError>,
) {
    match node_at(n, path) {
        None => (n, Err(TreeError::ParentNotFound)),
        Some(target) => {
            let (t2, r) = apply_edit_model(target, op);
            (update_at(n, path, t2), r)
        },
    }
}

/// No node on the way to `path` is asked to move an existing key past the end.
pub open spec fn edit_allowed(n: NodeModel, path: Seq<usize>, op: EditModel) -> bool {
    match node_at(n, path) {
        Some(t) => !entry_move_out_of_range(t.value, op),
        None => true,
    }
}

/// Inserting an entry under a key that the mapping does not hold is
/// always allowed.
pub proof fn lemma_fresh_key_allowed(n: NodeModel, path: Seq<usize>, i: usize, k: Seq<char>, c: NodeModel)
    requires
        node_at(n, path) matches Some(t) && (t.value matches ValueModel::Object(e) && key_position(e, k) is None),
    ensures
        edit_allowed(n, path, EditModel::InsertEntry(i, k, c)),
{
}

/// After replacing the node at `path`, the node found there is the new one.
proof fn lemma_node_at_update(n: NodeModel, path: Seq<usize>, new: NodeModel)
    requires
        node_at(n, path) is Some,
    ensures
        node_at(update_at(n, path, new), path) == Some(new),
    decreases path.len(),
{
    if path.len() > 0 {
        let c = n.value.child(path[0] as int)->0;
        lemma_node_at_update(c, path.drop_first(), new);
    }
}

/// Replacing the node at `path` twice leaves only the second replacement.
proof fn lemma_update_twice(n: NodeModel, path: Seq<usize>, a: NodeModel, b: NodeModel)
    requires
        node_at(n, path) is Some,
    ensures
        update_at(update_at(n, path, a), path, b) == update_at(n, path, b),
    decreases path.len(),
{
    if path.len() > 0 {
        let i = path[0] as int;
        let c = n.value.child(i)->0;
        lemma_update_twice(c, path.drop_first(), a, b);
        let ca = update_at(c, path.drop_first(), a);
        let v1 = with_child(n.value, i, ca);
        assert(v1.child(i) == Some(ca));
        match n.value {
            ValueModel::Object(e) => {
                assert(e.update(i, (e[i].0, ca)).update(i, (e[i].0, update_at(ca, path.drop_first(), b))) =~= e.update(
                    i,
                    (e[i].0, update_at(c, path.drop_first(), b)),
                ));
            },
            ValueModel::Array(v) => {
                assert(v.update(i, ca).update(i, update_at(ca, path.drop_first(), b)) =~= v.update(
                    i,
                    update_at(c, path.drop_first(), b),
                ));
            },
            ValueModel::MultiDoc(v) => {
                assert(v.update(i, ca).update(i, update_at(ca, path.drop_first(), b)) =~= v.update(
                    i,
                    update_at(c, path.drop_first(), b),
                ));
            },
            _ => {},
        }
    }
}

/// Removing an element right after inserting it at the same place gives
/// back the document, but for the sequence that held it being marked
/// modified.
pub proof fn law_remove_undoes_insert_element(n: NodeModel, path: Seq<usize>, i: usize, c: NodeModel)
    requires
        node_at(n, path) matches Some(t) && ((t.value matches ValueModel::Array(v) && i <= v.len())
            || (t.value matches ValueModel::MultiDoc(v) && i <= v.len())),
    ensures
        ({
            let t = node_at(n, path)->0;
            let (n1, r1) = edit_at_model(n, path, EditModel::InsertElement(i, c));
            let (n2, r2) = edit_at_model(n1, path, EditModel::Remove(i));
            &&& r1 is Ok
            &&& r2 is Ok
            &&& n2 == update_at(n, path, NodeModel { metadata: NodeMetadata { modified: true, ..t.metadata }, ..t })
        }),
{
    let t = node_at(n, path)->0;
    let (t1, r1) = apply_edit_model(t, EditModel::InsertElement(i, c));
    lemma_node_at_update(n, path, t1);
    let n1 = update_at(n, path, t1);
    let (t2, r2) = apply_edit_model(t1, EditModel::Remove(i));
    lemma_update_twice(n, path, t1, t2);
    match t.value {
        ValueModel::Array(v) => {
            assert(v.insert(i as int, c).remove(i as int) =~= v);
        },
        ValueModel::MultiDoc(v) => {
            assert(v.insert(i as int, c).remove(i as int) =~= v);
        },
        _ => {},
    }
    assert(t2 == NodeModel { metadata: NodeMetadata { modified: true, ..t.metadata }, ..t });
}

/// Removing an entry right after inserting it under a key the mapping does
/// not hold, at the same place, gives back the document, but for the
/// mapping being marked modified.
pub proof fn law_remove_undoes_insert_entry(n: NodeModel, path: Seq<usize>, i: usize, k: Seq<char>, c: NodeModel)
    requires
        node_at(n, path) matches Some(t) && (t.value matches ValueModel::Object(e) && i <= e.len() && key_position(e, k) is None),
    ensures
        ({
            let t = node_at(n, path)->0;
            let (n1, r1) = edit_at_model(n, path, EditModel::InsertEntry(i, k, c));
            let (n2, r2) = edit_at_model(n1, path, EditModel::Remove(i));
            &&& r1 is Ok
            &&& r2 is Ok
            &&& n2 == update_at(n, path, NodeModel { metadata: NodeMetadata { modified: true, ..t.metadata }, ..t })
        }),
{
    let t = node_at(n, path)->0;
    let (t1, r1) = apply_edit_model(t, EditModel::InsertEntry(i, k, c));
    lemma_node_at_update(n, path, t1);
    let (t2, r2) = apply_edit_model(t1, EditModel::Remove(i));
    lemma_update_twice(n, path, t1, t2);
    match t.value {
        ValueModel::Object(e) => {
            assert(e.insert(i as int, (k, c)).remove(i as int) =~= e);
        },
        _ => {},
    }
    assert(t2 == NodeModel { metadata: NodeMetadata { modified: true, ..t.metadata }, ..t });
}

pub(crate) fn find_entry(e: &Vec<(String, YamlNode)>, k: &String) -> (r: Option<usize>)
    ensures
        match r {
            Some(j) => j < e@.len() && key_position(entries_model(e@), k@) == Some(j as int),
            None => key_position(entries_model(e@), k@) is None,
        },
{
    let ghost em = entries_model(e@);
    let mut i: usize = 0;
    while i < e.len()
        invariant
            i <= e@.len(),
            em == entries_model(e@),
            forall|m: int| 0 <= m < i ==> em[m].0 != k@,
        decreases e.len() - i,
    {
        if e[i].0 == *k {
            assert(em[i as int].0 == k@);
            let ghost j = choose|j: int|
                0 <= j < em.len() && #[trigger] em[j].0 == k@ && forall|m: int|
                    0 <= m < j ==> em[m].0 != k@;
            assert(j == i) by {
                if j < i {
                } else if j > i {
                    assert(em[i as int].0 != k@);
                }
            }
            return Some(i);
        }
        i = i + 1;
    }
    assert(!exists|j: int| 0 <= j < em.len() && #[trigger] em[j].0 == k@);
    None
}

proof fn lemma_entries_remove(e: Seq<(String, YamlNode)>, i: int)
    requires
        0 <= i < e.len(),
    ensures
        entries_model(e.remove(i)) == entries_model(e).remove(i),
{
    assert(entries_model(e.remove(i)) =~= entries_model(e).remove(i));
}

proof fn lemma_entries_insert(e: Seq<(String, YamlNode)>, i: int, x: (String, YamlNode))
    requires
        0 <= i <= e.len(),
    ensures
        entries_model(e.insert(i, x)) == entries_model(e).insert(i, (x.0@, x.1@)),
{
    assert(entries_model(e.insert(i, x)) =~= entries_model(e).insert(i, (x.0@, x.1@)));
}

proof fn lemma_entries_update(e: Seq<(String, YamlNode)>, i: int, x: (String, YamlNode))
    requires
        0 <= i < e.len(),
    ensures
        entries_model(e.update(i, x)) == entries_model(e).update(i, (x.0@, x.1@)),
{
    assert(entries_model(e.update(i, x)) =~= entries_model(e).update(i, (x.0@, x.1@)));
}

proof fn lemma_nodes_remove(v: Seq<YamlNode>, i: int)
    requires
        0 <= i < v.len(),
    ensures
        nodes_model(v.remove(i)) == nodes_model(v).remove(i),
{
    assert(nodes_model(v.remove(i)) =~= nodes_model(v).remove(i));
}

proof fn lemma_nodes_insert(v: Seq<YamlNode>, i: int, x: YamlNode)
    requires
        0 <= i <= v.len(),
    ensures
        nodes_model(v.insert(i, x)) == nodes_model(v).insert(i, x@),
{
    assert(nodes_model(v.insert(i, x)) =~= nodes_model(v).insert(i, x@));
}

proof fn lemma_nodes_update(v: Seq<YamlNode>, i: int, x: YamlNode)
    requires
        0 <= i < v.len(),
    ensures
        nodes_model(v.update(i, x)) == nodes_model(v).update(i, x@),
{
    assert(nodes_model(v.update(i, x)) =~= nodes_model(v).update(i, x@));
}

fn remove_child(v: &mut YamlValue, i: usize) -> (r: Result<(), TreeError>)
    ensures
        (final(v)@, r) == remove_model(old(v)@, i),
{
    proof {
        reveal_views(v);
    }
    match v {
        YamlValue::Object(e) => {
            if i >= e.len() {
                return Err(TreeError::ObjectIndexOutOfBounds { index: i, len: e.len() });
            }
            proof {
                lemma_entries_remove(e@, i as int);
            }
            e.remove(i);
            proof {
                lemma_object_view(*e);
            }
            Ok(())
        },
        YamlValue::Array(a) => {
            if i >= a.len() {
                return Err(TreeError::ArrayIndexOutOfBounds { index: i, len: a.len() });
            }
            proof {
                lemma_nodes_remove(a@, i as int);
            }
            a.remove(i);
            proof {
                lemma_array_view(*a);
            }
            Ok(())
        },
        YamlValue::MultiDoc(a) => {
            if i >= a.len() {
                return Err(TreeError::ArrayIndexOutOfBounds { index: i, len: a.len() });
            }
            proof {
                lemma_nodes_remove(a@, i as int);
            }
            a.remove(i);
            proof {
                lemma_array_view(*a);
            }
            Ok(())
        },
        _ => Err(TreeError::ParentNotContainer),
    }
}

fn insert_entry(v: &mut YamlValue, i: usize, k: String, c: YamlNode) -> (r: Result<(), TreeError>)
    requires
        !entry_move_out_of_range(old(v)@, EditModel::InsertEntry(i, k@, c@)),
    ensures
        (final(v)@, r) == insert_entry_model(old(v)@, i, k@, c@),
{
    proof {
        reveal_views(v);
    }
    match v {
        YamlValue::Object(e) => {
            if i > e.len() {
                return Err(TreeError::ObjectIndexOutOfBounds { index: i, len: e.len() });
            }
            match find_entry(e, &k) {
                Some(j) => {
                    proof {
                        lemma_entries_remove(e@, j as int);
                    }
                    let (old_key, _old_node) = e.remove(j);
                    proof {
                        lemma_entries_insert(e@, i as int, (old_key, c));
                    }
                    e.insert(i, (old_key, c));
                },
                None => {
                    proof {
                        lemma_entries_insert(e@, i as int, (k, c));
                    }
                    e.insert(i, (k, c));
                },
            }
            proof {
                lemma_object_view(*e);
            }
            Ok(())
        },
        _ => Err(TreeError::TargetNotObject),
    }
}

fn insert_element(v: &mut YamlValue, i: usize, c: YamlNode) -> (r: Result<(), TreeError>)
    ensures
        (final(v)@, r) == insert_element_model(old(v)@, i, c@),
{
    proof {
        reveal_views(v);
    }
    match v {
        YamlValue::Array(a) => {
            if i > a.len() {
                return Err(TreeError::ArrayIndexOutOfBounds { index: i, len: a.len() });
            }
            proof {
                lemma_nodes_insert(a@, i as int, c);
            }
            a.insert(i, c);
            proof {
                lemma_array_view(*a);
            }
            Ok(())
        },
        YamlValue::MultiDoc(a) => {
            if i > a.len() {
                return Err(TreeError::ArrayIndexOutOfBounds { index: i, len: a.len() });
            }
            proof {
                lemma_nodes_insert(a@, i as int, c);
            }
            a.insert(i, c);
            proof {
                lemma_array_view(*a);
            }
            Ok(())
        },
        _ => Err(TreeError::TargetNotArray),
    }
}

/// Applies `op` to the children of `n` itself.
pub fn apply_edit(n: &mut YamlNode, op: EditOp) -> (r: Result<(), TreeError>)
    requires
        !entry_move_out_of_range(old(n)@.value, op@),
    ensures
        (final(n)@, r) == apply_edit_model(old(n)@, op@),
{
    n.metadata.modified = true;
    match op {
        EditOp::Remove(i) => remove_child(&mut n.value, i),
        EditOp::InsertEntry(i, k, c) => insert_entry(&mut n.value, i, k, c),
        EditOp::InsertElement(i, c) => insert_element(&mut n.value, i, c),
    }
}

/// Applies `op` to the node found by following `path[depth..]` from `n`.
pub fn edit_at(n: &mut YamlNode, path: &[usize], depth: usize, op: EditOp) -> (r: Result<(), TreeError>)
    requires
        depth <= path@.len(),
        edit_allowed(old(n)@, path@.subrange(depth as int, path@.len() as int), op@),
    ensures
        (final(n)@, r) == edit_at_model(old(n)@, path@.subrange(depth as int, path@.len() as int), op@),
    decreases path@.len() - depth,
{
    let ghost p = path@.subrange(depth as int, path@.len() as int);
    if depth == path.len() {
        assert(p.len() == 0);
        return apply_edit(n, op);
    }
    let i = path[depth];
    let ghost rest = path@.subrange(depth + 1, path@.len() as int);
    assert(p.drop_first() =~= rest);
    assert(p[0] == i);
    let ghost n0 = n@;
    proof {
        reveal_views(&n.value);
    }
    match &mut n.value {
        YamlValue::Object(e) => {
            if i >= e.len() {
                return Err(TreeError::ParentNotFound);
            }
            let ghost e0 = e@;
            let mut slot: (String, YamlNode) = (String::new(), YamlNode::new(YamlValue::Null));
            e.set_and_swap(i, &mut slot);
            let r = edit_at(&mut slot.1, path, depth + 1, op);
            e.set_and_swap(i, &mut slot);
            proof {
                assert(e@ =~= e0.update(i as int, e@[i as int]));
                lemma_entries_update(e0, i as int, e@[i as int]);
                lemma_object_view(*e);
                assert(e@[i as int].0@ == e0[i as int].0@);
                assert(n0.value.child(i as int) == Some(e0[i as int].1@));
                if node_at(e0[i as int].1@, rest) is None {
                    assert(entries_model(e@) =~= entries_model(e0));
                }
            }
            r
        },
        YamlValue::Array(v) => {
            if i >= v.len() {
                return Err(TreeError::ParentNotFound);
            }
            let ghost v0 = v@;
            let mut slot = YamlNode::new(YamlValue::Null);
            v.set_and_swap(i, &mut slot);
            let r = edit_at(&mut slot, path, depth + 1, op);
            v.set_and_swap(i, &mut slot);
            proof {
                assert(v@ =~= v0.update(i as int, v@[i as int]));
                lemma_nodes_update(v0, i as int, v@[i as int]);
                lemma_array_view(*v);
                assert(n0.value.child(i as int) == Some(v0[i as int]@));
                if node_at(v0[i as int]@, rest) is None {
                    assert(nodes_model(v@) =~= nodes_model(v0));
                }
            }
            r
        },
        YamlValue::MultiDoc(v) => {
            if i >= v.len() {
                return Err(TreeError::ParentNotFound);
            }
            let ghost v0 = v@;
            let mut slot = YamlNode::new(YamlValue::Null);
            v.set_and_swap(i, &mut slot);
            let r = edit_at(&mut slot, path, depth + 1, op);
            v.set_and_swap(i, &mut slot);
            proof {
                assert(v@ =~= v0.update(i as int, v@[i as int]));
                lemma_nodes_update(v0, i as int, v@[i as int]);
                lemma_array_view(*v);
                assert(n0.value.child(i as int) == Some(v0[i as int]@));
                if node_at(v0[i as int]@, rest) is None {
                    assert(nodes_model(v@) =~= nodes_model(v0));
                }
            }
            r
        },
        _ => Err(TreeError::ParentNotFound),
    }
}

} // verus!
