//! The tree view: the visible lines of a document and the set of expanded
//! paths.
//!
//! A container's children are shown only while its path is expanded; the
//! lines are rebuilt from the tree and that set (`visible_lines`). The
//! expanded set is kept in step with edits: inserting or deleting a node
//! shifts the paths of the later siblings.

use vstd::prelude::*;
use crate::assoc::{AssocMap, Key};
use crate::document::node::{
    lemma_node_value_view, node_at, reveal_views, NodeModel, ValueModel, YamlNode, YamlValue,
};
use crate::document::tree::YamlTree;
use crate::paths::{path_child, path_to_vec};
use crate::text::{format_usize, nat_text, push_char, push_str, str_to_string};
pub use crate::ui::preview::format_collapsed_preview;
use crate::ui::preview::{
    collapsed_preview, value_preview, value_preview_text,
};

verus! {

broadcast use vstd::std_specs::vec::group_vec_axioms;

/// Classification of values for display.
#[derive(Debug, Clone, Copy, PartialEq, Eq, Structural)]
pub enum ValueType {
    Object,
    Array,
    String,
    Number,
    Boolean,
    Null,
}

/// The display type of a value: an alias shows as a string, a
/// multi-document root as a sequence.
pub open spec fn value_type_of(v: ValueModel) -> ValueType {
    match v {
        ValueModel::Object(_) => ValueType::Object,
        ValueModel::Array(_) => ValueType::Array,
        ValueModel::Str(..) => ValueType::String,
        ValueModel::Int(_) => ValueType::Number,
        ValueModel::Float(_) => ValueType::Number,
        ValueModel::Bool(_) => ValueType::Boolean,
        ValueModel::Null => ValueType::Null,
        ValueModel::Alias(_) => ValueType::String,
        ValueModel::MultiDoc(_) => ValueType::Array,
    }
}

impl ValueType {
    /// The display type of a value.
    pub fn from_yaml_value(value: &YamlValue) -> (r: Self)
        ensures
            r == value_type_of(value@),
    {
        match value {
            YamlValue::Object(_) => ValueType::Object,
            YamlValue::Array(_) => ValueType::Array,
            YamlValue::String(_) => ValueType::String,
            YamlValue::Number(n) => {
                match n {
                    crate::document::node::YamlNumber::Integer(_) => ValueType::Number,
                    crate::document::node::YamlNumber::Float(_) => ValueType::Number,
                }
            },
            YamlValue::Boolean(_) => ValueType::Boolean,
            YamlValue::Null => ValueType::Null,
            YamlValue::Alias(_) => ValueType::String,
            YamlValue::MultiDoc(_) => ValueType::Array,
        }
    }
}

/// Model of a displayed line.
pub struct LineModel {
    pub path: Seq<usize>,
    pub depth: nat,
    pub key: Option<Seq<char>>,
    pub value_type: ValueType,
    pub value_preview: Seq<char>,
    pub expandable: bool,
    pub expanded: bool,
}

/// One line of the tree view.
#[derive(Debug, Clone)]
pub struct TreeViewLine {
    /// Path of the node shown on this line
    pub path: Vec<usize>,
    /// Indentation depth
    pub depth: usize,
    /// Mapping key, or `[i]` for a sequence element; none for a document of
    /// a multi-document root
    pub key: Option<String>,
    /// Display type of the value
    pub value_type: ValueType,
    /// Short preview of the value
    pub value_preview: String,
    /// The value has children
    pub expandable: bool,
    /// The value's children are shown
    pub expanded: bool,
}

impl View for TreeViewLine {
    type V = LineModel;

    open spec fn view(&self) -> LineModel {
        LineModel {
            path: self.path@,
            depth: self.depth as nat,
            key: match self.key {
                Some(k) => Some(k@),
                None => None,
            },
            value_type: self.value_type,
            value_preview: self.value_preview@,
            expandable: self.expandable,
            expanded: self.expanded,
        }
    }
}

/// Models of a sequence of lines.
pub open spec fn lines_view(v: Seq<TreeViewLine>) -> Seq<LineModel> {
    Seq::new(v.len(), |i: int| v[i]@)
}

/// Width of collapsed previews in the tree view.
pub const PREVIEW_WIDTH: usize = 60;

/// The key shown for element `i` of a sequence: `[i]`.
pub open spec fn index_key(i: nat) -> Seq<char> {
    "["@ + nat_text(i) + "]"@
}

/// The line showing `child` at `path` and `depth` under `key`.
pub open spec fn child_line(
    child: NodeModel,
    path: Seq<usize>,
    depth: nat,
    key: Option<Seq<char>>,
    exp: Set<Seq<usize>>,
) -> LineModel {
    LineModel {
        path,
        depth,
        key,
        value_type: value_type_of(child.value),
        value_preview: if child.value.is_container() {
            collapsed_preview(child, PREVIEW_WIDTH as nat)
        } else {
            value_preview(child.value)
        },
        expandable: child.value.is_container(),
        expanded: exp.contains(path),
    }
}

/// The line of `child`, followed by the lines of its children when it is an
/// expanded container.
pub open spec fn subtree_lines(
    child: NodeModel,
    path: Seq<usize>,
    depth: nat,
    key: Option<Seq<char>>,
    exp: Set<Seq<usize>>,
) -> Seq<LineModel>
    decreases child, child.value.child_count() + 1,
{
    seq![child_line(child, path, depth, key, exp)] + if exp.contains(path)
        && child.value.is_container() {
        child_lines(child, path, depth + 1, exp, 0)
    } else {
        Seq::empty()
    }
}

/// The lines of the children of `n` (at `path`) from child `i` on, at
/// `depth`.
pub open spec fn child_lines(
    n: NodeModel,
    path: Seq<usize>,
    depth: nat,
    exp: Set<Seq<usize>>,
    i: nat,
) -> Seq<LineModel>
    decreases n, n.value.child_count() - i,
{
    if i >= n.value.child_count() {
        Seq::empty()
    } else {
        let rest = child_lines(n, path, depth, exp, i + 1);
        match n.value {
            ValueModel::Object(e) => subtree_lines(
                e[i as int].1,
                path.push(i as usize),
                depth,
                Some(e[i as int].0),
                exp,
            ) + rest,
            ValueModel::Array(v) => subtree_lines(
                v[i as int],
                path.push(i as usize),
                depth,
                Some(index_key(i)),
                exp,
            ) + rest,
            ValueModel::MultiDoc(v) => subtree_lines(
                v[i as int],
                path.push(i as usize),
                depth,
                Some(index_key(i)),
                exp,
            ) + rest,
            _ => rest,
        }
    }
}

/// The lines of the documents of a multi-document root from document `i`
/// on: each document is one line at depth 0 with no key, followed by its
/// children when expanded.
pub open spec fn multidoc_lines(docs: Seq<NodeModel>, exp: Set<Seq<usize>>, i: nat) -> Seq<
    LineModel,
>
    decreases docs.len() - i,
{
    if i >= docs.len() {
        Seq::empty()
    } else {
        let p = seq![i as usize];
        let d = docs[i as int];
        seq![
            LineModel {
                path: p,
                depth: 0,
                key: None,
                value_type: value_type_of(d.value),
                value_preview: collapsed_preview(d, PREVIEW_WIDTH as nat),
                expandable: true,
                expanded: exp.contains(p),
            },
        ] + (if exp.contains(p) {
            child_lines(d, p, 1, exp, 0)
        } else {
            Seq::empty()
        }) + multidoc_lines(docs, exp, i + 1)
    }
}

/// The visible lines of a document whose expanded paths are `exp`.
pub open spec fn visible_lines(root: NodeModel, exp: Set<Seq<usize>>) -> Seq<LineModel> {
    match root.value {
        ValueModel::MultiDoc(docs) => multidoc_lines(docs, exp, 0),
        _ => child_lines(root, Seq::empty(), 0, exp, 0),
    }
}

/// `p` lies at or after index `at.last()` among the siblings of `at`.
pub open spec fn after_insertion_point(p: Seq<usize>, at: Seq<usize>) -> bool {
    let k = at.len() - 1;
    p.len() > k && p.take(k) == at.take(k) && p[k] >= at[k]
}

/// A path after a node is inserted at `at`: the later siblings and their
/// descendants move one index up.
pub open spec fn shift_after_insert(p: Seq<usize>, at: Seq<usize>) -> Seq<usize> {
    let k = at.len() - 1;
    if after_insertion_point(p, at) {
        p.update(k, (p[k] + 1) as usize)
    } else {
        p
    }
}

/// `p` is `at` or one of its descendants.
pub open spec fn within(p: Seq<usize>, at: Seq<usize>) -> bool {
    p.len() >= at.len() && p.take(at.len() as int) == at
}

/// A path after the node at `at` is deleted: the later siblings and their
/// descendants move one index down.
pub open spec fn shift_after_delete(p: Seq<usize>, at: Seq<usize>) -> Seq<usize> {
    let k = at.len() - 1;
    if p.len() > k && p.take(k) == at.take(k) && p[k] > at[k] {
        p.update(k, (p[k] - 1) as usize)
    } else {
        p
    }
}

/// The expanded set after a node is inserted at `at`.
pub open spec fn expanded_after_insert(s: Set<Seq<usize>>, at: Seq<usize>) -> Set<Seq<usize>> {
    if at.len() == 0 {
        s
    } else {
        s.map(|p: Seq<usize>| shift_after_insert(p, at))
    }
}

/// The expanded set after the node at `at` is deleted: the node and its
/// descendants are forgotten, later siblings shift down.
pub open spec fn expanded_after_delete(s: Set<Seq<usize>>, at: Seq<usize>) -> Set<Seq<usize>> {
    if at.len() == 0 {
        s
    } else {
        s.filter(|p: Seq<usize>| !within(p, at)).map(|p: Seq<usize>| shift_after_delete(p, at))
    }
}

/// `rel` leads from `n` to a container strictly below it.
pub open spec fn container_below(n: NodeModel, rel: Seq<usize>) -> bool {
    rel.len() > 0 && (node_at(n, rel) matches Some(c) && c.value.is_container())
}

/// `q` is the path of a container strictly below `n`, where `n` sits at
/// `base`.
pub open spec fn container_path_below(n: NodeModel, base: Seq<usize>, q: Seq<usize>) -> bool {
    q.len() > base.len() && q.take(base.len() as int) == base && container_below(
        n,
        q.skip(base.len() as int),
    )
}


/// Whether the first `k` indices of `p` and `at` agree (`p` longer than `k`).
fn same_parent(p: &[usize], at: &[usize], k: usize) -> (r: bool)
    requires
        k < at@.len(),
    ensures
        r == (p@.len() > k && p@.take(k as int) == at@.take(k as int)),
{
    if p.len() <= k {
        return false;
    }
    let mut i: usize = 0;
    while i < k
        invariant
            k < at@.len(),
            k < p@.len(),
            i <= k,
            forall|j: int| 0 <= j < i ==> p@[j] == at@[j],
        decreases k - i,
    {
        if p[i] != at[i] {
            assert(p@.take(k as int)[i as int] != at@.take(k as int)[i as int]);
            return false;
        }
        i = i + 1;
    }
    assert(p@.take(k as int) =~= at@.take(k as int));
    true
}

/// `p` with index `k` replaced by `x`.
fn path_with(p: &[usize], k: usize, x: usize) -> (r: Vec<usize>)
    requires
        k < p@.len(),
    ensures
        r@ == p@.update(k as int, x),
{
    let mut r: Vec<usize> = Vec::new();
    let mut i: usize = 0;
    while i < p.len()
        invariant
            k < p@.len(),
            i <= p@.len(),
            r@ == p@.update(k as int, x).take(i as int),
        decreases p.len() - i,
    {
        if i == k {
            r.push(x);
        } else {
            r.push(p[i]);
        }
        i = i + 1;
        assert(r@ =~= p@.update(k as int, x).take(i as int));
    }
    assert(r@ =~= p@.update(k as int, x));
    r
}

/// A path after a node is inserted at `at` (see `shift_after_insert`).
fn shifted_for_insert(p: &[usize], at: &[usize]) -> (r: Vec<usize>)
    requires
        at@.len() > 0,
        after_insertion_point(p@, at@) ==> p@[at@.len() - 1] < usize::MAX,
    ensures
        r@ == shift_after_insert(p@, at@),
{
    let k = at.len() - 1;
    if same_parent(p, at, k) && p[k] >= at[k] {
        path_with(p, k, p[k] + 1)
    } else {
        path_to_vec(p)
    }
}

/// A path after the node at `at` is deleted (see `shift_after_delete`).
fn shifted_for_delete(p: &[usize], at: &[usize]) -> (r: Vec<usize>)
    requires
        at@.len() > 0,
    ensures
        r@ == shift_after_delete(p@, at@),
{
    let k = at.len() - 1;
    if same_parent(p, at, k) && p[k] > at[k] {
        path_with(p, k, p[k] - 1)
    } else {
        path_to_vec(p)
    }
}

/// Whether `p` is `at` or below it.
fn is_within(p: &[usize], at: &[usize]) -> (r: bool)
    ensures
        r == within(p@, at@),
{
    let b = crate::paths::starts_with(p, at);
    proof {
        if b {
            assert(p@.take(at@.len() as int) =~= p@.subrange(0, at@.len() as int));
        } else if p@.len() >= at@.len() {
            assert(p@.take(at@.len() as int) =~= p@.subrange(0, at@.len() as int));
        }
    }
    b
}


proof fn lemma_shift_roundtrip(p: Seq<usize>, at: Seq<usize>)
    requires
        at.len() > 0,
        after_insertion_point(p, at) ==> p[at.len() - 1] < usize::MAX,
    ensures
        !within(shift_after_insert(p, at), at),
        shift_after_delete(shift_after_insert(p, at), at) == p,
{
    let k = at.len() - 1;
    let q = shift_after_insert(p, at);
    if after_insertion_point(p, at) {
        assert(q.take(k) =~= p.take(k));
        if within(q, at) {
            assert(q.take(at.len() as int)[k] == at[k]);
        }
        assert(q.update(k, (q[k] - 1) as usize) =~= p);
    } else {
        if within(p, at) {
            assert(p.take(k) =~= at.take(k)) by {
                assert(p.take(k) =~= p.take(at.len() as int).take(k));
            }
            assert(p.take(at.len() as int)[k] == at[k]);
        }
    }
}

/// Deleting the node at `at` right after inserting one there gives back the
/// expanded set as it was before the insertion.
pub proof fn lemma_delete_undoes_insert(s: Set<Seq<usize>>, at: Seq<usize>)
    requires
        at.len() > 0 ==> forall|p: Seq<usize>|
            #![trigger s.contains(p)]
            s.contains(p) && after_insertion_point(p, at) ==> p[at.len() - 1] < usize::MAX,
    ensures
        expanded_after_delete(expanded_after_insert(s, at), at) == s,
{
    if at.len() > 0 {
        let t = s.map(|p: Seq<usize>| shift_after_insert(p, at));
        let r = t.filter(|p: Seq<usize>| !within(p, at)).map(|p: Seq<usize>| shift_after_delete(p, at));
        assert forall|q: Seq<usize>| r.contains(q) <==> s.contains(q) by {
            if r.contains(q) {
                let x = choose|x: Seq<usize>| t.filter(|p: Seq<usize>| !within(p, at)).contains(x) && q == shift_after_delete(x, at);
                let p = choose|p: Seq<usize>| s.contains(p) && x == shift_after_insert(p, at);
                lemma_shift_roundtrip(p, at);
            }
            if s.contains(q) {
                lemma_shift_roundtrip(q, at);
                let x = shift_after_insert(q, at);
                assert(t.contains(x));
                assert(t.filter(|p: Seq<usize>| !within(p, at)).contains(x));
            }
        }
        assert(r =~= s);
    }
}

/// After a node is inserted at `at`, a path is expanded exactly when it was
/// expanded and does not lie at or after the insertion point, or it lies
/// strictly after the insertion point and the path one sibling index lower
/// was expanded. In particular the inserted node itself starts collapsed.
pub proof fn lemma_expanded_after_insert_members(s: Set<Seq<usize>>, at: Seq<usize>, p: Seq<usize>)
    requires
        at.len() > 0,
        forall|q: Seq<usize>|
            #![trigger s.contains(q)]
            s.contains(q) && after_insertion_point(q, at) ==> q[at.len() - 1] < usize::MAX,
    ensures
        ({
            let k = at.len() - 1;
            expanded_after_insert(s, at).contains(p) <==> (s.contains(p) && !after_insertion_point(p, at)) || (
            after_insertion_point(p, at) && p[k] > at[k] && s.contains(p.update(k, (p[k] - 1) as usize)))
        }),
        !expanded_after_insert(s, at).contains(at),
{
    let k = at.len() - 1;
    let t = expanded_after_insert(s, at);
    assert(t == s.map(|x: Seq<usize>| shift_after_insert(x, at)));
    if t.contains(p) {
        let x = choose|x: Seq<usize>| s.contains(x) && p == shift_after_insert(x, at);
        if after_insertion_point(x, at) {
            assert(p.take(k) =~= x.take(k));
            assert(p.update(k, (p[k] - 1) as usize) =~= x);
        }
    }
    if after_insertion_point(p, at) && p[k] > at[k] && s.contains(p.update(k, (p[k] - 1) as usize)) {
        let x = p.update(k, (p[k] - 1) as usize);
        assert(x.take(k) =~= p.take(k));
        assert(shift_after_insert(x, at) =~= p);
        assert(t.contains(shift_after_insert(x, at)));
    }
    if s.contains(p) && !after_insertion_point(p, at) {
        assert(t.contains(shift_after_insert(p, at)));
    }
    if t.contains(at) {
        let x = choose|x: Seq<usize>| s.contains(x) && at == shift_after_insert(x, at);
        if after_insertion_point(x, at) {
            assert(at[k] == x[k] + 1);
        }
    }
}

/// Toggling the same path twice leaves the expanded set as it was.
pub proof fn lemma_toggle_twice(s: Set<Seq<usize>>, p: Seq<usize>)
    ensures
        ({
            let once = if s.contains(p) { s.remove(p) } else { s.insert(p) };
            let twice = if once.contains(p) { once.remove(p) } else { once.insert(p) };
            twice == s
        }),
{
    let once = if s.contains(p) { s.remove(p) } else { s.insert(p) };
    let twice = if once.contains(p) { once.remove(p) } else { once.insert(p) };
    assert(twice =~= s);
}


/// Paths of the containers strictly below `n`, which sits at `base`.
pub open spec fn containers_below(n: NodeModel, base: Seq<usize>) -> Set<Seq<usize>> {
    Set::new(|q: Seq<usize>| container_path_below(n, base, q))
}

/// The paths that expanding or collapsing the node at `path` "with its
/// descendants" touches: the path itself and the containers below it.
pub open spec fn node_and_descendants(root: NodeModel, path: Seq<usize>) -> Set<Seq<usize>> {
    match node_at(root, path) {
        Some(n) => containers_below(n, path).insert(path),
        None => set![path],
    }
}

proof fn lemma_below_child(n: NodeModel, path: Seq<usize>, i: usize, c: NodeModel, q: Seq<usize>)
    requires
        n.value.child(i as int) == Some(c),
    ensures
        (container_path_below(n, path, q) && q[path.len() as int] == i) <==> ((q == path.push(i)
            && c.value.is_container()) || container_path_below(c, path.push(i), q)),
{
    let cp = path.push(i);
    let empty = Seq::<usize>::empty();
    assert(node_at(c, empty) == Some(c));
    if q.len() > path.len() && q.take(path.len() as int) == path && q[path.len() as int] == i {
        let rel = q.skip(path.len() as int);
        assert(rel[0] == i);
        assert(rel.drop_first() =~= q.skip(cp.len() as int));
        assert(node_at(n, rel) == node_at(c, rel.drop_first()));
        if q.len() == cp.len() {
            assert(q =~= cp);
            assert(rel.drop_first() =~= empty);
            assert(node_at(n, rel) == Some(c));
        } else {
            assert(q.take(cp.len() as int) =~= cp);
        }
    }
    if container_path_below(c, cp, q) {
        assert(cp.take(path.len() as int) =~= path);
        assert(q.take(path.len() as int) =~= q.take(cp.len() as int).take(path.len() as int));
        assert(q[path.len() as int] == q.take(cp.len() as int)[path.len() as int]);
        let rel = q.skip(path.len() as int);
        assert(rel[0] == i);
        assert(rel.drop_first() =~= q.skip(cp.len() as int));
        assert(node_at(n, rel) == node_at(c, rel.drop_first()));
        assert(container_below(n, rel));
        assert(container_path_below(n, path, q));
    }
    if q == cp && c.value.is_container() {
        let rel = q.skip(path.len() as int);
        assert(rel =~= seq![i]);
        assert(rel[0] == i);
        assert(rel.drop_first() =~= empty);
        assert(node_at(n, rel) == node_at(c, rel.drop_first()));
        assert(q.take(path.len() as int) =~= path);
        assert(container_below(n, rel));
        assert(container_path_below(n, path, q));
        assert(q[path.len() as int] == i);
    }
}

proof fn lemma_below_bound(n: NodeModel, path: Seq<usize>, q: Seq<usize>)
    requires
        container_path_below(n, path, q),
    ensures
        q[path.len() as int] < n.value.child_count(),
{
    let rel = q.skip(path.len() as int);
    assert(rel[0] == q[path.len() as int]);
}

/// No path of `s` holds the index `usize::MAX`.
pub open spec fn indices_fit(s: Set<Seq<usize>>) -> bool {
    forall|q: Seq<usize>, i: int| s.contains(q) && 0 <= i < q.len() ==> q[i] < usize::MAX
}

/// Model of the tree view.
pub struct TreeViewModel {
    pub lines: Seq<LineModel>,
    pub expanded: Set<Seq<usize>>,
}

/// The tree view: visible lines and expanded paths.
pub struct TreeViewState {
    lines: Vec<TreeViewLine>,
    expanded_paths: AssocMap<Vec<usize>, ()>,
}

impl View for TreeViewState {
    type V = TreeViewModel;

    closed spec fn view(&self) -> TreeViewModel {
        TreeViewModel { lines: lines_view(self.lines@), expanded: self.expanded_paths@.dom() }
    }
}

impl TreeViewState {
    /// The expanded set is kept without repeated paths.
    pub closed spec fn wf(&self) -> bool {
        self.expanded_paths.wf()
    }

    /// An empty view with nothing expanded.
    pub fn new() -> (r: Self)
        ensures
            r.wf(),
            r@.lines == Seq::<LineModel>::empty(),
            r@.expanded == Set::<Seq<usize>>::empty(),
    {
        let r = TreeViewState { lines: Vec::new(), expanded_paths: AssocMap::new() };
        assert(r@.lines =~= Seq::<LineModel>::empty());
        assert(r@.expanded =~= Set::<Seq<usize>>::empty());
        r
    }

    /// The visible lines.
    pub fn lines(&self) -> (r: &[TreeViewLine])
        ensures
            lines_view(r@) == self@.lines,
    {
        self.lines.as_slice()
    }

    /// Whether the node at `path` is expanded.
    pub fn is_expanded(&self, path: &[usize]) -> (r: bool)
        requires
            self.wf(),
        ensures
            r == self@.expanded.contains(path@),
    {
        let key = path_to_vec(path);
        self.expanded_paths.get(&key).is_some()
    }

    fn expand_path(&mut self, path: &[usize])
        requires
            old(self).wf(),
        ensures
            final(self).wf(),
            final(self)@.lines == old(self)@.lines,
            final(self)@.expanded == old(self)@.expanded.insert(path@),
    {
        let key = path_to_vec(path);
        self.expanded_paths.insert(key, ());
        assert(self@.expanded =~= old(self)@.expanded.insert(path@));
    }

    fn collapse_path(&mut self, path: &[usize])
        requires
            old(self).wf(),
        ensures
            final(self).wf(),
            final(self)@.lines == old(self)@.lines,
            final(self)@.expanded == old(self)@.expanded.remove(path@),
    {
        let key = path_to_vec(path);
        let _ = self.expanded_paths.remove(&key);
        assert(self@.expanded =~= old(self)@.expanded.remove(path@));
    }

    /// Toggles whether the node at `path` is expanded (call `rebuild`
    /// afterwards to refresh the lines).
    pub fn toggle_expand(&mut self, path: &[usize])
        requires
            old(self).wf(),
        ensures
            final(self).wf(),
            final(self)@.lines == old(self)@.lines,
            final(self)@.expanded == if old(self)@.expanded.contains(path@) {
                old(self)@.expanded.remove(path@)
            } else {
                old(self)@.expanded.insert(path@)
            },
    {
        if self.is_expanded(path) {
            self.collapse_path(path);
        } else {
            self.expand_path(path);
        }
    }


    /// Keeps the expanded paths in step with a node inserted at
    /// `insertion_path`: later siblings and their descendants move one index
    /// up (see `expanded_after_insert`).
    pub fn update_paths_after_insertion(&mut self, insertion_path: &[usize])
        requires
            old(self).wf(),
            insertion_path@.len() > 0 ==> forall|p: Seq<usize>|
                #![trigger old(self)@.expanded.contains(p)]
                old(self)@.expanded.contains(p) && after_insertion_point(p, insertion_path@)
                    ==> p[insertion_path@.len() - 1] < usize::MAX,
        ensures
            final(self).wf(),
            final(self)@.lines == old(self)@.lines,
            final(self)@.expanded == expanded_after_insert(old(self)@.expanded, insertion_path@),
    {
        if insertion_path.len() == 0 {
            return;
        }
        let ghost at = insertion_path@;
        let ghost old_set = self@.expanded;
        let entries = self.expanded_paths.as_slice();
        let mut moved: AssocMap<Vec<usize>, ()> = AssocMap::new();
        let mut j: usize = 0;
        while j < entries.len()
            invariant
                at == insertion_path@,
                at.len() > 0,
                entries@ == self.expanded_paths.entries@,
                self.expanded_paths.wf(),
                old_set == self.expanded_paths@.dom(),
                forall|p: Seq<usize>|
                    #![trigger old_set.contains(p)]
                    old_set.contains(p) && after_insertion_point(p, at) ==> p[at.len() - 1] < usize::MAX,
                j <= entries@.len(),
                moved.wf(),
                forall|q: Seq<usize>|
                    moved@.dom().contains(q) <==> exists|m: int|
                        0 <= m < j && q == #[trigger] shift_after_insert(entries@[m].0@, at),
            decreases entries.len() - j,
        {
            let p = &entries[j].0;
            proof {
                crate::assoc::lemma_lookup(self.expanded_paths.entries@, j as int);
                assert(old_set.contains(p@));
            }
            let shifted = shifted_for_insert(p.as_slice(), insertion_path);
            let ghost before = moved@.dom();
            moved.insert(shifted, ());
            proof {
                assert forall|q: Seq<usize>|
                    moved@.dom().contains(q) <==> exists|m: int|
                        0 <= m < j + 1 && q == #[trigger] shift_after_insert(entries@[m].0@, at) by {
                    if moved@.dom().contains(q) && q != shift_after_insert(entries@[j as int].0@, at) {
                        assert(before.contains(q));
                    }
                    if q == shift_after_insert(entries@[j as int].0@, at) {
                        assert(moved@.dom().contains(q));
                    } else if exists|m: int| 0 <= m < j + 1 && q == #[trigger] shift_after_insert(entries@[m].0@, at) {
                        let m = choose|m: int| 0 <= m < j + 1 && q == #[trigger] shift_after_insert(entries@[m].0@, at);
                        assert(m < j);
                        assert(before.contains(q));
                    }
                }
            }
            j = j + 1;
        }
        proof {
            let target = old_set.map(|p: Seq<usize>| shift_after_insert(p, at));
            assert forall|q: Seq<usize>| moved@.dom().contains(q) <==> target.contains(q) by {
                if moved@.dom().contains(q) {
                    let m = choose|m: int| 0 <= m < entries@.len() && q == #[trigger] shift_after_insert(entries@[m].0@, at);
                    crate::assoc::lemma_lookup(self.expanded_paths.entries@, m);
                    assert(old_set.contains(entries@[m].0@));
                }
                if target.contains(q) {
                    let p = choose|p: Seq<usize>| old_set.contains(p) && q == shift_after_insert(p, at);
                    assert(crate::assoc::has_key(self.expanded_paths.entries@, p));
                    let m = choose|m: int| 0 <= m < entries@.len() && #[trigger] entries@[m].0.model() == p;
                    assert(q == shift_after_insert(entries@[m].0@, at));
                }
            }
            assert(moved@.dom() =~= target);
        }
        self.expanded_paths = moved;
    }

    /// Keeps the expanded paths in step with the deletion of the node at
    /// `deletion_path`: the node and its descendants are forgotten and later
    /// siblings move one index down (see `expanded_after_delete`).
    pub fn update_paths_after_deletion(&mut self, deletion_path: &[usize])
        requires
            old(self).wf(),
        ensures
            final(self).wf(),
            final(self)@.lines == old(self)@.lines,
            final(self)@.expanded == expanded_after_delete(old(self)@.expanded, deletion_path@),
    {
        if deletion_path.len() == 0 {
            return;
        }
        let ghost at = deletion_path@;
        let ghost old_set = self@.expanded;
        let entries = self.expanded_paths.as_slice();
        let mut kept: AssocMap<Vec<usize>, ()> = AssocMap::new();
        let mut j: usize = 0;
        while j < entries.len()
            invariant
                at == deletion_path@,
                at.len() > 0,
                entries@ == self.expanded_paths.entries@,
                self.expanded_paths.wf(),
                old_set == self.expanded_paths@.dom(),
                j <= entries@.len(),
                kept.wf(),
                forall|q: Seq<usize>|
                    kept@.dom().contains(q) <==> exists|m: int|
                        0 <= m < j && !within(entries@[m].0@, at) && q == #[trigger] shift_after_delete(entries@[m].0@, at),
            decreases entries.len() - j,
        {
            let p = &entries[j].0;
            let ghost before = kept@.dom();
            if !is_within(p.as_slice(), deletion_path) {
                let shifted = shifted_for_delete(p.as_slice(), deletion_path);
                kept.insert(shifted, ());
            }
            proof {
                assert forall|q: Seq<usize>|
                    kept@.dom().contains(q) <==> exists|m: int|
                        0 <= m < j + 1 && !within(entries@[m].0@, at) && q == #[trigger] shift_after_delete(entries@[m].0@, at) by {
                    let new_one = !within(entries@[j as int].0@, at) && q == shift_after_delete(entries@[j as int].0@, at);
                    if kept@.dom().contains(q) && !new_one {
                        assert(before.contains(q));
                    }
                    if new_one {
                        assert(kept@.dom().contains(q));
                    } else if exists|m: int| 0 <= m < j + 1 && !within(entries@[m].0@, at) && q == #[trigger] shift_after_delete(entries@[m].0@, at) {
                        let m = choose|m: int| 0 <= m < j + 1 && !within(entries@[m].0@, at) && q == #[trigger] shift_after_delete(entries@[m].0@, at);
                        assert(m < j);
                        assert(before.contains(q));
                    }
                }
            }
            j = j + 1;
        }
        proof {
            let target = old_set.filter(|p: Seq<usize>| !within(p, at)).map(|p: Seq<usize>| shift_after_delete(p, at));
            assert forall|q: Seq<usize>| kept@.dom().contains(q) <==> target.contains(q) by {
                if kept@.dom().contains(q) {
                    let m = choose|m: int| 0 <= m < entries@.len() && !within(entries@[m].0@, at) && q == #[trigger] shift_after_delete(entries@[m].0@, at);
                    crate::assoc::lemma_lookup(self.expanded_paths.entries@, m);
                    assert(old_set.filter(|p: Seq<usize>| !within(p, at)).contains(entries@[m].0@));
                }
                if target.contains(q) {
                    let p = choose|p: Seq<usize>| old_set.filter(|p: Seq<usize>| !within(p, at)).contains(p) && q == shift_after_delete(p, at);
                    assert(crate::assoc::has_key(self.expanded_paths.entries@, p));
                    let m = choose|m: int| 0 <= m < entries@.len() && #[trigger] entries@[m].0.model() == p;
                    assert(q == shift_after_delete(entries@[m].0@, at));
                }
            }
            assert(kept@.dom() =~= target);
        }
        self.expanded_paths = kept;
    }


    /// Appends the line that shows `child` at `child_path`, and says whether
    /// that line is expanded and whether `child` is a container.
    fn push_child_line(
        &mut self,
        child: &YamlNode,
        child_path: &[usize],
        depth: usize,
        key: Option<String>,
    ) -> (r: (bool, bool))
        requires
            old(self).wf(),
        ensures
            final(self).wf(),
            final(self)@.expanded == old(self)@.expanded,
            final(self)@.lines == old(self)@.lines.push(
                child_line(
                    child@,
                    child_path@,
                    depth as nat,
                    match key {
                        Some(k) => Some(k@),
                        None => None,
                    },
                    old(self)@.expanded,
                ),
            ),
            r.0 == old(self)@.expanded.contains(child_path@),
            r.1 == child@.value.is_container(),
    {
        proof {
            lemma_node_value_view(*child);
        }
        let expanded = self.is_expanded(child_path);
        let container = child.value().is_container();
        let value_preview = if container {
            format_collapsed_preview(child, PREVIEW_WIDTH)
        } else {
            value_preview_text(child.value())
        };
        let line = TreeViewLine {
            path: path_to_vec(child_path),
            depth,
            key,
            value_type: ValueType::from_yaml_value(child.value()),
            value_preview,
            expandable: container,
            expanded,
        };
        let ghost l0 = self.lines@;
        self.lines.push(line);
        assert(lines_view(self.lines@) =~= lines_view(l0).push(line@));
        (expanded, container)
    }

    /// Appends the lines of the children of `node` (at `path`, shown at
    /// `depth`), descending into expanded containers.
    fn build_lines(&mut self, node: &YamlNode, path: &[usize], depth: usize)
        requires
            old(self).wf(),
            depth == path@.len(),
        ensures
            final(self).wf(),
            final(self)@.expanded == old(self)@.expanded,
            final(self)@.lines == old(self)@.lines + child_lines(
                node@,
                path@,
                depth as nat,
                old(self)@.expanded,
                0,
            ),
        decreases node, 1int,
    {
        proof {
            lemma_node_value_view(*node);
            reveal_views(&node.value);
        }
        match &node.value {
            YamlValue::Object(e) => self.build_entry_lines(e, path, depth, Ghost(node@)),
            YamlValue::Array(v) => self.build_element_lines(v, path, depth, Ghost(node@)),
            YamlValue::MultiDoc(v) => self.build_element_lines(v, path, depth, Ghost(node@)),
            _ => {
                assert(self@.lines =~= old(self)@.lines + child_lines(
                    node@,
                    path@,
                    depth as nat,
                    old(self)@.expanded,
                    0,
                ));
            },
        }
    }

    fn build_entry_lines(
        &mut self,
        e: &Vec<(String, YamlNode)>,
        path: &[usize],
        depth: usize,
        Ghost(n): Ghost<NodeModel>,
    )
        requires
            old(self).wf(),
            depth == path@.len(),
            n.value == ValueModel::Object(crate::document::node::entries_model(e@)),
        ensures
            final(self).wf(),
            final(self)@.expanded == old(self)@.expanded,
            final(self)@.lines == old(self)@.lines + child_lines(
                n,
                path@,
                depth as nat,
                old(self)@.expanded,
                0,
            ),
        decreases e, 0int,
    {
        let ghost exp = self@.expanded;
        let ghost l0 = self@.lines;
        let count = e.len();
        let mut i: usize = 0;
        while i < count
            invariant
                self.wf(),
                self@.expanded == exp,
                depth == path@.len(),
                count == e@.len(),
                n.value == ValueModel::Object(crate::document::node::entries_model(e@)),
                i <= count,
                self@.lines + child_lines(n, path@, depth as nat, exp, i as nat) == l0
                    + child_lines(n, path@, depth as nat, exp, 0),
            decreases count - i,
        {
            let child = &e[i].1;
            let child_path = path_child(path, i);
            let ghost before = self@.lines;
            let (expanded, container) = self.push_child_line(
                child,
                child_path.as_slice(),
                depth,
                Some(e[i].0.clone()),
            );
            let ghost after_line = self@.lines;
            if expanded && container {
                self.build_lines(child, child_path.as_slice(), child_path.len());
            }
            proof {
                let cp = path@.push(i as usize);
                assert(child_path@ == cp);
                let sub = subtree_lines(child@, cp, depth as nat, Some(e@[i as int].0@), exp);
                assert(child_lines(n, path@, depth as nat, exp, i as nat) == sub + child_lines(
                    n,
                    path@,
                    depth as nat,
                    exp,
                    (i + 1) as nat,
                ));
                if expanded && container {
                    assert(self@.lines =~= before + sub);
                } else {
                    assert(self@.lines =~= before + sub);
                }
                assert(self@.lines + child_lines(n, path@, depth as nat, exp, (i + 1) as nat)
                    =~= before + child_lines(n, path@, depth as nat, exp, i as nat));
            }
            i = i + 1;
        }
        assert(self@.lines =~= l0 + child_lines(n, path@, depth as nat, exp, 0));
    }

    fn build_element_lines(
        &mut self,
        v: &Vec<YamlNode>,
        path: &[usize],
        depth: usize,
        Ghost(n): Ghost<NodeModel>,
    )
        requires
            old(self).wf(),
            depth == path@.len(),
            n.value == ValueModel::Array(crate::document::node::nodes_model(v@))
                || n.value == ValueModel::MultiDoc(crate::document::node::nodes_model(v@)),
        ensures
            final(self).wf(),
            final(self)@.expanded == old(self)@.expanded,
            final(self)@.lines == old(self)@.lines + child_lines(
                n,
                path@,
                depth as nat,
                old(self)@.expanded,
                0,
            ),
        decreases v, 0int,
    {
        let ghost exp = self@.expanded;
        let ghost l0 = self@.lines;
        let count = v.len();
        let mut i: usize = 0;
        while i < count
            invariant
                self.wf(),
                self@.expanded == exp,
                depth == path@.len(),
                count == v@.len(),
                n.value == ValueModel::Array(crate::document::node::nodes_model(v@))
                    || n.value == ValueModel::MultiDoc(crate::document::node::nodes_model(v@)),
                i <= count,
                self@.lines + child_lines(n, path@, depth as nat, exp, i as nat) == l0
                    + child_lines(n, path@, depth as nat, exp, 0),
            decreases count - i,
        {
            let child = &v[i];
            let child_path = path_child(path, i);
            let mut key = str_to_string("[");
            let digits = format_usize(i);
            push_str(&mut key, digits.as_str());
            push_str(&mut key, "]");
            let ghost key_text = key@;
            assert(key_text =~= index_key(i as nat));
            let ghost before = self@.lines;
            let (expanded, container) = self.push_child_line(
                child,
                child_path.as_slice(),
                depth,
                Some(key),
            );
            if expanded && container {
                self.build_lines(child, child_path.as_slice(), child_path.len());
            }
            proof {
                let cp = path@.push(i as usize);
                assert(child_path@ == cp);
                let sub = subtree_lines(child@, cp, depth as nat, Some(index_key(i as nat)), exp);
                assert(child_lines(n, path@, depth as nat, exp, i as nat) == sub + child_lines(
                    n,
                    path@,
                    depth as nat,
                    exp,
                    (i + 1) as nat,
                ));
                assert(self@.lines =~= before + sub);
                assert(self@.lines + child_lines(n, path@, depth as nat, exp, (i + 1) as nat)
                    =~= before + child_lines(n, path@, depth as nat, exp, i as nat));
            }
            i = i + 1;
        }
        assert(self@.lines =~= l0 + child_lines(n, path@, depth as nat, exp, 0));
    }

    /// Appends the lines of a multi-document root: each document as one
    /// line at depth 0, followed by its contents when expanded.
    fn render_multidoc_root(&mut self, docs: &Vec<YamlNode>)
        requires
            old(self).wf(),
        ensures
            final(self).wf(),
            final(self)@.expanded == old(self)@.expanded,
            final(self)@.lines == old(self)@.lines + multidoc_lines(
                crate::document::node::nodes_model(docs@),
                old(self)@.expanded,
                0,
            ),
    {
        let ghost exp = self@.expanded;
        let ghost l0 = self@.lines;
        let ghost dm = crate::document::node::nodes_model(docs@);
        let count = docs.len();
        let mut idx: usize = 0;
        while idx < count
            invariant
                self.wf(),
                self@.expanded == exp,
                count == docs@.len(),
                dm == crate::document::node::nodes_model(docs@),
                idx <= count,
                self@.lines + multidoc_lines(dm, exp, idx as nat) == l0 + multidoc_lines(dm, exp, 0),
            decreases count - idx,
        {
            let node = &docs[idx];
            proof {
                lemma_node_value_view(*node);
            }
            let mut path: Vec<usize> = Vec::new();
            path.push(idx);
            let expanded = self.is_expanded(path.as_slice());
            let preview = format_collapsed_preview(node, PREVIEW_WIDTH);
            let line = TreeViewLine {
                path: path_to_vec(path.as_slice()),
                depth: 0,
                key: None,
                value_type: ValueType::from_yaml_value(node.value()),
                value_preview: preview,
                expandable: true,
                expanded,
            };
            let ghost before = self@.lines;
            self.lines.push(line);
            assert(lines_view(self.lines@) =~= before.push(line@));
            if expanded {
                self.build_lines(node, path.as_slice(), 1);
            }
            proof {
                let p = seq![idx];
                assert(path@ =~= p);
                assert(self@.lines + multidoc_lines(dm, exp, (idx + 1) as nat)
                    =~= before + multidoc_lines(dm, exp, idx as nat));
            }
            idx = idx + 1;
        }
        assert(self@.lines =~= l0 + multidoc_lines(dm, exp, 0));
    }

    /// Rebuilds the visible lines from the tree and the expanded set (see
    /// `visible_lines`).
    pub fn rebuild(&mut self, tree: &YamlTree)
        requires
            old(self).wf(),
        ensures
            final(self).wf(),
            final(self)@.expanded == old(self)@.expanded,
            final(self)@.lines == visible_lines(tree@.root, old(self)@.expanded),
    {
        self.lines.clear();
        assert(self@.lines =~= Seq::<LineModel>::empty());
        let root = tree.root();
        proof {
            lemma_node_value_view(*root);
            reveal_views(&root.value);
        }
        match root.value() {
            YamlValue::MultiDoc(docs) => {
                self.render_multidoc_root(docs);
                assert(self@.lines =~= visible_lines(tree@.root, old(self)@.expanded));
            },
            _ => {
                let empty: Vec<usize> = Vec::new();
                self.build_lines(root, empty.as_slice(), 0);
                assert(empty@ =~= Seq::<usize>::empty());
                assert(self@.lines =~= visible_lines(tree@.root, old(self)@.expanded));
            },
        }
    }


    /// Expands every container strictly below `node` (which sits at `path`).
    fn expand_all_recursive(&mut self, node: &YamlNode, path: &[usize])
        requires
            old(self).wf(),
        ensures
            final(self).wf(),
            final(self)@.lines == old(self)@.lines,
            final(self)@.expanded == old(self)@.expanded.union(containers_below(node@, path@)),
        decreases node, 1int,
    {
        proof {
            lemma_node_value_view(*node);
            reveal_views(&node.value);
        }
        match &node.value {
            YamlValue::Object(e) => self.set_entries_below(e, path, true, Ghost(node@)),
            YamlValue::Array(v) => self.set_elements_below(v, path, true, Ghost(node@)),
            YamlValue::MultiDoc(v) => self.set_elements_below(v, path, true, Ghost(node@)),
            _ => {
                assert forall|q: Seq<usize>| !container_path_below(node@, path@, q) by {
                    if container_path_below(node@, path@, q) {
                        lemma_below_bound(node@, path@, q);
                    }
                }
                assert(self@.expanded =~= old(self)@.expanded.union(containers_below(node@, path@)));
            },
        }
    }

    /// Collapses every container strictly below `node` (which sits at
    /// `path`).
    fn collapse_all_recursive(&mut self, node: &YamlNode, path: &[usize])
        requires
            old(self).wf(),
        ensures
            final(self).wf(),
            final(self)@.lines == old(self)@.lines,
            final(self)@.expanded == old(self)@.expanded.difference(containers_below(node@, path@)),
        decreases node, 1int,
    {
        proof {
            lemma_node_value_view(*node);
            reveal_views(&node.value);
        }
        match &node.value {
            YamlValue::Object(e) => self.set_entries_below(e, path, false, Ghost(node@)),
            YamlValue::Array(v) => self.set_elements_below(v, path, false, Ghost(node@)),
            YamlValue::MultiDoc(v) => self.set_elements_below(v, path, false, Ghost(node@)),
            _ => {
                assert forall|q: Seq<usize>| !container_path_below(node@, path@, q) by {
                    if container_path_below(node@, path@, q) {
                        lemma_below_bound(node@, path@, q);
                    }
                }
                assert(self@.expanded =~= old(self)@.expanded.difference(containers_below(node@, path@)));
            },
        }
    }

    /// Expands (`expand`) or collapses the container children of a mapping
    /// and everything below them.
    fn set_entries_below(
        &mut self,
        e: &Vec<(String, YamlNode)>,
        path: &[usize],
        expand: bool,
        Ghost(n): Ghost<NodeModel>,
    )
        requires
            old(self).wf(),
            n.value == ValueModel::Object(crate::document::node::entries_model(e@)),
        ensures
            final(self).wf(),
            final(self)@.lines == old(self)@.lines,
            expand ==> final(self)@.expanded == old(self)@.expanded.union(containers_below(n, path@)),
            !expand ==> final(self)@.expanded == old(self)@.expanded.difference(containers_below(n, path@)),
        decreases e, 0int,
    {
        let ghost s0 = self@.expanded;
        let ghost l0 = self@.lines;
        let count = e.len();
        let mut i: usize = 0;
        while i < count
            invariant
                self.wf(),
                self@.lines == l0,
                count == e@.len(),
                n.value == ValueModel::Object(crate::document::node::entries_model(e@)),
                i <= count,
                forall|q: Seq<usize>| #[trigger] self@.expanded.contains(q) <==> if expand {
                    s0.contains(q) || (container_path_below(n, path@, q) && q[path@.len() as int] < i)
                } else {
                    s0.contains(q) && !(container_path_below(n, path@, q) && q[path@.len() as int] < i)
                },
            decreases count - i,
        {
            let child = &e[i].1;
            let child_path = path_child(path, i);
            let ghost before = self@.expanded;
            proof {
                lemma_node_value_view(*child);
            }
            if child.value().is_container() {
                if expand {
                    self.expand_path(child_path.as_slice());
                    self.expand_all_recursive(child, child_path.as_slice());
                } else {
                    self.collapse_path(child_path.as_slice());
                    self.collapse_all_recursive(child, child_path.as_slice());
                }
            }
            proof {
                assert forall|q: Seq<usize>| #[trigger] self@.expanded.contains(q) <==> if expand {
                    s0.contains(q) || (container_path_below(n, path@, q) && q[path@.len() as int] < i + 1)
                } else {
                    s0.contains(q) && !(container_path_below(n, path@, q) && q[path@.len() as int] < i + 1)
                } by {
                    lemma_below_child(n, path@, i, child@, q);
                    assert(before.contains(q) <==> if expand {
                        s0.contains(q) || (container_path_below(n, path@, q) && q[path@.len() as int] < i)
                    } else {
                        s0.contains(q) && !(container_path_below(n, path@, q) && q[path@.len() as int] < i)
                    });
                }
            }
            i = i + 1;
        }
        proof {
            assert forall|q: Seq<usize>| container_path_below(n, path@, q) implies q[path@.len() as int] < count by {
                lemma_below_bound(n, path@, q);
            }
            if expand {
                assert(self@.expanded =~= s0.union(containers_below(n, path@)));
            } else {
                assert(self@.expanded =~= s0.difference(containers_below(n, path@)));
            }
        }
    }

    /// Expands (`expand`) or collapses the container elements of a sequence
    /// and everything below them.
    fn set_elements_below(&mut self, v: &Vec<YamlNode>, path: &[usize], expand: bool, Ghost(n): Ghost<NodeModel>)
        requires
            old(self).wf(),
            n.value == ValueModel::Array(crate::document::node::nodes_model(v@))
                || n.value == ValueModel::MultiDoc(crate::document::node::nodes_model(v@)),
        ensures
            final(self).wf(),
            final(self)@.lines == old(self)@.lines,
            expand ==> final(self)@.expanded == old(self)@.expanded.union(containers_below(n, path@)),
            !expand ==> final(self)@.expanded == old(self)@.expanded.difference(containers_below(n, path@)),
        decreases v, 0int,
    {
        let ghost s0 = self@.expanded;
        let ghost l0 = self@.lines;
        let count = v.len();
        let mut i: usize = 0;
        while i < count
            invariant
                self.wf(),
                self@.lines == l0,
                count == v@.len(),
                n.value == ValueModel::Array(crate::document::node::nodes_model(v@))
                    || n.value == ValueModel::MultiDoc(crate::document::node::nodes_model(v@)),
                i <= count,
                forall|q: Seq<usize>| #[trigger] self@.expanded.contains(q) <==> if expand {
                    s0.contains(q) || (container_path_below(n, path@, q) && q[path@.len() as int] < i)
                } else {
                    s0.contains(q) && !(container_path_below(n, path@, q) && q[path@.len() as int] < i)
                },
            decreases count - i,
        {
            let child = &v[i];
            let child_path = path_child(path, i);
            let ghost before = self@.expanded;
            proof {
                lemma_node_value_view(*child);
            }
            if child.value().is_container() {
                if expand {
                    self.expand_path(child_path.as_slice());
                    self.expand_all_recursive(child, child_path.as_slice());
                } else {
                    self.collapse_path(child_path.as_slice());
                    self.collapse_all_recursive(child, child_path.as_slice());
                }
            }
            proof {
                assert forall|q: Seq<usize>| #[trigger] self@.expanded.contains(q) <==> if expand {
                    s0.contains(q) || (container_path_below(n, path@, q) && q[path@.len() as int] < i + 1)
                } else {
                    s0.contains(q) && !(container_path_below(n, path@, q) && q[path@.len() as int] < i + 1)
                } by {
                    lemma_below_child(n, path@, i, child@, q);
                    assert(before.contains(q) <==> if expand {
                        s0.contains(q) || (container_path_below(n, path@, q) && q[path@.len() as int] < i)
                    } else {
                        s0.contains(q) && !(container_path_below(n, path@, q) && q[path@.len() as int] < i)
                    });
                }
            }
            i = i + 1;
        }
        proof {
            assert forall|q: Seq<usize>| container_path_below(n, path@, q) implies q[path@.len() as int] < count by {
                lemma_below_bound(n, path@, q);
            }
            if expand {
                assert(self@.expanded =~= s0.union(containers_below(n, path@)));
            } else {
                assert(self@.expanded =~= s0.difference(containers_below(n, path@)));
            }
        }
    }

    /// Expands every container of the tree (call `rebuild` afterwards).
    pub fn expand_all(&mut self, tree: &YamlTree)
        requires
            old(self).wf(),
        ensures
            final(self).wf(),
            final(self)@.lines == old(self)@.lines,
            final(self)@.expanded == old(self)@.expanded.union(
                containers_below(tree@.root, Seq::empty()),
            ),
    {
        let empty: Vec<usize> = Vec::new();
        assert(empty@ =~= Seq::<usize>::empty());
        self.expand_all_recursive(tree.root(), empty.as_slice());
    }

    /// Expands the node at `path` and every container below it.
    pub fn expand_node_and_descendants(&mut self, tree: &YamlTree, path: &[usize])
        requires
            old(self).wf(),
        ensures
            final(self).wf(),
            final(self)@.lines == old(self)@.lines,
            final(self)@.expanded == old(self)@.expanded.union(
                node_and_descendants(tree@.root, path@),
            ),
    {
        self.expand_path(path);
        match tree.get_node(path) {
            Some(node) => {
                self.expand_all_recursive(node, path);
            },
            None => {},
        }
        assert(self@.expanded =~= old(self)@.expanded.union(node_and_descendants(tree@.root, path@)));
    }

    /// Collapses the node at `path` and every container below it.
    pub fn collapse_node_and_descendants(&mut self, tree: &YamlTree, path: &[usize])
        requires
            old(self).wf(),
        ensures
            final(self).wf(),
            final(self)@.lines == old(self)@.lines,
            final(self)@.expanded == old(self)@.expanded.difference(
                node_and_descendants(tree@.root, path@),
            ),
    {
        self.collapse_path(path);
        match tree.get_node(path) {
            Some(node) => {
                self.collapse_all_recursive(node, path);
            },
            None => {},
        }
        assert(self@.expanded =~= old(self)@.expanded.difference(node_and_descendants(tree@.root, path@)));
    }

    /// Whether no expanded path holds the index `usize::MAX` (so that every
    /// expanded path can be shifted by an insertion).
    pub fn expanded_paths_fit(&self) -> (r: bool)
        requires
            self.wf(),
        ensures
            r == indices_fit(self@.expanded),
    {
        let entries = self.expanded_paths.as_slice();
        let mut j: usize = 0;
        while j < entries.len()
            invariant
                entries@ == self.expanded_paths.entries@,
                self.expanded_paths.wf(),
                j <= entries@.len(),
                forall|m: int, i: int| 0 <= m < j && 0 <= i < entries@[m].0@.len() ==> entries@[m].0@[i] < usize::MAX,
            decreases entries.len() - j,
        {
            let p = &entries[j].0;
            let mut i: usize = 0;
            while i < p.len()
                invariant
                    entries@ == self.expanded_paths.entries@,
                    self.expanded_paths.wf(),
                    j < entries@.len(),
                    p@ == entries@[j as int].0@,
                    i <= p@.len(),
                    forall|k: int| 0 <= k < i ==> p@[k] < usize::MAX,
                decreases p.len() - i,
            {
                if p[i] == usize::MAX {
                    proof {
                        crate::assoc::lemma_lookup(self.expanded_paths.entries@, j as int);
                        assert(self@.expanded.contains(p@));
                        assert(p@[i as int] == usize::MAX);
                    }
                    return false;
                }
                i = i + 1;
            }
            j = j + 1;
        }
        proof {
            assert forall|q: Seq<usize>, i: int| self@.expanded.contains(q) && 0 <= i < q.len() implies q[i] < usize::MAX by {
                assert(crate::assoc::has_key(self.expanded_paths.entries@, q));
                let m = choose|m: int| 0 <= m < entries@.len() && #[trigger] entries@[m].0.model() == q;
            }
        }
        true
    }

    /// Preview of a value: containers show their size, scalars their text.
    pub fn get_value_preview(&self, value: &YamlValue) -> (r: String)
        ensures
            r@ == value_preview(value@),
    {
        value_preview_text(value)
    }
}

impl Default for TreeViewState {
    fn default() -> (r: Self)
        ensures
            r.wf(),
            r@.lines == Seq::<LineModel>::empty(),
            r@.expanded == Set::<Seq<usize>>::empty(),
    {
        TreeViewState::new()
    }
}

} // verus!
