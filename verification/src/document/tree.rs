//! Path-based navigation and editing of a YAML document tree, with the
//! registry of anchors and aliases it holds.

use vstd::prelude::*;
use crate::assoc::{AssocMap, Key};
use crate::document::edit::{
    edit_allowed, edit_at, edit_at_model, update_at, EditModel, EditOp, TreeError,
};
use crate::document::node::{model_of, node_at, reveal_views, NodeMetadata, NodeModel, ValueModel, YamlNode, YamlValue};
use crate::paths::{path_child, path_prefix, path_to_vec, paths_equal};
use crate::text::{chars_of, str_to_string, string_from_char_range};

verus! {

broadcast use vstd::std_specs::vec::group_vec_axioms;

fn find_value_path(entries: &[(String, Vec<usize>)], path: &[usize]) -> (r: Option<usize>)
    ensures
        match r {
            Some(j) => j < entries@.len() && entries@[j as int].1@ == path@,
            None => forall|j: int| 0 <= j < entries@.len() ==> (#[trigger] entries@[j]).1@ != path@,
        },
{
    let mut i: usize = 0;
    while i < entries.len()
        invariant
            i <= entries@.len(),
            forall|j: int| 0 <= j < i ==> (#[trigger] entries@[j]).1@ != path@,
        decreases entries.len() - i,
    {
        if paths_equal(entries[i].1.as_slice(), path) {
            return Some(i);
        }
        i = i + 1;
    }
    None
}

/// Some entry before position `n` maps path `p` to anchor `a`.
pub open spec fn hits(s: Seq<(Vec<usize>, String)>, n: int, p: Seq<usize>, a: Seq<char>) -> bool {
    exists|j: int| 0 <= j < n && #[trigger] s[j].0@ == p && s[j].1@ == a
}

/// Some entry before position `n` has path `p`.
pub open spec fn seen(s: Seq<(Vec<usize>, String)>, n: int, p: Seq<usize>) -> bool {
    exists|j: int| 0 <= j < n && #[trigger] s[j].0@ == p
}

/// Path `p` occurs in the list.
pub open spec fn listed(r: Seq<&Vec<usize>>, p: Seq<usize>) -> bool {
    exists|i: int| 0 <= i < r.len() && (#[trigger] r[i])@ == p
}

/// The anchors of `m` whose node is not at path `p`.
pub open spec fn anchors_not_at(m: Map<Seq<char>, Seq<usize>>, p: Seq<usize>) -> Map<Seq<char>, Seq<usize>> {
    Map::new(|k: Seq<char>| m.contains_key(k) && m[k] != p, |k: Seq<char>| m[k])
}

/// Model of the anchor registry.
pub struct RegistryModel {
    /// Anchor name to the path of the node that defines it
    pub anchors: Map<Seq<char>, Seq<usize>>,
    /// Path of an alias node to the anchor name it refers to
    pub aliases: Map<Seq<usize>, Seq<char>>,
}

pub open spec fn empty_registry() -> RegistryModel {
    RegistryModel { anchors: Map::empty(), aliases: Map::empty() }
}

/// Tracks anchor definitions and alias references within a YAML tree.
pub struct AnchorRegistry {
    anchor_definitions: AssocMap<String, Vec<usize>>,
    alias_references: AssocMap<Vec<usize>, String>,
}

impl View for AnchorRegistry {
    type V = RegistryModel;

    closed spec fn view(&self) -> RegistryModel {
        RegistryModel {
            anchors: self.anchor_definitions@.map_values(|p: Vec<usize>| p@),
            aliases: self.alias_references@.map_values(|s: String| s@),
        }
    }
}

impl AnchorRegistry {
    /// A copy of the registry.
    pub fn duplicate(&self) -> (r: Self)
        requires
            self.wf(),
        ensures
            r.wf(),
            r@ == self@,
    {
        let a = self.anchor_definitions.as_slice();
        let mut ae: Vec<(String, Vec<usize>)> = Vec::new();
        let mut i: usize = 0;
        while i < a.len()
            invariant
                i <= a@.len(),
                ae@.len() == i,
                forall|j: int| 0 <= j < i ==> (#[trigger] ae@[j]).0@ == a@[j].0@ && ae@[j].1@ == a@[j].1@,
            decreases a.len() - i,
        {
            ae.push((a[i].0.clone(), path_to_vec(a[i].1.as_slice())));
            i = i + 1;
        }
        let b = self.alias_references.as_slice();
        let mut be: Vec<(Vec<usize>, String)> = Vec::new();
        let mut i: usize = 0;
        while i < b.len()
            invariant
                i <= b@.len(),
                be@.len() == i,
                forall|j: int| 0 <= j < i ==> (#[trigger] be@[j]).0@ == b@[j].0@ && be@[j].1@ == b@[j].1@,
            decreases b.len() - i,
        {
            be.push((path_to_vec(b[i].0.as_slice()), b[i].1.clone()));
            i = i + 1;
        }
        proof {
            crate::assoc::lemma_same_keys(a@, ae@);
            crate::assoc::lemma_same_keys(b@, be@);
        }
        let r = AnchorRegistry {
            anchor_definitions: AssocMap { entries: ae },
            alias_references: AssocMap { entries: be },
        };
        proof {
            assert(r@.anchors =~= self@.anchors);
            assert(r@.aliases =~= self@.aliases);
        }
        r
    }

    /// The registry's internal maps are well formed.
    pub closed spec fn wf(&self) -> bool {
        self.anchor_definitions.wf() && self.alias_references.wf()
    }

    /// Creates a new empty registry.
    pub fn new() -> (r: Self)
        ensures
            r.wf(),
            r@ == empty_registry(),
    {
        let r = AnchorRegistry { anchor_definitions: AssocMap::new(), alias_references: AssocMap::new() };
        assert(r@.anchors =~= Map::<Seq<char>, Seq<usize>>::empty());
        assert(r@.aliases =~= Map::<Seq<usize>, Seq<char>>::empty());
        r
    }

    /// Registers an anchor definition at the given path.
    pub fn register_anchor(&mut self, name: String, path: Vec<usize>)
        requires
            old(self).wf(),
        ensures
            final(self).wf(),
            final(self)@ == (RegistryModel { anchors: old(self)@.anchors.insert(name@, path@), ..old(self)@ }),
    {
        let ghost n = name@;
        let ghost p = path@;
        self.anchor_definitions.insert(name, path);
        assert(self@.anchors =~= old(self)@.anchors.insert(n, p));
    }

    /// Registers an alias reference at the given path.
    pub fn register_alias(&mut self, path: Vec<usize>, target: String)
        requires
            old(self).wf(),
        ensures
            final(self).wf(),
            final(self)@ == (RegistryModel { aliases: old(self)@.aliases.insert(path@, target@), ..old(self)@ }),
    {
        let ghost p = path@;
        let ghost t = target@;
        self.alias_references.insert(path, target);
        assert(self@.aliases =~= old(self)@.aliases.insert(p, t));
    }

    /// Returns the path to the node with the given anchor name.
    pub fn get_anchor_path(&self, name: &str) -> (r: Option<&Vec<usize>>)
        requires
            self.wf(),
        ensures
            match r {
                Some(p) => self@.anchors.contains_key(name@) && self@.anchors[name@] == p@,
                None => !self@.anchors.contains_key(name@),
            },
    {
        let key = str_to_string(name);
        self.anchor_definitions.get(&key)
    }

    /// Returns all alias paths that reference the given anchor, each once.
    pub fn get_aliases_for(&self, anchor: &str) -> (r: Vec<&Vec<usize>>)
        requires
            self.wf(),
        ensures
            forall|p: Seq<usize>|
                (self@.aliases.contains_key(p) && self@.aliases[p] == anchor@) == #[trigger] listed(r@, p),
            forall|i: int, j: int| 0 <= i < r@.len() && 0 <= j < r@.len() && i != j ==> r@[i]@ != r@[j]@,
    {
        let target = str_to_string(anchor);
        let entries = self.alias_references.as_slice();
        let ghost s = self.alias_references.entries@;
        let mut out: Vec<&Vec<usize>> = Vec::new();
        let mut i: usize = 0;
        while i < entries.len()
            invariant
                entries@ == s,
                crate::assoc::keys_distinct(s),
                i <= s.len(),
                target@ == anchor@,
                forall|p: Seq<usize>| #![trigger hits(s, i as int, p, anchor@)] #![trigger listed(out@, p)]
                    hits(s, i as int, p, anchor@) == listed(out@, p),
                forall|a: int, b: int| 0 <= a < out@.len() && 0 <= b < out@.len() && a != b ==> out@[a]@ != out@[b]@,
                forall|m: int| 0 <= m < out@.len() ==> #[trigger] seen(s, i as int, out@[m]@),
            decreases s.len() - i,
        {
            let ghost out0 = out@;
            if entries[i].1 == target {
                proof {
                    assert forall|m: int| 0 <= m < out@.len() implies out@[m]@ != s[i as int].0@ by {
                        assert(seen(s, i as int, out@[m]@));
                        let j = choose|j: int| 0 <= j < i && #[trigger] s[j].0@ == out@[m]@;
                        assert(s[j].0.model() != s[i as int].0.model());
                    }
                }
                out.push(&entries[i].0);
                proof {
                    assert forall|p: Seq<usize>| #![trigger hits(s, i + 1, p, anchor@)] #![trigger listed(out@, p)]
                        hits(s, i + 1, p, anchor@) == listed(out@, p) by {
                        if hits(s, i + 1, p, anchor@) {
                            let j = choose|j: int| 0 <= j < i + 1 && #[trigger] s[j].0@ == p && s[j].1@ == anchor@;
                            if j == i {
                                assert(out@[out@.len() - 1]@ == p);
                            } else {
                                assert(hits(s, i as int, p, anchor@));
                                assert(listed(out0, p));
                                let m = choose|m: int| 0 <= m < out0.len() && (#[trigger] out0[m])@ == p;
                                assert(out@[m]@ == p);
                            }
                        }
                        if listed(out@, p) {
                            let m = choose|m: int| 0 <= m < out@.len() && (#[trigger] out@[m])@ == p;
                            if m == out@.len() - 1 {
                                assert(s[i as int].0@ == p);
                            } else {
                                assert(out0[m]@ == p);
                                assert(listed(out0, p));
                                assert(hits(s, i as int, p, anchor@));
                                let j = choose|j: int| 0 <= j < i && #[trigger] s[j].0@ == p && s[j].1@ == anchor@;
                                assert(s[j].0@ == p);
                            }
                        }
                    }
                    assert forall|m: int| 0 <= m < out@.len() implies #[trigger] seen(s, i + 1, out@[m]@) by {
                        if m == out@.len() - 1 {
                            assert(s[i as int].0@ == out@[m]@);
                        } else {
                            assert(seen(s, i as int, out@[m]@));
                            let j = choose|j: int| 0 <= j < i && #[trigger] s[j].0@ == out@[m]@;
                            assert(s[j].0@ == out@[m]@);
                        }
                    }
                }
            } else {
                proof {
                    assert forall|p: Seq<usize>| #![trigger hits(s, i + 1, p, anchor@)] #![trigger listed(out@, p)]
                        hits(s, i + 1, p, anchor@) == listed(out@, p) by {
                        if hits(s, i + 1, p, anchor@) {
                            let j = choose|j: int| 0 <= j < i + 1 && #[trigger] s[j].0@ == p && s[j].1@ == anchor@;
                            assert(j != i);
                            assert(hits(s, i as int, p, anchor@));
                        }
                        if listed(out@, p) {
                            assert(hits(s, i as int, p, anchor@));
                            let j = choose|j: int| 0 <= j < i && #[trigger] s[j].0@ == p && s[j].1@ == anchor@;
                            assert(s[j].0@ == p);
                        }
                    }
                    assert forall|m: int| 0 <= m < out@.len() implies #[trigger] seen(s, i + 1, out@[m]@) by {
                        assert(seen(s, i as int, out@[m]@));
                        let j = choose|j: int| 0 <= j < i && #[trigger] s[j].0@ == out@[m]@;
                        assert(s[j].0@ == out@[m]@);
                    }
                }
            }
            i = i + 1;
        }
        proof {
            assert forall|p: Seq<usize>|
                (self@.aliases.contains_key(p) && self@.aliases[p] == anchor@) == #[trigger] listed(out@, p) by {
                if self@.aliases.contains_key(p) && self@.aliases[p] == anchor@ {
                    let j = choose|j: int| 0 <= j < s.len() && #[trigger] s[j].0.model() == p;
                    crate::assoc::lemma_lookup(s, j);
                    assert(s[j].0@ == p && s[j].1@ == anchor@);
                    assert(hits(s, s.len() as int, p, anchor@));
                }
                if listed(out@, p) {
                    assert(hits(s, s.len() as int, p, anchor@));
                    let j = choose|j: int| 0 <= j < s.len() && #[trigger] s[j].0@ == p && s[j].1@ == anchor@;
                    crate::assoc::lemma_lookup(s, j);
                }
            }
        }
        out
    }

    /// Returns true if no alias references the given anchor.
    pub fn can_delete_anchor(&self, name: &str) -> (r: bool)
        requires
            self.wf(),
        ensures
            r == !exists|p: Seq<usize>| self@.aliases.contains_key(p) && #[trigger] self@.aliases[p] == name@,
    {
        let aliases = self.get_aliases_for(name);
        proof {
            if aliases@.len() > 0 {
                let p = aliases@[0]@;
                assert(listed(aliases@, p));
                assert(self@.aliases.contains_key(p) && self@.aliases[p] == name@);
            }
            if exists|p: Seq<usize>| self@.aliases.contains_key(p) && #[trigger] self@.aliases[p] == name@ {
                let p = choose|p: Seq<usize>| self@.aliases.contains_key(p) && #[trigger] self@.aliases[p] == name@;
                assert(listed(aliases@, p));
            }
        }
        aliases.len() == 0
    }

    /// Removes all registrations for the node at `path`: its alias
    /// reference, and every anchor defined at it.
    pub fn remove_node(&mut self, path: &[usize])
        requires
            old(self).wf(),
        ensures
            final(self).wf(),
            final(self)@.aliases == old(self)@.aliases.remove(path@),
            final(self)@.anchors == anchors_not_at(old(self)@.anchors, path@),
    {
        let key = path_to_vec(path);
        let ghost a0 = self.alias_references@;
        self.alias_references.remove(&key);
        assert(self@.aliases =~= old(self)@.aliases.remove(path@));
        let ghost old_anchors = old(self)@.anchors;
        let ghost keep = anchors_not_at(old_anchors, path@).dom();
        loop
            invariant
                self.anchor_definitions.wf(),
                self.alias_references.wf(),
                self@.aliases == old(self)@.aliases.remove(path@),
                old_anchors == old(self)@.anchors,
                keep == anchors_not_at(old_anchors, path@).dom(),
                forall|k: Seq<char>| #[trigger] self@.anchors.contains_key(k) ==> old_anchors.contains_key(k) && self@.anchors[k] == old_anchors[k],
                forall|k: Seq<char>| keep.contains(k) ==> #[trigger] self@.anchors.contains_key(k),
            decreases self.anchor_definitions.entries@.len(),
        {
            let entries = self.anchor_definitions.as_slice();
            let found = find_value_path(entries, path);
            match found {
                Some(j) => {
                    let ghost s = self.anchor_definitions.entries@;
                    let k = entries[j].0.clone();
                    proof {
                        crate::assoc::lemma_lookup(s, j as int);
                    }
                    let ghost prev = self@.anchors;
                    let ghost prev_map = self.anchor_definitions@;
                    self.anchor_definitions.remove(&k);
                    proof {
                        assert(self.anchor_definitions@ == prev_map.remove(k@));
                        assert(self@.anchors =~= prev.remove(k@));
                        assert(prev.contains_key(k@));
                        assert(prev[k@] == path@);
                        assert(old_anchors[k@] == prev[k@]);
                        assert(!keep.contains(k@));
                    }
                },
                None => {
                    proof {
                        let s = self.anchor_definitions.entries@;
                        assert forall|k: Seq<char>| #[trigger] self@.anchors.contains_key(k) implies keep.contains(k) by {
                            assert(self.anchor_definitions@.contains_key(k));
                            assert(crate::assoc::has_key(s, k));
                            let j = choose|j: int| 0 <= j < s.len() && #[trigger] s[j].0.model() == k;
                            crate::assoc::lemma_lookup(s, j);
                            assert(s[j].1@ != path@);
                            assert(self@.anchors[k] == self.anchor_definitions@[k]@);
                            assert(old_anchors[k] != path@);
                        }
                        assert(self@.anchors =~= anchors_not_at(old_anchors, path@));
                    }
                    return;
                },
            }
        }
    }
}

} // verus!

verus! {

/// The registry obtained by visiting `n` (found at `path`) and then its
/// descendants in document order, starting from `r`: every anchor name maps
/// to the last path that defines it, every alias path to its target.
pub open spec fn reg_node(n: NodeModel, path: Seq<usize>, r: RegistryModel) -> RegistryModel
    decreases n, 0int,
{
    let r1 = match n.anchor {
        Some(a) => RegistryModel { anchors: r.anchors.insert(a, path), ..r },
        None => r,
    };
    let r2 = match n.alias_target {
        Some(t) => RegistryModel { aliases: r1.aliases.insert(path, t), ..r1 },
        None => r1,
    };
    match n.value {
        ValueModel::Object(e) => reg_entries(e, path, 0, r2),
        ValueModel::Array(v) => reg_nodes(v, path, 0, r2),
        ValueModel::MultiDoc(v) => reg_nodes(v, path, 0, r2),
        _ => r2,
    }
}

/// Visits the elements `v[i..]` (children of the node at `path`) in order.
pub open spec fn reg_nodes(v: Seq<NodeModel>, path: Seq<usize>, i: int, r: RegistryModel) -> RegistryModel
    decreases v, v.len() - i,
{
    if 0 <= i < v.len() {
        reg_nodes(v, path, i + 1, reg_node(v[i], path.push(i as usize), r))
    } else {
        r
    }
}

/// Visits the entries `e[i..]` (children of the node at `path`) in order.
pub open spec fn reg_entries(e: Seq<(Seq<char>, NodeModel)>, path: Seq<usize>, i: int, r: RegistryModel) -> RegistryModel
    decreases e, e.len() - i,
{
    if 0 <= i < e.len() {
        reg_entries(e, path, i + 1, reg_node(e[i].1, path.push(i as usize), r))
    } else {
        r
    }
}

/// The registry of every anchor and alias in the tree rooted at `n`.
pub open spec fn registry_of(n: NodeModel) -> RegistryModel {
    reg_node(n, Seq::empty(), empty_registry())
}

fn register_node(reg: &mut AnchorRegistry, node: &YamlNode, path: &Vec<usize>)
    requires
        old(reg).wf(),
    ensures
        final(reg).wf(),
        final(reg)@ == reg_node(node@, path@, old(reg)@),
    decreases node, 1int,
{
    match &node.anchor {
        Some(a) => reg.register_anchor(a.clone(), path_to_vec(path.as_slice())),
        None => {},
    }
    match &node.alias_target {
        Some(t) => reg.register_alias(path_to_vec(path.as_slice()), t.clone()),
        None => {},
    }
    proof {
        reveal_views(&node.value);
    }
    match &node.value {
        YamlValue::Object(e) => register_entries(reg, e, path),
        YamlValue::Array(v) => register_nodes(reg, v, path),
        YamlValue::MultiDoc(v) => register_nodes(reg, v, path),
        _ => {},
    }
}

fn register_nodes(reg: &mut AnchorRegistry, v: &Vec<YamlNode>, path: &Vec<usize>)
    requires
        old(reg).wf(),
    ensures
        final(reg).wf(),
        final(reg)@ == reg_nodes(crate::document::node::nodes_model(v@), path@, 0, old(reg)@),
    decreases v, 0int,
{
    let ghost vm = crate::document::node::nodes_model(v@);
    let mut i: usize = 0;
    while i < v.len()
        invariant
            reg.wf(),
            i <= v@.len(),
            vm == crate::document::node::nodes_model(v@),
            reg_nodes(vm, path@, i as int, reg@) == reg_nodes(vm, path@, 0, old(reg)@),
        decreases v.len() - i,
    {
        let child_path = path_child(path.as_slice(), i);
        register_node(reg, &v[i], &child_path);
        i = i + 1;
    }
}

fn register_entries(reg: &mut AnchorRegistry, e: &Vec<(String, YamlNode)>, path: &Vec<usize>)
    requires
        old(reg).wf(),
    ensures
        final(reg).wf(),
        final(reg)@ == reg_entries(crate::document::node::entries_model(e@), path@, 0, old(reg)@),
    decreases e, 0int,
{
    let ghost em = crate::document::node::entries_model(e@);
    let mut i: usize = 0;
    while i < e.len()
        invariant
            reg.wf(),
            i <= e@.len(),
            em == crate::document::node::entries_model(e@),
            reg_entries(em, path@, i as int, reg@) == reg_entries(em, path@, 0, old(reg)@),
        decreases e.len() - i,
    {
        let child_path = path_child(path.as_slice(), i);
        register_node(reg, &e[i].1, &child_path);
        i = i + 1;
    }
}

} // verus!

verus! {

/// Model of a document tree.
pub struct TreeModel {
    pub root: NodeModel,
    pub source: Option<Seq<char>>,
    pub registry: RegistryModel,
}


proof fn lemma_value_entry_replaced(a: YamlValue, b: YamlValue, i: int)
    requires
        a is Object,
        b is Object,
        0 <= i < a->Object_0@.len(),
        b->Object_0@ == a->Object_0@.update(i, (a->Object_0@[i].0, b->Object_0@[i].1)),
    ensures
        b@ == crate::document::edit::with_child(a@, i, b->Object_0@[i].1@),
{
    reveal_views(&a);
    reveal_views(&b);
    let ea = a->Object_0@;
    let eb = b->Object_0@;
    assert(crate::document::node::entries_model(eb) =~= crate::document::node::entries_model(ea).update(
        i,
        (ea[i].0@, eb[i].1@),
    ));
}

proof fn lemma_value_entry_replaced_all(a: YamlValue, i: int)
    requires
        a is Object,
        0 <= i < a->Object_0@.len(),
    ensures
        forall|b: YamlValue|
            b is Object && b->Object_0@ == a->Object_0@.update(i, (a->Object_0@[i].0, b->Object_0@[i].1))
                ==> #[trigger] b@ == crate::document::edit::with_child(a@, i, b->Object_0@[i].1@),
{
    assert forall|b: YamlValue|
        b is Object && b->Object_0@ == a->Object_0@.update(i, (a->Object_0@[i].0, b->Object_0@[i].1))
            implies #[trigger] b@ == crate::document::edit::with_child(a@, i, b->Object_0@[i].1@) by {
        lemma_value_entry_replaced(a, b, i);
    }
}

proof fn lemma_value_element_replaced_all(a: YamlValue, i: int)
    requires
        (a is Array && 0 <= i < a->Array_0@.len()) || (a is MultiDoc && 0 <= i < a->MultiDoc_0@.len()),
    ensures
        forall|b: YamlValue|
            a is Array && b is Array && b->Array_0@ == a->Array_0@.update(i, b->Array_0@[i])
                ==> #[trigger] b@ == crate::document::edit::with_child(a@, i, b->Array_0@[i]@),
        forall|b: YamlValue|
            a is MultiDoc && b is MultiDoc && b->MultiDoc_0@ == a->MultiDoc_0@.update(i, b->MultiDoc_0@[i])
                ==> #[trigger] b@ == crate::document::edit::with_child(a@, i, b->MultiDoc_0@[i]@),
{
    assert forall|b: YamlValue|
        a is Array && b is Array && b->Array_0@ == a->Array_0@.update(i, b->Array_0@[i])
            implies #[trigger] b@ == crate::document::edit::with_child(a@, i, b->Array_0@[i]@) by {
        reveal_views(&a);
        reveal_views(&b);
        assert(crate::document::node::nodes_model(b->Array_0@) =~= crate::document::node::nodes_model(
            a->Array_0@,
        ).update(i, b->Array_0@[i]@));
    }
    assert forall|b: YamlValue|
        a is MultiDoc && b is MultiDoc && b->MultiDoc_0@ == a->MultiDoc_0@.update(i, b->MultiDoc_0@[i])
            implies #[trigger] b@ == crate::document::edit::with_child(a@, i, b->MultiDoc_0@[i]@) by {
        reveal_views(&a);
        reveal_views(&b);
        assert(crate::document::node::nodes_model(b->MultiDoc_0@) =~= crate::document::node::nodes_model(
            a->MultiDoc_0@,
        ).update(i, b->MultiDoc_0@[i]@));
    }
}

proof fn lemma_same_child(v: ValueModel, i: int)
    ensures
        v.child(i) matches Some(c) ==> crate::document::edit::with_child(v, i, c) == v,
{
    match v {
        ValueModel::Object(e) => if 0 <= i < e.len() {
            assert(e.update(i, (e[i].0, e[i].1)) =~= e);
        },
        ValueModel::Array(a) => if 0 <= i < a.len() {
            assert(a.update(i, a[i]) =~= a);
        },
        ValueModel::MultiDoc(a) => if 0 <= i < a.len() {
            assert(a.update(i, a[i]) =~= a);
        },
        _ => {},
    }
}

/// Every node's model is built from its value's model and its metadata.
proof fn lemma_node_parts_all()
    ensures
        forall|n: YamlNode| #[trigger] model_of(n) == (NodeModel {
            value: n.value@,
            metadata: n.metadata,
            anchor: crate::document::node::opt_str_view(n.anchor),
            alias_target: crate::document::node::opt_str_view(n.alias_target),
        }),
{
    assert forall|n: YamlNode| #[trigger] model_of(n) == (NodeModel {
        value: n.value@,
        metadata: n.metadata,
        anchor: crate::document::node::opt_str_view(n.anchor),
        alias_target: crate::document::node::opt_str_view(n.alias_target),
    }) by {
        crate::document::node::lemma_node_value_view(n);
    }
}

/// The `i`-th child of a container, for changing it in place.
fn child_mut(v: &mut YamlValue, i: usize) -> (r: Option<&mut YamlNode>)
    ensures
        match r {
            Some(c) => old(v)@.child(i as int) == Some((*c)@) && final(v)@
                == crate::document::edit::with_child(old(v)@, i as int, final(c)@),
            None => old(v)@.child(i as int) is None && *final(v) == *old(v),
        },
{
    proof {
        let w: YamlValue = *v;
        reveal_views(&w);
        if w is Object && i < w->Object_0@.len() {
            lemma_value_entry_replaced_all(w, i as int);
        }
        if (w is Array && i < w->Array_0@.len()) || (w is MultiDoc && i < w->MultiDoc_0@.len()) {
            lemma_value_element_replaced_all(w, i as int);
        }
    }
    match v {
        YamlValue::Object(e) => {
            if i < e.len() {
                let entry = &mut e[i];
                Some(&mut entry.1)
            } else {
                None
            }
        },
        YamlValue::Array(a) => {
            if i < a.len() {
                Some(&mut a[i])
            } else {
                None
            }
        },
        YamlValue::MultiDoc(a) => {
            if i < a.len() {
                Some(&mut a[i])
            } else {
                None
            }
        },
        _ => None,
    }
}

/// The node below `node` at `path[i..]`, for changing it in place.
fn node_mut_at<'a>(node: &'a mut YamlNode, path: &[usize], i: usize) -> (r: Option<&'a mut YamlNode>)
    requires
        i <= path@.len(),
    ensures
        match r {
            Some(n) => node_at(old(node)@, path@.skip(i as int)) == Some((*n)@) && final(node)@
                == crate::document::edit::update_at(old(node)@, path@.skip(i as int), final(n)@),
            None => node_at(old(node)@, path@.skip(i as int)) is None && final(node)@ == old(node)@,
        },
    decreases path@.len() - i,
{
    proof {
        lemma_node_parts_all();
    }
    if i == path.len() {
        assert(path@.skip(i as int) =~= Seq::<usize>::empty());
        return Some(node);
    }
    let idx = path[i];
    let ghost rest = path@.skip(i as int);
    assert(rest[0] == idx);
    assert(rest.drop_first() =~= path@.skip(i + 1));
    proof {
        lemma_same_child(node@.value, idx as int);
    }
    match child_mut(&mut node.value, idx) {
        Some(c) => node_mut_at(c, path, i + 1),
        None => None,
    }
}

/// A complete YAML document tree: the root node, the original source text
/// (kept for format preservation) and the registry of anchors and aliases.
pub struct YamlTree {
    root: YamlNode,
    original_source: Option<String>,
    anchor_registry: AnchorRegistry,
}

impl View for YamlTree {
    type V = TreeModel;

    closed spec fn view(&self) -> TreeModel {
        TreeModel {
            root: self.root@,
            source: crate::document::node::opt_str_view(self.original_source),
            registry: self.anchor_registry@,
        }
    }
}

/// The index of the last occurrence of `c` in `s`.
pub open spec fn last_index_of(s: Seq<char>, c: char) -> Option<int> {
    if exists|i: int| 0 <= i < s.len() && s[i] == c {
        Some(choose|i: int| 0 <= i < s.len() && s[i] == c && forall|m: int| i < m < s.len() ==> s[m] != c)
    } else {
        None
    }
}

/// The parent of a textual path such as `config.items[0]`: the text
/// before its last separator (`.` or `[`), so `config.items`; none for the
/// root (`""` or `"$"`), for a top-level key, or when the last separator is
/// a `[` opening the path.
pub open spec fn parent_path_text(p: Seq<char>) -> Option<Seq<char>> {
    if p.len() == 0 || p == "$"@ {
        None
    } else {
        match (last_index_of(p, '.'), last_index_of(p, '[')) {
            (Some(d), Some(b)) => if d > b {
                Some(p.subrange(0, d))
            } else if b == 0 {
                None
            } else {
                Some(p.subrange(0, b))
            },
            (Some(d), None) => Some(p.subrange(0, d)),
            (None, Some(b)) => if b == 0 { None } else { Some(p.subrange(0, b)) },
            (None, None) => None,
        }
    }
}

/// Number of `.` and `[` characters in `s[..n]`.
pub open spec fn separator_count(s: Seq<char>, n: int) -> nat
    decreases n,
{
    if n <= 0 {
        0
    } else {
        separator_count(s, n - 1) + if s[n - 1] == '.' || s[n - 1] == '[' { 1nat } else { 0nat }
    }
}

/// Nesting depth of a textual path.
pub open spec fn depth_of_text(p: Seq<char>) -> nat {
    if p.len() == 0 || p == "$"@ {
        0
    } else {
        separator_count(p, p.len() as int)
    }
}

fn last_index(s: &Vec<char>, c: char) -> (r: Option<usize>)
    ensures
        match r {
            Some(i) => last_index_of(s@, c) == Some(i as int) && i < s@.len(),
            None => last_index_of(s@, c) is None,
        },
{
    let mut i = s.len();
    while i > 0
        invariant
            i <= s@.len(),
            forall|m: int| i <= m < s@.len() ==> s@[m] != c,
        decreases i,
    {
        if s[i - 1] == c {
            let ghost j = choose|j: int|
                0 <= j < s@.len() && s@[j] == c && forall|m: int| j < m < s@.len() ==> s@[m] != c;
            assert(s@[i - 1] == c);
            assert(j == i - 1) by {
                if j < i - 1 {
                } else if j > i - 1 {
                }
            }
            return Some(i - 1);
        }
        i = i - 1;
    }
    None
}

fn is_root_text(p: &Vec<char>) -> (r: bool)
    ensures
        r == (p@.len() == 0 || p@ == "$"@),
{
    proof {
        reveal_strlit("$");
    }
    if p.len() == 0 {
        return true;
    }
    if p.len() == 1 && p[0] == '$' {
        assert(p@ =~= "$"@);
        return true;
    }
    false
}

impl YamlTree {
    /// The tree's registry is well formed.
    pub closed spec fn wf(&self) -> bool {
        self.anchor_registry.wf()
    }

    /// Creates a tree with the given root and no original source; the anchor
    /// registry is built from the tree.
    pub fn new(root: YamlNode) -> (r: Self)
        ensures
            r.wf(),
            r@ == (TreeModel { root: root@, source: None, registry: registry_of(root@) }),
    {
        let mut tree = YamlTree { root, original_source: None, anchor_registry: AnchorRegistry::new() };
        tree.build_anchor_registry();
        tree
    }

    /// Creates a tree with the given root and original source; the anchor
    /// registry is built from the tree.
    pub fn with_source(root: YamlNode, original_source: Option<String>) -> (r: Self)
        ensures
            r.wf(),
            r@ == (TreeModel {
                root: root@,
                source: crate::document::node::opt_str_view(original_source),
                registry: registry_of(root@),
            }),
    {
        let mut tree = YamlTree { root, original_source, anchor_registry: AnchorRegistry::new() };
        tree.build_anchor_registry();
        tree
    }

    /// A copy of the tree.
    pub fn duplicate(&self) -> (r: Self)
        requires
            self.wf(),
        ensures
            r.wf(),
            r@ == self@,
    {
        YamlTree {
            root: self.root.duplicate(),
            original_source: match &self.original_source {
                Some(s) => Some(s.clone()),
                None => None,
            },
            anchor_registry: self.anchor_registry.duplicate(),
        }
    }

    /// The original YAML source, if available.
    pub fn original_source(&self) -> (r: Option<&str>)
        ensures
            match r {
                Some(s) => self@.source == Some(s@),
                None => self@.source is None,
            },
    {
        match &self.original_source {
            Some(s) => Some(s.as_str()),
            None => None,
        }
    }

    /// The anchor registry.
    pub fn anchor_registry(&self) -> (r: &AnchorRegistry)
        ensures
            r@ == self@.registry,
            self.wf() ==> r.wf(),
    {
        &self.anchor_registry
    }

    /// The anchor registry, for changing it.
    pub fn anchor_registry_mut(&mut self) -> (r: &mut AnchorRegistry)
        ensures
            (*r)@ == old(self)@.registry,
            old(self).wf() ==> r.wf(),
            final(self)@ == (TreeModel { registry: final(r)@, ..old(self)@ }),
            final(self).wf() == final(r).wf(),
    {
        &mut self.anchor_registry
    }

    /// The root node.
    pub fn root(&self) -> (r: &YamlNode)
        ensures
            r@ == self@.root,
    {
        &self.root
    }

    /// The root node, for changing it.
    pub fn root_mut(&mut self) -> (r: &mut YamlNode)
        ensures
            (*r)@ == old(self)@.root,
            final(self)@ == (TreeModel { root: final(r)@, ..old(self)@ }),
            final(self).wf() == old(self).wf(),
    {
        &mut self.root
    }


    /// The node at `path` (as `get_node` finds it), for changing it in
    /// place; handing it out marks it modified.
    pub fn get_node_mut(&mut self, path: &[usize]) -> (r: Option<&mut YamlNode>)
        ensures
            match r {
                Some(n) => (node_at(old(self)@.root, path@) matches Some(m) && (*n)@ == (NodeModel {
                    metadata: NodeMetadata { modified: true, ..m.metadata },
                    ..m
                })) && final(self)@ == (TreeModel {
                    root: crate::document::edit::update_at(old(self)@.root, path@, final(n)@),
                    ..old(self)@
                }),
                None => node_at(old(self)@.root, path@) is None && final(self)@ == old(self)@,
            },
            final(self).wf() == old(self).wf(),
    {
        assert(path@.skip(0) =~= path@);
        match node_mut_at(&mut self.root, path, 0) {
            Some(n) => {
                n.metadata.modified = true;
                Some(n)
            },
            None => None,
        }
    }

    /// The node at `path`: at each level the index selects the n-th entry of
    /// a mapping or the n-th element of a sequence; none when an index is out
    /// of bounds or a scalar is reached before the path ends.
    pub fn get_node(&self, path: &[usize]) -> (r: Option<&YamlNode>)
        ensures
            match r {
                Some(n) => node_at(self@.root, path@) == Some(n@),
                None => node_at(self@.root, path@) is None,
            },
    {
        let mut current = &self.root;
        let mut i: usize = 0;
        assert(path@.subrange(0, path@.len() as int) =~= path@);
        while i < path.len()
            invariant
                i <= path@.len(),
                node_at(self@.root, path@) == node_at(current@, path@.subrange(i as int, path@.len() as int)),
            decreases path.len() - i,
        {
            let ghost rest = path@.subrange(i as int, path@.len() as int);
            assert(rest.drop_first() =~= path@.subrange(i + 1, path@.len() as int));
            match current.value.child(path[i]) {
                Some(c) => {
                    proof {
                        crate::document::node::lemma_node_value_view(*current);
                    }
                    current = c;
                },
                None => {
                    proof {
                        crate::document::node::lemma_node_value_view(*current);
                    }
                    return None;
                },
            }
            i = i + 1;
        }
        assert(path@.subrange(i as int, path@.len() as int) =~= Seq::<usize>::empty());
        Some(current)
    }

    /// Rebuilds the anchor registry from the tree.
    pub fn build_anchor_registry(&mut self)
        ensures
            final(self).wf(),
            final(self)@ == (TreeModel { registry: registry_of(old(self)@.root), ..old(self)@ }),
    {
        let mut reg = AnchorRegistry::new();
        let path: Vec<usize> = Vec::new();
        register_node(&mut reg, &self.root, &path);
        assert(path@ =~= Seq::<usize>::empty());
        self.anchor_registry = reg;
    }

    /// Deletes the node at `path`. The root cannot be deleted; the parent
    /// must exist and hold the index. The parent is marked modified even
    /// when the index is refused. The registry is not changed.
    pub fn delete_node(&mut self, path: &[usize]) -> (r: Result<(), TreeError>)
        ensures
            path@.len() == 0 ==> r == Err::<(), TreeError>(TreeError::CannotDeleteRoot) && final(self)@ == old(self)@,
            path@.len() > 0 ==> ({
                let (root2, res) = edit_at_model(
                    old(self)@.root,
                    path@.drop_last(),
                    EditModel::Remove(path@.last()),
                );
                r == res && final(self)@ == (TreeModel { root: root2, ..old(self)@ })
            }),
            final(self).wf() == old(self).wf(),
    {
        if path.len() == 0 {
            return Err(TreeError::CannotDeleteRoot);
        }
        let n = path.len() - 1;
        let parent = path_prefix(path, n);
        let index = path[n];
        assert(parent@ =~= path@.drop_last());
        assert(parent@.subrange(0, parent@.len() as int) =~= parent@);
        edit_at(&mut self.root, parent.as_slice(), 0, EditOp::Remove(index))
    }

    /// Inserts `(key, node)` into the mapping that is the parent of `path`
    /// (the root when `path` has at most one index), at the position given by
    /// the last index of `path` (0 for the empty path). An entry with an equal
    /// key moves to that position and takes the new node.
    pub fn insert_node_in_object(&mut self, path: &[usize], key: String, node: YamlNode) -> (r: Result<(), TreeError>)
        requires
            edit_allowed(
                old(self)@.root,
                insertion_parent(path@),
                EditModel::InsertEntry(insertion_index(path@), key@, node@),
            ),
        ensures
            ({
                let (root2, res) = edit_at_model(
                    old(self)@.root,
                    insertion_parent(path@),
                    EditModel::InsertEntry(insertion_index(path@), key@, node@),
                );
                r == res && final(self)@ == (TreeModel { root: root2, ..old(self)@ })
            }),
            final(self).wf() == old(self).wf(),
    {
        let (parent, index) = split_insertion_path(path);
        edit_at(&mut self.root, parent.as_slice(), 0, EditOp::InsertEntry(index, key, node))
    }

    /// Inserts `node` into the sequence that is the parent of `path` (the
    /// root when `path` has at most one index), at the position given by the
    /// last index of `path` (0 for the empty path).
    pub fn insert_node_in_array(&mut self, path: &[usize], node: YamlNode) -> (r: Result<(), TreeError>)
        ensures
            ({
                let (root2, res) = edit_at_model(
                    old(self)@.root,
                    insertion_parent(path@),
                    EditModel::InsertElement(insertion_index(path@), node@),
                );
                r == res && final(self)@ == (TreeModel { root: root2, ..old(self)@ })
            }),
            final(self).wf() == old(self).wf(),
    {
        let (parent, index) = split_insertion_path(path);
        edit_at(&mut self.root, parent.as_slice(), 0, EditOp::InsertElement(index, node))
    }

    /// The parent of a textual path (see `parent_path_text`).
    pub fn get_parent_path(&self, path: &str) -> (r: Option<String>)
        ensures
            match r {
                Some(s) => parent_path_text(path@) == Some(s@),
                None => parent_path_text(path@) is None,
            },
    {
        let p = chars_of(path);
        if is_root_text(&p) {
            return None;
        }
        let cut = match (last_index(&p, '.'), last_index(&p, '[')) {
            (Some(d), Some(b)) => if d > b {
                Some(d)
            } else if b == 0 {
                None
            } else {
                Some(b)
            },
            (Some(d), None) => Some(d),
            (None, Some(b)) => if b == 0 { None } else { Some(b) },
            (None, None) => None,
        };
        match cut {
            Some(c) => Some(string_from_char_range(p.as_slice(), 0, c)),
            None => None,
        }
    }

    /// Nesting depth of a textual path: the number of `.` and `[` in it
    /// (0 for the root).
    pub fn get_depth(&self, path: &str) -> (r: usize)
        ensures
            r == depth_of_text(path@),
    {
        let p = chars_of(path);
        if is_root_text(&p) {
            return 0;
        }
        let mut count: usize = 0;
        let mut i: usize = 0;
        while i < p.len()
            invariant
                i <= p@.len(),
                count == separator_count(p@, i as int),
                count <= i,
            decreases p.len() - i,
        {
            if p[i] == '.' || p[i] == '[' {
                count = count + 1;
            }
            i = i + 1;
        }
        count
    }
}

/// The parent path used by the insertion operations.
pub open spec fn insertion_parent(path: Seq<usize>) -> Seq<usize> {
    if path.len() == 0 { Seq::empty() } else { path.drop_last() }
}

/// Deleting the node at a non-empty path right after inserting one there
/// succeeds and gives back the document, but for the sequence that held it
/// being marked modified.
pub proof fn law_delete_undoes_insert(t: TreeModel, path: Seq<usize>, c: NodeModel)
    requires
        path.len() > 0,
        edit_at_model(t.root, insertion_parent(path), EditModel::InsertElement(insertion_index(path), c)).1 is Ok,
    ensures
        ({
            let (root1, _r1) = edit_at_model(t.root, insertion_parent(path), EditModel::InsertElement(insertion_index(path), c));
            let (root2, r2) = edit_at_model(root1, path.drop_last(), EditModel::Remove(path.last()));
            let p = node_at(t.root, path.drop_last())->0;
            &&& r2 is Ok
            &&& node_at(t.root, path.drop_last()) is Some
            &&& root2 == update_at(t.root, path.drop_last(), NodeModel { metadata: NodeMetadata { modified: true, ..p.metadata }, ..p })
        }),
{
    let q = path.drop_last();
    let i = path.last();
    assert(insertion_parent(path) == q);
    assert(insertion_index(path) == i);
    assert(node_at(t.root, q) is Some);
    crate::document::edit::law_remove_undoes_insert_element(t.root, q, i, c);
}

/// The insertion position used by the insertion operations.
pub open spec fn insertion_index(path: Seq<usize>) -> usize {
    if path.len() == 0 { 0 } else { path.last() }
}

fn split_insertion_path(path: &[usize]) -> (r: (Vec<usize>, usize))
    ensures
        r.0@.subrange(0, r.0@.len() as int) == insertion_parent(path@),
        r.0@ == insertion_parent(path@),
        r.1 == insertion_index(path@),
{
    if path.len() == 0 {
        let v: Vec<usize> = Vec::new();
        assert(v@ =~= Seq::<usize>::empty());
        assert(v@.subrange(0, 0) =~= v@);
        (v, 0)
    } else {
        let n = path.len() - 1;
        let parent = path_prefix(path, n);
        assert(parent@ =~= path@.drop_last());
        assert(parent@.subrange(0, parent@.len() as int) =~= parent@);
        (parent, path[n])
    }
}

} // verus!
