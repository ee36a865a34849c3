//! Undo/redo with a branching undo tree: undoing and then editing keeps the
//! old future as a branch; redo follows the newest branch.

use vstd::prelude::*;
use crate::document::tree::{TreeModel, YamlTree};
use crate::paths::path_to_vec;
use std::time::SystemTime;

verus! {

broadcast use vstd::std_specs::vec::group_vec_axioms;

#[verifier::external_type_specification]
#[verifier::external_body]
pub struct ExSystemTime(SystemTime);

/// The current time.
///
/// Trusted: calls `SystemTime::now`; nothing is stated of the result, which
/// depends on the clock.
#[verifier::external_body]
fn now() -> SystemTime {
    SystemTime::now()
}

/// Model of a snapshot.
pub struct SnapshotModel {
    pub tree: TreeModel,
    pub cursor_path: Seq<usize>,
}

/// The editor state at one point of the history: the document and the
/// cursor path.
pub struct EditorSnapshot {
    pub tree: YamlTree,
    pub cursor_path: Vec<usize>,
}

impl View for EditorSnapshot {
    type V = SnapshotModel;

    open spec fn view(&self) -> SnapshotModel {
        SnapshotModel { tree: self.tree@, cursor_path: self.cursor_path@ }
    }
}

impl EditorSnapshot {
    /// The snapshot's tree is well formed.
    pub open spec fn wf(&self) -> bool {
        self.tree.wf()
    }

    /// A copy of the snapshot.
    pub fn duplicate(&self) -> (r: Self)
        requires
            self.wf(),
        ensures
            r.wf(),
            r@ == self@,
    {
        EditorSnapshot { tree: self.tree.duplicate(), cursor_path: path_to_vec(self.cursor_path.as_slice()) }
    }
}

/// A node of the undo tree: a snapshot, its parent and children, when it was
/// made and its sequence number.
pub struct UndoNode {
    pub snapshot: EditorSnapshot,
    pub parent: Option<usize>,
    pub children: Vec<usize>,
    pub timestamp: SystemTime,
    pub seq: u64,
}

impl UndoNode {
    /// A node with no children.
    pub fn new(snapshot: EditorSnapshot, parent: Option<usize>, seq: u64) -> (r: Self)
        ensures
            r.snapshot == snapshot,
            r.parent == parent,
            r.children@ == Seq::<usize>::empty(),
            r.seq == seq,
    {
        UndoNode { snapshot, parent, children: Vec::new(), timestamp: now(), seq }
    }
}

/// The branching history of editor states. Node 0 is the state when the
/// file was opened; each checkpoint becomes a child of the current node.
pub struct UndoTree {
    /// The nodes, oldest first
    pub nodes: Vec<UndoNode>,
    /// Index of the current node
    pub current: usize,
    /// Sequence number of the next node
    pub next_seq: u64,
    /// Most nodes kept
    pub limit: usize,
}

/// The shape of a well-formed undo tree: node `i` has sequence number `i`,
/// the root has no parent, every other node has an earlier parent, and the
/// children of each node are exactly the nodes naming it as parent, in
/// increasing order.
pub open spec fn undo_shape(nodes: Seq<UndoNode>) -> bool {
    &&& nodes.len() > 0
    &&& nodes[0].parent is None
    &&& forall|i: int| 0 <= i < nodes.len() ==> (#[trigger] nodes[i]).seq == i && nodes[i].snapshot.wf()
    &&& forall|i: int| 0 < i < nodes.len() ==> ((#[trigger] nodes[i]).parent matches Some(p) && p < i)
    &&& forall|i: int, a: int, b: int|
        0 <= i < nodes.len() && 0 <= a < b < nodes[i].children@.len() ==> #[trigger] nodes[i].children@[a] < #[trigger] nodes[i].children@[b]
    &&& forall|i: int, a: int|
        0 <= i < nodes.len() && 0 <= a < nodes[i].children@.len() ==> ({
            let c = #[trigger] nodes[i].children@[a];
            0 <= c < nodes.len() && nodes[c as int].parent == Some(i as usize)
        })
}

impl UndoTree {
    /// The nodes are shaped as `undo_shape` says and the current node
    /// exists.
    closed spec fn shape_ok(&self) -> bool {
        &&& undo_shape(self.node_seq())
        &&& self.current < self.node_seq().len()
        &&& self.next_seq == self.node_seq().len()
    }

    /// The tree is well formed, the current node exists and no more nodes
    /// are kept than the limit allows (see `kept`).
    pub closed spec fn wf(&self) -> bool {
        &&& self.shape_ok()
        &&& self.node_seq().len() <= self.kept()
    }

    /// The nodes, oldest first.
    pub open spec fn node_seq(&self) -> Seq<UndoNode> {
        self.nodes@
    }

    /// The most nodes kept: the limit, and at least the current node.
    pub open spec fn kept(&self) -> nat {
        if self.limit_value() == 0 { 1 } else { self.limit_value() }
    }

    /// A history never holds more nodes than its limit (at least one).
    pub proof fn lemma_within_limit(&self)
        requires
            self.wf(),
        ensures
            1 <= self.node_seq().len() <= self.kept(),
    {
    }

    /// Index of the current node.
    pub closed spec fn current_index(&self) -> nat {
        self.current as nat
    }

    /// The node limit.
    pub closed spec fn limit_value(&self) -> nat {
        self.limit as nat
    }

    /// A tree holding only the initial snapshot.
    pub fn new(initial_snapshot: EditorSnapshot, limit: usize) -> (r: Self)
        requires
            initial_snapshot.wf(),
        ensures
            r.wf(),
            r.node_seq().len() == 1,
            r.node_seq()[0].snapshot == initial_snapshot,
            r.node_seq()[0].parent is None,
            r.node_seq()[0].children@.len() == 0,
            r.current_index() == 0,
            r.limit_value() == limit,
            r.node_seq().len() <= r.kept(),
    {
        let root = UndoNode::new(initial_snapshot, None, 0);
        let mut nodes: Vec<UndoNode> = Vec::new();
        nodes.push(root);
        UndoTree { nodes, current: 0, next_seq: 1, limit }
    }

    /// Index of the current node.
    pub fn current(&self) -> (r: usize)
        ensures
            r == self.current_index(),
    {
        self.current
    }

    /// Number of nodes.
    pub fn len(&self) -> (r: usize)
        ensures
            r == self.node_seq().len(),
    {
        self.nodes.len()
    }

    /// True when the tree holds no node.
    pub fn is_empty(&self) -> (r: bool)
        ensures
            r == (self.node_seq().len() == 0),
    {
        self.nodes.len() == 0
    }

    /// The node limit.
    pub fn limit(&self) -> (r: usize)
        ensures
            r == self.limit_value(),
    {
        self.limit
    }

    /// Adds `snapshot` as a new child of the current node (a new branch when
    /// the current node already has children) and makes it current. When
    /// that makes more nodes than the limit, only the new node and its
    /// nearest ancestors are kept, as a chain of the most nodes allowed
    /// (oldest first, renumbered).
    pub fn add_checkpoint(&mut self, snapshot: EditorSnapshot)
        requires
            old(self).wf(),
            snapshot.wf(),
            old(self).node_seq().len() < u64::MAX,
        ensures
            final(self).wf(),
            final(self).limit_value() == old(self).limit_value(),
            1 <= final(self).node_seq().len() <= old(self).node_seq().len() + 1,
            final(self).node_seq().len() <= final(self).kept(),
            final(self).current_index() == final(self).node_seq().len() - 1,
            final(self).node_seq().last().snapshot@ == snapshot@,
            final(self).node_seq().last().children@.len() == 0,
            final(self).node_seq().last().seq == final(self).node_seq().len() - 1,
            forall|i: int| 0 <= i < final(self).node_seq().len() - 1 ==> #[trigger] final(self).node_seq()[i].seq
                < final(self).node_seq().last().seq,
            old(self).kept() >= 2 ==> ({
                let n = final(self).node_seq();
                let c = old(self).current_index() as int;
                n.last().parent matches Some(p) && p < n.len() && n[p as int].snapshot@ == old(self).node_seq()[c].snapshot@
                    && n[p as int].children@.len() > 0 && n[p as int].children@.last() == n.len() - 1
            }),
            old(self).node_seq().len() + 1 <= old(self).kept() ==> {
                &&& final(self).node_seq().len() == old(self).node_seq().len() + 1
                &&& final(self).node_seq().last().snapshot == snapshot
                &&& final(self).node_seq().last().parent == Some(old(self).current_index() as usize)
                &&& forall|i: int| 0 <= i < old(self).node_seq().len() && i != old(self).current_index() ==> #[trigger] final(self).node_seq()[i] == old(self).node_seq()[i]
                &&& ({
                    let c = old(self).current_index() as int;
                    &&& final(self).node_seq()[c].snapshot == old(self).node_seq()[c].snapshot
                    &&& final(self).node_seq()[c].parent == old(self).node_seq()[c].parent
                    &&& final(self).node_seq()[c].children@ == old(self).node_seq()[c].children@.push(old(self).node_seq().len() as usize)
                })
            },
    {
        let ghost c0 = self.current as int;
        self.attach(snapshot);
        let keep = if self.limit == 0 { 1 } else { self.limit };
        if self.nodes.len() > keep {
            self.prune_to_chain(keep);
        }
        proof {
            let n = self.node_seq();
            assert forall|i: int| 0 <= i < n.len() - 1 implies #[trigger] n[i].seq < n.last().seq by {
                assert(n[i].seq == i);
            }
        }
    }

    /// Keeps the current node and up to `k - 1` of its nearest ancestors, as
    /// a chain numbered from the oldest.
    fn prune_to_chain(&mut self, k: usize)
        requires
            old(self).shape_ok(),
            k >= 1,
        ensures
            final(self).shape_ok(),
            final(self).limit == old(self).limit,
            1 <= final(self).node_seq().len() <= k,
            final(self).current_index() == final(self).node_seq().len() - 1,
            final(self).node_seq().last().snapshot@ == old(self).node_seq()[old(self).current_index() as int].snapshot@,
            final(self).node_seq().last().children@.len() == 0,
            k >= 2 ==> (old(self).node_seq()[old(self).current_index() as int].parent matches Some(p) ==> {
                let n = final(self).node_seq();
                &&& n.len() >= 2
                &&& n.last().parent == Some((n.len() - 2) as usize)
                &&& n[n.len() - 2].snapshot@ == old(self).node_seq()[p as int].snapshot@
                &&& n[n.len() - 2].children@ == seq![(n.len() - 1) as usize]
            }),
    {
        let ghost old_nodes = self.node_seq();
        let mut chain: Vec<usize> = Vec::new();
        let mut i = self.current;
        chain.push(i);
        let mut done = false;
        while chain.len() < k && !done
            invariant
                self.node_seq() == old_nodes,
                undo_shape(old_nodes),
                1 <= chain@.len() <= k,
                chain@[0] == self.current,
                self.current < old_nodes.len(),
                i == chain@.last(),
                forall|t: int| 0 <= t < chain@.len() ==> #[trigger] chain@[t] < old_nodes.len(),
                forall|t: int| 0 <= t < chain@.len() - 1 ==> old_nodes[#[trigger] chain@[t] as int].parent == Some(chain@[t + 1]),
                done ==> old_nodes[i as int].parent is None,
            decreases i + (if done { 0int } else { 1int }),
        {
            match self.nodes[i].parent {
                Some(p) => {
                    assert(p < i) by {
                        if i == 0 {
                        } else {
                            assert(old_nodes[i as int].parent matches Some(q) && q < i);
                        }
                    }
                    chain.push(p);
                    i = p;
                },
                None => {
                    done = true;
                },
            }
        }
        let n = chain.len();
        let mut new_nodes: Vec<UndoNode> = Vec::new();
        let mut j: usize = 0;
        while j < n
            invariant
                self.node_seq() == old_nodes,
                undo_shape(old_nodes),
                n == chain@.len(),
                1 <= n <= k,
                j <= n,
                new_nodes@.len() == j,
                forall|t: int| 0 <= t < chain@.len() ==> #[trigger] chain@[t] < old_nodes.len(),
                forall|t: int| 0 <= t < j ==> {
                    let nd = #[trigger] new_nodes@[t];
                    &&& nd.snapshot@ == old_nodes[chain@[n - 1 - t] as int].snapshot@
                    &&& nd.snapshot.wf()
                    &&& nd.parent == (if t == 0 { None } else { Some((t - 1) as usize) })
                    &&& nd.children@ == (if t + 1 < n { seq![(t + 1) as usize] } else { Seq::<usize>::empty() })
                    &&& nd.seq == t
                },
            decreases n - j,
        {
            let idx = chain[n - 1 - j];
            let snap = self.nodes[idx].snapshot.duplicate();
            let mut children: Vec<usize> = Vec::new();
            if j + 1 < n {
                children.push(j + 1);
            }
            let parent = if j == 0 { None } else { Some(j - 1) };
            new_nodes.push(UndoNode { snapshot: snap, parent, children, timestamp: now(), seq: j as u64 });
            proof {
                assert(children@ =~= (if j + 1 < n { seq![(j + 1) as usize] } else { Seq::<usize>::empty() }));
            }
            j = j + 1;
        }
        self.nodes = new_nodes;
        self.current = n - 1;
        self.next_seq = n as u64;
        proof {
            let nodes = self.node_seq();
            assert(nodes.len() == n);
            assert forall|t: int| 0 <= t < nodes.len() implies (#[trigger] nodes[t]).seq == t && nodes[t].snapshot.wf() by {}
            assert forall|t: int| 0 < t < nodes.len() implies ((#[trigger] nodes[t]).parent matches Some(p) && p < t) by {}
            assert forall|t: int, a: int, b: int|
                0 <= t < nodes.len() && 0 <= a < b < nodes[t].children@.len() implies #[trigger] nodes[t].children@[a] < #[trigger] nodes[t].children@[b] by {}
            assert forall|t: int, a: int|
                0 <= t < nodes.len() && 0 <= a < nodes[t].children@.len() implies ({
                    let c = #[trigger] nodes[t].children@[a];
                    0 <= c < nodes.len() && nodes[c as int].parent == Some(t as usize)
                }) by {}
            assert(nodes[0].parent is None);
            if k >= 2 && old_nodes[chain@[0] as int].parent is Some {
                assert(n >= 2);
            }
        }
    }

    /// Adds `snapshot` as a new child of the current node and makes it
    /// current.
    fn attach(&mut self, snapshot: EditorSnapshot)
        requires
            old(self).shape_ok(),
            snapshot.wf(),
            old(self).node_seq().len() < u64::MAX,
        ensures
            final(self).shape_ok(),
            final(self).limit == old(self).limit,
            final(self).node_seq().len() == old(self).node_seq().len() + 1,
            final(self).current_index() == old(self).node_seq().len(),
            final(self).limit_value() == old(self).limit_value(),
            final(self).node_seq().last().snapshot == snapshot,
            final(self).node_seq().last().parent == Some(old(self).current_index() as usize),
            final(self).node_seq().last().children@.len() == 0,
            forall|i: int| 0 <= i < old(self).node_seq().len() && i != old(self).current_index() ==> #[trigger] final(self).node_seq()[i] == old(self).node_seq()[i],
            ({
                let c = old(self).current_index() as int;
                &&& final(self).node_seq()[c].snapshot == old(self).node_seq()[c].snapshot
                &&& final(self).node_seq()[c].parent == old(self).node_seq()[c].parent
                &&& final(self).node_seq()[c].children@ == old(self).node_seq()[c].children@.push(old(self).node_seq().len() as usize)
            }),
    {
        let seq = self.next_seq;
        self.next_seq = self.next_seq + 1;
        let new_node = UndoNode::new(snapshot, Some(self.current), seq);
        let new_index = self.nodes.len();
        let ghost n0 = self.node_seq();
        let cur = self.current;
        self.nodes[cur].children.push(new_index);
        self.nodes.push(new_node);
        self.current = new_index;
        proof {
            let nodes = self.node_seq();
            assert forall|i: int| 0 <= i < nodes.len() implies (#[trigger] nodes[i]).seq == i && nodes[i].snapshot.wf() by {
                if i < n0.len() {
                    assert(nodes[i].seq == n0[i].seq);
                }
            }
            assert forall|i: int, a: int, b: int|
                0 <= i < nodes.len() && 0 <= a < b < nodes[i].children@.len() implies #[trigger] nodes[i].children@[a] < #[trigger] nodes[i].children@[b] by {
                if i == cur && b == nodes[i].children@.len() - 1 {
                    assert(n0[i].children@[a] < n0.len()) by {
                        assert(0 <= n0[i].children@[a] < n0.len());
                    }
                } else if i < n0.len() {
                    assert(nodes[i].children@[a] == n0[i].children@[a]);
                    assert(nodes[i].children@[b] == n0[i].children@[b]);
                }
            }
            assert forall|i: int, a: int|
                0 <= i < nodes.len() && 0 <= a < nodes[i].children@.len() implies ({
                    let c = #[trigger] nodes[i].children@[a];
                    0 <= c < nodes.len() && nodes[c as int].parent == Some(i as usize)
                }) by {
                if i == cur && a == nodes[i].children@.len() - 1 {
                } else if i < n0.len() {
                    let c = n0[i].children@[a];
                    assert(nodes[i].children@[a] == c);
                    assert(0 <= c < n0.len() && n0[c as int].parent == Some(i as usize));
                }
            }
        }
    }

    /// Moves to the parent of the current node and gives a copy of its
    /// snapshot; none at the root.
    pub fn undo(&mut self) -> (r: Option<EditorSnapshot>)
        requires
            old(self).wf(),
        ensures
            final(self).wf(),
            final(self).node_seq() == old(self).node_seq(),
            final(self).limit_value() == old(self).limit_value(),
            match old(self).node_seq()[old(self).current_index() as int].parent {
                Some(p) => final(self).current_index() == p && (r matches Some(s) && s@ == old(self).node_seq()[p as int].snapshot@ && s.wf()),
                None => r is None && final(self).current_index() == old(self).current_index(),
            },
    {
        match self.nodes[self.current].parent {
            Some(parent_idx) => {
                assert(parent_idx < self.node_seq().len()) by {
                    let c = self.current as int;
                    assert(self.node_seq()[c].parent matches Some(p) && p < c);
                }
                self.current = parent_idx;
                Some(self.nodes[parent_idx].snapshot.duplicate())
            },
            None => None,
        }
    }

    /// Moves to the newest child of the current node (the one with the
    /// highest sequence number) and gives a copy of its snapshot; none when
    /// the current node has no children.
    pub fn redo(&mut self) -> (r: Option<EditorSnapshot>)
        requires
            old(self).wf(),
        ensures
            final(self).wf(),
            final(self).node_seq() == old(self).node_seq(),
            final(self).limit_value() == old(self).limit_value(),
            ({
                let ch = old(self).node_seq()[old(self).current_index() as int].children@;
                if ch.len() == 0 {
                    r is None && final(self).current_index() == old(self).current_index()
                } else {
                    &&& final(self).current_index() == ch.last()
                    &&& forall|a: int| 0 <= a < ch.len() ==> old(self).node_seq()[#[trigger] ch[a] as int].seq <= old(self).node_seq()[ch.last() as int].seq
                    &&& r matches Some(s) && s@ == old(self).node_seq()[ch.last() as int].snapshot@ && s.wf()
                }
            }),
    {
        let cur = self.current;
        let n = self.nodes[cur].children.len();
        if n == 0 {
            return None;
        }
        let ghost ch = self.node_seq()[cur as int].children@;
        let mut best = self.nodes[cur].children[0];
        let mut k: usize = 1;
        while k < n
            invariant
                1 <= k <= n,
                n == ch.len(),
                ch == self.node_seq()[cur as int].children@,
                cur < self.node_seq().len(),
                undo_shape(self.node_seq()),
                best == ch[k - 1],
                best < self.node_seq().len(),
                forall|a: int| 0 <= a < k ==> self.node_seq()[#[trigger] ch[a] as int].seq <= self.node_seq()[best as int].seq,
            decreases n - k,
        {
            let c = self.nodes[cur].children[k];
            assert(ch[k as int - 1] < ch[k as int]);
            if self.nodes[c].seq >= self.nodes[best].seq {
                best = c;
            }
            k = k + 1;
        }
        self.current = best;
        Some(self.nodes[best].snapshot.duplicate())
    }
}

} // verus!
