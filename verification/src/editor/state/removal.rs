//! Deleting several nodes at once: a visual selection or the lines up to a
//! mark. Paths are deleted from the last to the first in path order, so
//! that no deletion moves a path still to be deleted.

use vstd::prelude::*;
use crate::document::edit::{edit_at_model, EditModel, TreeError};
use crate::document::node::{node_at, NodeModel};
use crate::document::tree::TreeModel;
use crate::editor::registers::RegisterSetModel;
use crate::editor::state::selection::{content_at, present, store_range, store_yank};
use crate::editor::state::visual::range_to;
use crate::editor::state::{delete_outcome, EditError, EditorState};
use crate::paths::path_to_vec;
use crate::ui::tree_view::{expanded_after_delete, visible_lines, LineModel};

verus! {

/// Path order: `a` comes before `b` when at the first index where they
/// differ `a`'s is smaller, or when `a` is a proper prefix of `b`.
pub open spec fn path_lt(a: Seq<usize>, b: Seq<usize>) -> bool
    decreases a.len(),
{
    if a.len() == 0 {
        b.len() > 0
    } else if b.len() == 0 {
        false
    } else if a[0] < b[0] {
        true
    } else if a[0] > b[0] {
        false
    } else {
        path_lt(a.drop_first(), b.drop_first())
    }
}

/// Path order is transitive.
pub proof fn lemma_path_lt_transitive(a: Seq<usize>, b: Seq<usize>, c: Seq<usize>)
    requires
        path_lt(a, b),
        path_lt(b, c),
    ensures
        path_lt(a, c),
    decreases a.len(),
{
    if a.len() > 0 && b.len() > 0 && c.len() > 0 && a[0] == b[0] && b[0] == c[0] {
        lemma_path_lt_transitive(a.drop_first(), b.drop_first(), c.drop_first());
    }
}

/// No path of `s` comes before a later one.
pub open spec fn sorted_desc(s: Seq<Seq<usize>>) -> bool {
    forall|i: int, j: int| 0 <= i < j < s.len() ==> !path_lt(#[trigger] s[i], #[trigger] s[j])
}

/// `a` and `b` hold the same paths, as many of them.
pub open spec fn same_paths(a: Seq<Seq<usize>>, b: Seq<Seq<usize>>) -> bool {
    &&& a.len() == b.len()
    &&& forall|p: Seq<usize>| a.contains(p) <==> b.contains(p)
}

/// Whether `a` comes before `b` (see `path_lt`).
pub fn path_less(a: &[usize], b: &[usize]) -> (r: bool)
    ensures
        r == path_lt(a@, b@),
{
    let mut i: usize = 0;
    assert(a@.skip(0) =~= a@);
    assert(b@.skip(0) =~= b@);
    assert(a@.take(0) =~= b@.take(0));
    while i < a.len() && i < b.len()
        invariant
            i <= a@.len(),
            i <= b@.len(),
            a@.take(i as int) == b@.take(i as int),
            path_lt(a@, b@) == path_lt(a@.skip(i as int), b@.skip(i as int)),
        decreases a.len() - i,
    {
        assert(a@.skip(i as int)[0] == a@[i as int]);
        assert(b@.skip(i as int)[0] == b@[i as int]);
        if a[i] < b[i] {
            return true;
        }
        if a[i] > b[i] {
            return false;
        }
        assert(a@.skip(i as int).drop_first() =~= a@.skip(i as int + 1));
        assert(b@.skip(i as int).drop_first() =~= b@.skip(i as int + 1));
        assert(a@.take(i as int + 1) =~= a@.take(i as int).push(a@[i as int]));
        assert(b@.take(i as int + 1) =~= b@.take(i as int).push(b@[i as int]));
        i = i + 1;
    }
    i < b.len()
}

/// The paths of `v` from the last to the first in path order.
pub fn sort_paths_desc(v: &Vec<Vec<usize>>) -> (r: Vec<Vec<usize>>)
    ensures
        same_paths(r@.map_values(|p: Vec<usize>| p@), v@.map_values(|p: Vec<usize>| p@)),
        sorted_desc(r@.map_values(|p: Vec<usize>| p@)),
{
    let ghost all = v@.map_values(|p: Vec<usize>| p@);
    let mut rest: Vec<Vec<usize>> = Vec::new();
    let mut k: usize = 0;
    while k < v.len()
        invariant
            k <= v@.len(),
            all == v@.map_values(|p: Vec<usize>| p@),
            rest@.len() == k,
            forall|m: int| 0 <= m < k ==> (#[trigger] rest@[m])@ == all[m],
        decreases v.len() - k,
    {
        rest.push(path_to_vec(v[k].as_slice()));
        k = k + 1;
    }
    assert(rest@.map_values(|p: Vec<usize>| p@) =~= all);
    let mut out: Vec<Vec<usize>> = Vec::new();
    while rest.len() > 0
        invariant
            all == v@.map_values(|p: Vec<usize>| p@),
            out@.len() + rest@.len() == all.len(),
            forall|p: Seq<usize>| all.contains(p) <==> (out@.map_values(|q: Vec<usize>| q@).contains(p) || rest@.map_values(|q: Vec<usize>| q@).contains(p)),
            sorted_desc(out@.map_values(|q: Vec<usize>| q@)),
            forall|i: int, j: int| 0 <= i < out@.len() && 0 <= j < rest@.len() ==> !path_lt(#[trigger] out@[i]@, #[trigger] rest@[j]@),
        decreases rest.len(),
    {
        let ghost rv = rest@.map_values(|q: Vec<usize>| q@);
        let mut best: usize = 0;
        let mut j: usize = 1;
        proof {
            lemma_path_lt_irreflexive(rest@[0]@);
        }
        while j < rest.len()
            invariant
                1 <= j <= rest@.len(),
                best < j,
                rv == rest@.map_values(|q: Vec<usize>| q@),
                forall|m: int| 0 <= m < j ==> !path_lt(rest@[best as int]@, #[trigger] rest@[m]@),
            decreases rest.len() - j,
        {
            if path_less(rest[best].as_slice(), rest[j].as_slice()) {
                proof {
                    assert forall|m: int| 0 <= m < j + 1 implies !path_lt(rest@[j as int]@, #[trigger] rest@[m]@) by {
                        if m < j && path_lt(rest@[j as int]@, rest@[m]@) {
                            lemma_path_lt_transitive(rest@[best as int]@, rest@[j as int]@, rest@[m]@);
                        }
                        if m == j {
                            lemma_path_lt_irreflexive(rest@[j as int]@);
                        }
                    }
                }
                best = j;
            }
            j = j + 1;
        }
        let ghost ov = out@.map_values(|q: Vec<usize>| q@);
        let picked = rest.remove(best);
        let ghost pv = picked@;
        out.push(picked);
        proof {
            let ov2 = out@.map_values(|q: Vec<usize>| q@);
            let rv2 = rest@.map_values(|q: Vec<usize>| q@);
            assert(ov2 =~= ov.push(pv));
            assert(rv2 =~= rv.remove(best as int));
            assert(rv[best as int] == pv);
            assert forall|p: Seq<usize>| all.contains(p) <==> (ov2.contains(p) || rv2.contains(p)) by {
                if rv.contains(p) {
                    let w = choose|w: int| 0 <= w < rv.len() && rv[w] == p;
                    if w < best {
                        assert(rv2[w] == p);
                    } else if w > best {
                        assert(rv2[w - 1] == p);
                    } else {
                        assert(ov2[ov2.len() - 1] == p);
                    }
                }
                if ov.contains(p) {
                    let w = choose|w: int| 0 <= w < ov.len() && ov[w] == p;
                    assert(ov2[w] == p);
                }
                if ov2.contains(p) {
                    let w = choose|w: int| 0 <= w < ov2.len() && ov2[w] == p;
                    if w < ov.len() {
                        assert(ov[w] == p);
                    } else {
                        assert(rv[best as int] == p);
                    }
                }
                if rv2.contains(p) {
                    let w = choose|w: int| 0 <= w < rv2.len() && rv2[w] == p;
                    if w < best {
                        assert(rv[w] == p);
                    } else {
                        assert(rv[w + 1] == p);
                    }
                }
            }
            assert forall|i: int, j: int| 0 <= i < j < ov2.len() implies !path_lt(#[trigger] ov2[i], #[trigger] ov2[j]) by {
                if j == ov2.len() - 1 {
                    assert(ov2[j] == rv[best as int]);
                } else {
                    assert(ov2[i] == ov[i] && ov2[j] == ov[j]);
                }
            }
            assert forall|i: int, j: int| 0 <= i < out@.len() && 0 <= j < rest@.len() implies !path_lt(#[trigger] out@[i]@, #[trigger] rest@[j]@) by {
                let jj = if j < best { j } else { j + 1 };
                assert(rest@[j]@ == rv[jj]);
                if i == out@.len() - 1 {
                    assert(out@[i]@ == pv);
                } else {
                    assert(out@[i]@ == ov[i]);
                }
            }
        }
    }
    out
}

/// No path comes before itself.
pub proof fn lemma_path_lt_irreflexive(a: Seq<usize>)
    ensures
        !path_lt(a, a),
    decreases a.len(),
{
    if a.len() > 0 {
        lemma_path_lt_irreflexive(a.drop_first());
    }
}

/// Deleting each of `ps` in turn, going on after a refusal: the root after
/// and how many deletions were made.
pub open spec fn delete_each(root: NodeModel, ps: Seq<Seq<usize>>) -> (NodeModel, nat)
    decreases ps.len(),
{
    if ps.len() == 0 {
        (root, 0)
    } else {
        let (r1, n1) = delete_each(root, ps.drop_last());
        let p = ps.last();
        if p.len() == 0 {
            (r1, n1)
        } else {
            let (r2, res) = edit_at_model(r1, p.drop_last(), EditModel::Remove(p.last()));
            (r2, if res is Ok { n1 + 1 } else { n1 })
        }
    }
}

/// Deleting each of `ps` in turn and moving the expanded paths, stopping at
/// the first refusal: the root and the expanded paths after, and the
/// refusal.
pub open spec fn delete_until(root: NodeModel, exp: Set<Seq<usize>>, ps: Seq<Seq<usize>>) -> (NodeModel, Set<Seq<usize>>, Option<TreeError>)
    decreases ps.len(),
{
    if ps.len() == 0 {
        (root, exp, None)
    } else {
        let (r1, e1, err) = delete_until(root, exp, ps.drop_last());
        if err is Some {
            (r1, e1, err)
        } else {
            let p = ps.last();
            if p.len() == 0 {
                (r1, e1, Some(TreeError::CannotDeleteRoot))
            } else {
                let (r2, res) = edit_at_model(r1, p.drop_last(), EditModel::Remove(p.last()));
                match res {
                    Err(e) => (r2, e1, Some(e)),
                    Ok(_) => (r2, expanded_after_delete(e1, p), None),
                }
            }
        }
    }
}

/// The nearest path at or above the parent of `p` that leads to a node:
/// `p` itself when it leads to one.
pub open spec fn nearest_node(root: NodeModel, p: Seq<usize>) -> Seq<usize>
    decreases p.len(),
{
    if node_at(root, p) is Some || p.len() == 0 {
        p
    } else {
        let q = p.drop_last();
        if node_at(root, q) is Some || q.len() == 0 { q } else { nearest_node(root, q) }
    }
}

/// The first line whose path does not come before `p`, else the last line.
pub open spec fn line_at_or_after(l: Seq<LineModel>, p: Seq<usize>) -> Option<Seq<usize>> {
    if exists|i: int| 0 <= i < l.len() && !path_lt(#[trigger] l[i].path, p) {
        let i = choose|i: int| 0 <= i < l.len() && !path_lt(#[trigger] l[i].path, p) && forall|j: int| 0 <= j < i ==> path_lt(l[j].path, p);
        Some(l[i].path)
    } else if l.len() > 0 {
        Some(l.last().path)
    } else {
        None
    }
}

/// The path of the first line not before `p` (see `line_at_or_after`).
fn find_line_at_or_after(lines: &[crate::ui::tree_view::TreeViewLine], p: &[usize]) -> (r: Option<Vec<usize>>)
    ensures
        match line_at_or_after(crate::ui::tree_view::lines_view(lines@), p@) {
            Some(q) => r matches Some(v) && v@ == q,
            None => r is None,
        },
{
    let ghost l = crate::ui::tree_view::lines_view(lines@);
    let mut i: usize = 0;
    while i < lines.len()
        invariant
            l == crate::ui::tree_view::lines_view(lines@),
            i <= lines@.len(),
            forall|j: int| 0 <= j < i ==> path_lt(#[trigger] l[j].path, p@),
        decreases lines.len() - i,
    {
        if !path_less(lines[i].path.as_slice(), p) {
            assert(!path_lt(l[i as int].path, p@) && forall|j: int| 0 <= j < i ==> path_lt(l[j].path, p@));
            let ghost c = choose|c: int| 0 <= c < l.len() && !path_lt(#[trigger] l[c].path, p@) && forall|j: int| 0 <= j < c ==> path_lt(l[j].path, p@);
            assert(c == i) by {
                if c < i {
                    assert(path_lt(l[c].path, p@));
                } else if c > i {
                    assert(path_lt(l[i as int].path, p@));
                }
            }
            return Some(path_to_vec(lines[i].path.as_slice()));
        }
        i = i + 1;
    }
    if lines.len() > 0 {
        Some(path_to_vec(lines[lines.len() - 1].path.as_slice()))
    } else {
        None
    }
}

impl EditorState {
    /// The nearest path from `p` up that leads to a node (see `nearest_node`).
    fn nearest_existing(&self, from: Vec<usize>) -> (r: Vec<usize>)
        requires
            self.wf(),
        ensures
            r@ == nearest_node(self.doc().root, from@),
    {
        let mut p = from;
        let ghost start = p@;
        loop
            invariant
                self.wf(),
                start == from@,
                nearest_node(self.doc().root, p@) == nearest_node(self.doc().root, start),
            decreases p@.len(),
        {
            if p.len() == 0 || self.tree.get_node(p.as_slice()).is_some() {
                return p;
            }
            let q = crate::paths::path_prefix(p.as_slice(), p.len() - 1);
            assert(q@ =~= p@.drop_last());
            if q.len() == 0 || self.tree.get_node(q.as_slice()).is_some() {
                return q;
            }
            p = q;
        }
    }

    /// Deletes the nodes of the visual selection, after yanking them (see
    /// `yank_visual_selection`), from the last to the first in path order
    /// (a refused deletion is skipped); the cursor goes to the first
    /// selected path, or up to the nearest node when it is gone. Returns
    /// how many nodes were deleted.
    #[verifier::rlimit(60)]
    pub fn delete_visual_selection(&mut self) -> (r: Result<usize, EditError>)
        requires
            old(self).wf(),
        ensures
            final(self).wf(),
            old(self).selection().len() == 0 ==> r == Ok::<usize, EditError>(0) && final(self).doc() == old(self).doc(),
            old(self).selection().len() > 0 ==> exists|q: Seq<Seq<usize>>| {
                &&& same_paths(q, old(self).selection())
                &&& sorted_desc(q)
                &&& final(self).doc() == (TreeModel { root: #[trigger] delete_each(old(self).doc().root, q).0, ..old(self).doc() })
                &&& r == Ok::<usize, EditError>(delete_each(old(self).doc().root, q).1 as usize)
                &&& final(self).cursor_at() == nearest_node(final(self).doc().root, old(self).selection()[0])
            },
            old(self).selection().len() > 0 ==> ({
                let s = old(self).selection();
                let p = present(old(self).doc().root, s, s.len() as int);
                &&& p.len() > 0 ==> final(self).regs() == store_yank(
                    old(self).regs(),
                    old(self).pending_reg(),
                    old(self).appending(),
                    content_at(old(self).doc().root, p),
                )
                &&& p.len() == 0 ==> final(self).regs() == old(self).regs()
            }),
    {
        if self.visual_selection.len() == 0 {
            return Ok(0);
        }
        let ghost sel = self.selection();
        let ghost root0 = self.doc().root;
        let sorted = sort_paths_desc(&self.visual_selection);
        let first = path_to_vec(self.visual_selection[0].as_slice());
        assert(first@ == sel[0]);
        let _ = self.yank_visual_selection();
        let ghost regs1 = self.regs();
        let ghost q = sorted@.map_values(|p: Vec<usize>| p@);
        let mut count: usize = 0;
        let mut i: usize = 0;
        while i < sorted.len()
            invariant
                self.wf(),
                q == sorted@.map_values(|p: Vec<usize>| p@),
                i <= sorted@.len(),
                count <= i,
                self.doc() == (TreeModel { root: delete_each(root0, q.take(i as int)).0, ..old(self).doc() }),
                count == delete_each(root0, q.take(i as int)).1,
                self.regs() == regs1,
            decreases sorted.len() - i,
        {
            assert(q.take(i as int + 1).drop_last() =~= q.take(i as int));
            assert(q.take(i as int + 1).last() == sorted@[i as int]@);
            if self.tree.delete_node(sorted[i].as_slice()).is_ok() {
                count = count + 1;
            }
            i = i + 1;
        }
        assert(q.take(sorted@.len() as int) =~= q);
        let target = self.nearest_existing(first);
        self.cursor.set_path(target);
        assert(same_paths(q, sel) && sorted_desc(q));
        assert(self.doc() == (TreeModel { root: delete_each(root0, q).0, ..old(self).doc() }));
        Ok(count)
    }

    /// Deletes the lines from the cursor to `mark_path` (see `range_to`),
    /// after yanking them (see `yank_to_mark`): from the last to the first
    /// in path order, moving the expanded paths, stopping at the first
    /// refusal. When all went, the document is marked changed, the cursor
    /// goes to the first line not before the first path of the range and
    /// an undo checkpoint is recorded. The count is not used.
    #[verifier::rlimit(80)]
    pub fn delete_to_mark(&mut self, mark_path: &[usize], count: u32) -> (r: Result<(), EditError>)
        requires
            old(self).wf(),
        ensures
            final(self).wf(),
            match range_to(old(self).shown(), old(self).cursor_at(), mark_path@) {
                Err(e) => r == Err::<(), EditError>(e) && final(self).doc() == old(self).doc(),
                Ok(s) => {
                    let p = present(old(self).doc().root, s, s.len() as int);
                    if p.len() == 0 {
                        r == Err::<(), EditError>(EditError::NoNodesCollected) && final(self).doc() == old(self).doc()
                    } else {
                        &&& final(self).regs() == store_range(
                            old(self).regs(),
                            old(self).pending_reg(),
                            old(self).appending(),
                            content_at(old(self).doc().root, p),
                        )
                        &&& exists|q: Seq<Seq<usize>>| {
                            &&& same_paths(q, s)
                            &&& sorted_desc(q)
                            &&& final(self).doc() == (TreeModel { root: #[trigger] delete_until(old(self).doc().root, old(self).expanded(), q).0, ..old(self).doc() })
                            &&& match delete_until(old(self).doc().root, old(self).expanded(), q).2 {
                                Some(e) => r == Err::<(), EditError>(EditError::Tree(e)),
                                None => {
                                    &&& r is Ok
                                    &&& final(self).expanded() == delete_until(old(self).doc().root, old(self).expanded(), q).1
                                    &&& final(self).dirty_flag()
                                    &&& final(self).view_current()
                                    &&& final(self).cursor_at() == match line_at_or_after(final(self).shown(), s[0]) {
                                        Some(t) => t,
                                        None => old(self).cursor_at(),
                                    }
                                },
                            }
                        }
                    }
                },
            },
    {
        let range = match self.calculate_range_to_mark(mark_path) {
            Ok(r) => r,
            Err(e) => return Err(e),
        };
        let ghost s = range@.map_values(|p: Vec<usize>| p@);
        let ghost root0 = self.doc().root;
        let ghost exp0 = self.expanded();
        match self.yank_nodes_in_range(&range) {
            Ok(()) => {},
            Err(e) => return Err(e),
        }
        let ghost regs1 = self.regs();
        assert(regs1 == store_range(
            old(self).regs(),
            old(self).pending_reg(),
            old(self).appending(),
            content_at(old(self).doc().root, present(old(self).doc().root, s, s.len() as int)),
        ));
        let ghost cur0 = self.cursor_at();
        assert(cur0 == old(self).cursor_at());
        let sorted = sort_paths_desc(&range);
        let ghost q = sorted@.map_values(|p: Vec<usize>| p@);
        let mut i: usize = 0;
        while i < sorted.len()
            invariant
                self.wf(),
                q == sorted@.map_values(|p: Vec<usize>| p@),
                s == range@.map_values(|p: Vec<usize>| p@),
                same_paths(q, s),
                sorted_desc(q),
                i <= sorted@.len(),
                self.doc() == (TreeModel { root: delete_until(root0, exp0, q.take(i as int)).0, ..old(self).doc() }),
                self.expanded() == delete_until(root0, exp0, q.take(i as int)).1,
                delete_until(root0, exp0, q.take(i as int)).2 is None,
                self.regs() == regs1,
                self.cursor_at() == cur0,
                root0 == old(self).doc().root,
                exp0 == old(self).expanded(),
                regs1 == store_range(
                    old(self).regs(),
                    old(self).pending_reg(),
                    old(self).appending(),
                    content_at(old(self).doc().root, present(old(self).doc().root, s, s.len() as int)),
                ),
                range_to(old(self).shown(), old(self).cursor_at(), mark_path@) == Ok::<Seq<Seq<usize>>, EditError>(s),
                present(old(self).doc().root, s, s.len() as int).len() > 0,
            decreases sorted.len() - i,
        {
            assert(q.take(i as int + 1).drop_last() =~= q.take(i as int));
            assert(q.take(i as int + 1).last() == sorted@[i as int]@);
            match self.tree.delete_node(sorted[i].as_slice()) {
                Ok(()) => {},
                Err(e) => {
                    proof {
                        assert(delete_until(root0, exp0, q.take(i as int + 1)).2 == Some(e));
                        lemma_until_stops(root0, exp0, q, i as int + 1);
                        assert(same_paths(q, s) && sorted_desc(q));
                        assert(root0 == old(self).doc().root && exp0 == old(self).expanded());
                        assert(self.doc() == (TreeModel { root: delete_until(old(self).doc().root, old(self).expanded(), q).0, ..old(self).doc() }));
                        assert(delete_until(old(self).doc().root, old(self).expanded(), q).2 == Some(e));
                    }
                    return Err(EditError::Tree(e));
                },
            }
            self.tree_view.update_paths_after_deletion(sorted[i].as_slice());
            i = i + 1;
        }
        assert(q.take(sorted@.len() as int) =~= q);
        self.dirty = true;
        self.tree_view.rebuild(&self.tree);
        let target = find_line_at_or_after(self.tree_view.lines(), range[0].as_slice());
        match target {
            Some(t) => self.cursor.set_path(t),
            None => {},
        }
        self.checkpoint();
        assert(same_paths(q, s) && sorted_desc(q));
        assert(self.doc() == (TreeModel { root: delete_until(root0, exp0, q).0, ..old(self).doc() }));
        Ok(())
    }
}

/// Once `delete_until` stops at a refusal, longer runs stop at it too.
proof fn lemma_until_stops(root: NodeModel, exp: Set<Seq<usize>>, q: Seq<Seq<usize>>, n: int)
    requires
        0 <= n <= q.len(),
        delete_until(root, exp, q.take(n)).2 is Some,
    ensures
        delete_until(root, exp, q) == delete_until(root, exp, q.take(n)),
    decreases q.len() - n,
{
    if n < q.len() {
        assert(q.take(n + 1).drop_last() =~= q.take(n));
        lemma_until_stops(root, exp, q, n + 1);
    } else {
        assert(q.take(n) =~= q);
    }
}

/// What `.` repeats, without its arguments.
pub enum RepeatKind {
    Nothing,
    Delete(u32),
    Yank(u32),
    Paste(bool),
    Add,
    AddArray,
    AddObject,
    Rename,
    ChangeValue,
}

/// Whether deleting the node at `cur` of `root` succeeds.
pub open spec fn delete_succeeds(root: NodeModel, cur: Seq<usize>) -> bool {
    &&& node_at(root, cur) is Some
    &&& cur.len() > 0
    &&& edit_at_model(root, cur.drop_last(), EditModel::Remove(cur.last())).1 is Ok
}

/// Each state of `t` is the one before it after a delete at the cursor
/// that succeeded (see `delete_outcome`).
pub open spec fn deletes_chain(t: Seq<EditorState>) -> bool {
    forall|i: int| 0 <= i < t.len() - 1 ==> #[trigger] delete_outcome(t[i], t[i + 1], Ok(()))
}

/// `k` of `c` repeated deletes at the cursor take `s0` to `s1`: `k`
/// succeed one after the other, and when `k < c` the next one is refused
/// (which leaves what a refused delete leaves).
pub open spec fn repeated_delete(s0: EditorState, s1: EditorState, c: nat, k: nat) -> bool {
    &&& k <= c
    &&& exists|t: Seq<EditorState>| {
        &&& #[trigger] deletes_chain(t)
        &&& t.len() == k + 1
        &&& t[0] == s0
        &&& if k == c {
            t[k as int] == s1
        } else {
            exists|e: EditError| #[trigger] delete_outcome(t[k as int], s1, Err(e))
        }
    }
}

/// The message of `k` repeated deletes.
pub open spec fn deleted_message(k: nat) -> Result<Seq<char>, Seq<char>> {
    if k == 0 {
        Err("Delete failed"@)
    } else if k == 1 {
        Ok("Node deleted (yanked)"@)
    } else {
        Ok(crate::text::nat_text(k) + " nodes deleted (yanked)"@)
    }
}

impl EditorState {
    /// The command `.` repeats, without its arguments.
    pub closed spec fn repeat_kind(&self) -> RepeatKind {
        match self.last_command {
            None => RepeatKind::Nothing,
            Some(crate::editor::repeat::RepeatableCommand::Delete { count }) => RepeatKind::Delete(count),
            Some(crate::editor::repeat::RepeatableCommand::Yank { count }) => RepeatKind::Yank(count),
            Some(crate::editor::repeat::RepeatableCommand::Paste { before }) => RepeatKind::Paste(before),
            Some(crate::editor::repeat::RepeatableCommand::Add { .. }) => RepeatKind::Add,
            Some(crate::editor::repeat::RepeatableCommand::AddArray) => RepeatKind::AddArray,
            Some(crate::editor::repeat::RepeatableCommand::AddObject) => RepeatKind::AddObject,
            Some(crate::editor::repeat::RepeatableCommand::Rename { .. }) => RepeatKind::Rename,
            Some(crate::editor::repeat::RepeatableCommand::ChangeValue { .. }) => RepeatKind::ChangeValue,
        }
    }

    fn repeat_kind_exec(&self) -> (r: RepeatKind)
        ensures
            r == self.repeat_kind(),
    {
        match &self.last_command {
            None => RepeatKind::Nothing,
            Some(crate::editor::repeat::RepeatableCommand::Delete { count }) => RepeatKind::Delete(*count),
            Some(crate::editor::repeat::RepeatableCommand::Yank { count }) => RepeatKind::Yank(*count),
            Some(crate::editor::repeat::RepeatableCommand::Paste { before }) => RepeatKind::Paste(*before),
            Some(crate::editor::repeat::RepeatableCommand::Add { .. }) => RepeatKind::Add,
            Some(crate::editor::repeat::RepeatableCommand::AddArray) => RepeatKind::AddArray,
            Some(crate::editor::repeat::RepeatableCommand::AddObject) => RepeatKind::AddObject,
            Some(crate::editor::repeat::RepeatableCommand::Rename { .. }) => RepeatKind::Rename,
            Some(crate::editor::repeat::RepeatableCommand::ChangeValue { .. }) => RepeatKind::ChangeValue,
        }
    }

    /// Repeats the last repeatable command and says what happened: deletes
    /// (as `delete_node_at_cursor` does, up to the count, stopping at the
    /// first refusal), yanks (as `yank_nodes`) and pastes (as the pastes
    /// at or before the cursor) are repeated; the other commands are
    /// refused with a message.
    pub fn repeat_last_command(&mut self) -> (r: Result<String, String>)
        requires
            old(self).wf(),
        ensures
            final(self).wf(),
            match old(self).repeat_kind() {
                RepeatKind::Nothing => r matches Err(m) && m@ == "No command to repeat"@ && final(self).doc() == old(self).doc(),
                RepeatKind::Delete(c) => {
                    &&& (r matches Err(m) && m@ == "Delete failed"@) <==> (c == 0 || !delete_succeeds(old(self).doc().root, old(self).cursor_at()))
                    &&& exists|k: nat| #[trigger] repeated_delete(*old(self), *final(self), c as nat, k) && match deleted_message(k) {
                        Ok(t) => r matches Ok(m) && m@ == t,
                        Err(t) => r matches Err(m) && m@ == t,
                    }
                },
                RepeatKind::Yank(c) => {
                    let paths = crate::editor::state::selection::yank_walk(old(self).doc().root, old(self).shown(), old(self).cursor_at(), c as nat);
                    &&& paths.len() == 0 ==> (r matches Err(m) && m@ == "Nothing to yank"@)
                    &&& paths.len() > 0 ==> (r matches Ok(m) && m@ == (if c > 1 { crate::text::nat_text(c as nat) + " nodes yanked"@ } else { "Node yanked"@ }))
                    &&& final(self).doc() == old(self).doc()
                },
                RepeatKind::Paste(before) => {
                    &&& before ==> exists|res: Result<(), EditError>| {
                        &&& #[trigger] crate::editor::state::paste_outcome(*old(self), *final(self), false, res)
                        &&& (res is Ok ==> (r matches Ok(m) && m@ == "Node pasted before"@))
                        &&& (res is Err ==> r is Err)
                    }
                    &&& !before ==> exists|res: Result<(), EditError>| {
                        &&& #[trigger] crate::editor::state::paste_outcome(*old(self), *final(self), true, res)
                        &&& (res is Ok ==> (r matches Ok(m) && m@ == "Node pasted after"@))
                        &&& (res is Err ==> r is Err)
                    }
                },
                RepeatKind::Add => r matches Err(m) && m@ == "Cannot repeat add operation yet"@ && final(self).doc() == old(self).doc(),
                RepeatKind::AddArray => r matches Err(m) && m@ == "Cannot repeat add array operation yet"@ && final(self).doc() == old(self).doc(),
                RepeatKind::AddObject => r matches Err(m) && m@ == "Cannot repeat add object operation yet"@ && final(self).doc() == old(self).doc(),
                RepeatKind::Rename => r matches Err(m) && m@ == "Cannot repeat rename operation yet"@ && final(self).doc() == old(self).doc(),
                RepeatKind::ChangeValue => r matches Err(m) && m@ == "Cannot repeat change value operation yet"@ && final(self).doc() == old(self).doc(),
            },
    {
        let kind = self.repeat_kind_exec();
        match kind {
            RepeatKind::Nothing => Err(crate::text::str_to_string("No command to repeat")),
            RepeatKind::Delete(count) => {
                let mut deleted: u32 = 0;
                let mut i: u32 = 0;
                let mut stop = false;
                let ghost mut trace: Seq<EditorState> = seq![*self];
                while i < count && !stop
                    invariant
                        self.wf(),
                        deleted == i,
                        i <= count,
                        trace.len() == i + 1,
                        trace[0] == *old(self),
                        deletes_chain(trace),
                        !stop ==> trace[i as int] == *self,
                        stop ==> i < count && exists|e: EditError| #[trigger] delete_outcome(trace[i as int], *self, Err(e)),
                        i == 0 && !stop ==> self.doc() == old(self).doc() && self.cursor_at() == old(self).cursor_at(),
                        stop && i == 0 ==> !delete_succeeds(old(self).doc().root, old(self).cursor_at()),
                        i > 0 ==> delete_succeeds(old(self).doc().root, old(self).cursor_at()),
                    decreases count - i + (if stop { 0int } else { 1int }),
                {
                    let ghost before = *self;
                    match self.delete_node_at_cursor() {
                        Ok(()) => {
                            proof {
                                let t2 = trace.push(*self);
                                assert forall|j: int| 0 <= j < t2.len() - 1 implies #[trigger] delete_outcome(t2[j], t2[j + 1], Ok(())) by {
                                    if j < trace.len() - 1 {
                                        assert(t2[j] == trace[j] && t2[j + 1] == trace[j + 1]);
                                    }
                                }
                                trace = t2;
                            }
                            deleted = deleted + 1;
                            i = i + 1;
                        },
                        Err(e) => {
                            assert(delete_outcome(trace[i as int], *self, Err(e)));
                            stop = true;
                        },
                    }
                }
                assert(repeated_delete(*old(self), *self, count as nat, deleted as nat));
                if deleted > 0 {
                    if deleted > 1 {
                        let n = crate::text::format_u128(deleted as u128);
                        let m = crate::text::concat(n.as_str(), " nodes deleted (yanked)");
                        assert(2 <= deleted as nat <= count && m@ == crate::text::nat_text(deleted as nat) + " nodes deleted (yanked)"@);
                        Ok(m)
                    } else {
                        Ok(crate::text::str_to_string("Node deleted (yanked)"))
                    }
                } else {
                    Err(crate::text::str_to_string("Delete failed"))
                }
            },
            RepeatKind::Yank(count) => {
                if self.yank_nodes(count) {
                    if count > 1 {
                        let n = crate::text::format_u128(count as u128);
                        Ok(crate::text::concat(n.as_str(), " nodes yanked"))
                    } else {
                        Ok(crate::text::str_to_string("Node yanked"))
                    }
                } else {
                    Err(crate::text::str_to_string("Nothing to yank"))
                }
            },
            RepeatKind::Paste(before) => {
                let result = if before { self.paste_node_before_cursor() } else { self.paste_node_at_cursor() };
                match result {
                    Ok(()) => {
                        if before {
                            Ok(crate::text::str_to_string("Node pasted before"))
                        } else {
                            Ok(crate::text::str_to_string("Node pasted after"))
                        }
                    },
                    Err(e) => {
                        let m = e.message();
                        Err(crate::text::concat("Paste failed: ", m.as_str()))
                    },
                }
            },
            RepeatKind::Add => Err(crate::text::str_to_string("Cannot repeat add operation yet")),
            RepeatKind::AddArray => Err(crate::text::str_to_string("Cannot repeat add array operation yet")),
            RepeatKind::AddObject => Err(crate::text::str_to_string("Cannot repeat add object operation yet")),
            RepeatKind::Rename => Err(crate::text::str_to_string("Cannot repeat rename operation yet")),
            RepeatKind::ChangeValue => Err(crate::text::str_to_string("Cannot repeat change value operation yet")),
        }
    }
}

} // verus!
