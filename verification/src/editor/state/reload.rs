//! Replacing the whole document: reloading from disk or after formatting.

use vstd::prelude::*;
use crate::document::node::{NodeModel, ValueModel, YamlNode, YamlValue};
use crate::document::tree::YamlTree;
use crate::editor::state::EditorState;
use crate::editor::undo::{EditorSnapshot, UndoTree};
use crate::file::saver::{compact, indent_fits, serialize_node_compact, serialize_node_jq_style, serialized};
use crate::paths::path_to_vec;
use crate::ui::tree_view::{containers_below, visible_lines, TreeViewState};

verus! {

/// Whether every level of `n` below depth `d` can be indented by `k`
/// spaces per level (see `indent_fits`).
pub fn check_indent(n: &YamlNode, k: usize, d: usize) -> (r: bool)
    ensures
        r == indent_fits(n@, k as nat, d as nat),
    decreases n, 1int,
{
    proof {
        crate::document::node::lemma_node_value_view(*n);
        crate::document::node::reveal_views(&n.value);
    }
    if d == usize::MAX {
        return false;
    }
    match k.checked_mul(d + 1) {
        None => {
            assert(k as nat * (d as nat + 1) > usize::MAX);
            return false;
        },
        Some(_) => {},
    }
    assert(k as nat * (d as nat + 1) <= usize::MAX);
    proof {
        reveal_with_fuel(indent_fits, 2);
    }
    match &n.value {
        YamlValue::Object(e) => {
            let r = check_entries(e, k, d + 1);
            let ghost em = crate::document::node::entries_model(e@);
            assert(n@.value == ValueModel::Object(em));
            assert(em.len() == e@.len());
            assert(r == (forall|j: int| 0 <= j < em.len() ==> indent_fits(#[trigger] em[j].1, k as nat, d as nat + 1)));
            proof {
                if r {
                    assert(indent_fits(n@, k as nat, d as nat));
                } else {
                    let j = choose|j: int| 0 <= j < em.len() && !indent_fits(#[trigger] em[j].1, k as nat, d as nat + 1);
                    assert(!indent_fits(em[j].1, k as nat, d as nat + 1));
                    if indent_fits(n@, k as nat, d as nat) {
                        let x = n@.value->Object_0;
                        assert(x == em);
                        assert(indent_fits(x[j].1, k as nat, d as nat + 1));
                    }
                }
            }
            assert(r == indent_fits(n@, k as nat, d as nat));
            r
        },
        YamlValue::Array(v) => {
            let r = check_elements(v, k, d + 1);
            let ghost vm = crate::document::node::nodes_model(v@);
            assert(n@.value == ValueModel::Array(vm));
            assert(vm.len() == v@.len());
            assert(r == (forall|j: int| 0 <= j < vm.len() ==> indent_fits(#[trigger] vm[j], k as nat, d as nat + 1)));
            proof {
                if !r {
                    let j = choose|j: int| 0 <= j < vm.len() && !indent_fits(#[trigger] vm[j], k as nat, d as nat + 1);
                    if indent_fits(n@, k as nat, d as nat) {
                        let x = n@.value->Array_0;
                        assert(x == vm);
                        assert(indent_fits(x[j], k as nat, d as nat + 1));
                    }
                }
            }
            assert(r == indent_fits(n@, k as nat, d as nat));
            r
        },
        YamlValue::MultiDoc(v) => {
            let r = check_elements(v, k, d + 1);
            let ghost vm = crate::document::node::nodes_model(v@);
            assert(n@.value == ValueModel::MultiDoc(vm));
            assert(vm.len() == v@.len());
            assert(r == (forall|j: int| 0 <= j < vm.len() ==> indent_fits(#[trigger] vm[j], k as nat, d as nat + 1)));
            proof {
                if !r {
                    let j = choose|j: int| 0 <= j < vm.len() && !indent_fits(#[trigger] vm[j], k as nat, d as nat + 1);
                    if indent_fits(n@, k as nat, d as nat) {
                        let x = n@.value->MultiDoc_0;
                        assert(x == vm);
                        assert(indent_fits(x[j], k as nat, d as nat + 1));
                    }
                }
            }
            assert(r == indent_fits(n@, k as nat, d as nat));
            r
        },
        _ => true,
    }
}

fn check_entries(e: &Vec<(String, YamlNode)>, k: usize, d: usize) -> (r: bool)
    ensures
        r == forall|j: int| 0 <= j < e@.len() ==> indent_fits(#[trigger] crate::document::node::entries_model(e@)[j].1, k as nat, d as nat),
    decreases e, 0int,
{
    let ghost em = crate::document::node::entries_model(e@);
    let mut i: usize = 0;
    while i < e.len()
        invariant
            em == crate::document::node::entries_model(e@),
            i <= e@.len(),
            forall|j: int| 0 <= j < i ==> indent_fits(#[trigger] em[j].1, k as nat, d as nat),
        decreases e.len() - i,
    {
        assert(em[i as int].1 == e@[i as int].1@);
        if !check_indent(&e[i].1, k, d) {
            return false;
        }
        i = i + 1;
    }
    true
}

fn check_elements(v: &Vec<YamlNode>, k: usize, d: usize) -> (r: bool)
    ensures
        r == forall|j: int| 0 <= j < v@.len() ==> indent_fits(#[trigger] crate::document::node::nodes_model(v@)[j], k as nat, d as nat),
    decreases v, 0int,
{
    let ghost vm = crate::document::node::nodes_model(v@);
    let mut i: usize = 0;
    while i < v.len()
        invariant
            vm == crate::document::node::nodes_model(v@),
            i <= v@.len(),
            forall|j: int| 0 <= j < i ==> indent_fits(#[trigger] vm[j], k as nat, d as nat),
        decreases v.len() - i,
    {
        assert(vm[i as int] == v@[i as int]@);
        if !check_indent(&v[i], k, d) {
            return false;
        }
        i = i + 1;
    }
    true
}

/// The documents of a stream, one compact line each, every line ended.
pub open spec fn compact_lines(v: Seq<NodeModel>) -> Seq<char>
    decreases v.len(),
{
    if v.len() == 0 {
        Seq::empty()
    } else {
        compact_lines(v.drop_last()) + compact(v.last()) + "\n"@
    }
}

/// The text of a formatted document: a stream one compact line per
/// document (an empty stream a single newline); anything else jq-style with two spaces per level and a final
/// newline.
pub open spec fn formatted(root: NodeModel) -> Seq<char> {
    match root.value {
        ValueModel::MultiDoc(v) => if v.len() == 0 { "\n"@ } else { compact_lines(v) },
        _ => {
            let t = serialized(root, 2, 0, true);
            if t.len() > 0 && t.last() == '\n' { t } else { t.push('\n') }
        },
    }
}

impl EditorState {
    /// The text of the document formatted (see `formatted`); none when the
    /// document is too deep to indent.
    pub fn formatted_text(&self) -> (r: Option<String>)
        ensures
            indent_fits(self.doc().root, 2, 0) ==> (r matches Some(t) && t@ == formatted(self.doc().root)),
            !indent_fits(self.doc().root, 2, 0) ==> r is None,
    {
        let root = self.tree.root();
        if !check_indent(root, 2, 0) {
            return None;
        }
        proof {
            crate::document::node::lemma_node_value_view(*root);
            crate::document::node::reveal_views(&root.value);
        }
        match &root.value {
            YamlValue::MultiDoc(v) => {
                if v.len() == 0 {
                    let r = crate::text::str_to_string("\n");
                    proof {
                        reveal_strlit("\n");
                    }
                    return Some(r);
                }
                let ghost vm = crate::document::node::nodes_model(v@);
                let mut r = String::new();
                let mut i: usize = 0;
                while i < v.len()
                    invariant
                        vm == crate::document::node::nodes_model(v@),
                        i <= v@.len(),
                        r@ == compact_lines(vm.take(i as int)),
                    decreases v.len() - i,
                {
                    assert(vm.take(i as int + 1).drop_last() =~= vm.take(i as int));
                    let line = serialize_node_compact(&v[i]);
                    crate::text::push_str(&mut r, line.as_str());
                    crate::text::push_str(&mut r, "\n");
                    i = i + 1;
                }
                assert(vm.take(v@.len() as int) =~= vm);
                Some(r)
            },
            _ => {
                let mut t = serialize_node_jq_style(root, 2, 0);
                let c = crate::text::chars_of(t.as_str());
                if !(c.len() > 0 && c[c.len() - 1] == '\n') {
                    crate::text::push_char(&mut t, '\n');
                }
                Some(t)
            },
        }
    }

    /// Replaces the document with `tree`: nothing unsaved, containers all
    /// expanded (none for a multi-document root), the cursor on the first
    /// line, a fresh undo history, no message.
    pub fn reload_tree(&mut self, tree: YamlTree)
        requires
            old(self).wf(),
            tree.wf(),
        ensures
            final(self).wf(),
            final(self).doc() == tree@,
            final(self).expanded() == (if tree@.root.value is MultiDoc {
                Set::<Seq<usize>>::empty()
            } else {
                containers_below(tree@.root, Seq::empty())
            }),
            final(self).view_current(),
            final(self).cursor_at() == (if final(self).shown().len() > 0 { final(self).shown()[0].path } else { Seq::empty() }),
            !final(self).dirty_flag(),
            final(self).msg() is None,
            final(self).history_len() == 1,
            final(self).history_current(),
    {
        let mut tree_view = TreeViewState::new();
        let is_multidoc = match tree.root().value() {
            YamlValue::MultiDoc(_) => true,
            _ => false,
        };
        if !is_multidoc {
            tree_view.expand_all(&tree);
            assert(tree_view@.expanded =~= containers_below(tree@.root, Seq::empty()));
        }
        tree_view.rebuild(&tree);
        let lines = tree_view.lines();
        let first = if lines.len() > 0 { path_to_vec(lines[0].path.as_slice()) } else { Vec::new() };
        let snapshot = EditorSnapshot { tree: tree.duplicate(), cursor_path: path_to_vec(first.as_slice()) };
        let undo_tree = UndoTree::new(snapshot, 50);
        self.tree = tree;
        self.dirty = false;
        self.tree_view = tree_view;
        self.cursor.set_path(first);
        self.undo_tree = undo_tree;
        self.message = None;
    }
}

} // verus!
