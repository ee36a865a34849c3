//! Yanking: copying nodes into registers, by count from the cursor, by a
//! visual selection or up to a mark; and the path of the cursor node as
//! text.

use vstd::prelude::*;
use crate::document::node::{node_at, NodeModel, ValueModel, YamlNode, YamlValue};
use crate::editor::mode::EditorMode;
use crate::editor::registers::{appended, ContentModel, RegisterContent, RegisterSetModel};
use crate::editor::state::{cursor_line, find_line, key_of, line_index, EditError, EditorState, MessageLevel};
use crate::paths::path_to_vec;
use crate::text::{lower_char, str_to_string};
use crate::ui::tree_view::{LineModel, TreeViewLine};

verus! {

/// The line after the one showing `p` (the first line when none shows it;
/// `p` itself on the last line or when there are no lines).
pub open spec fn line_below(l: Seq<LineModel>, p: Seq<usize>) -> Seq<usize> {
    if l.len() == 0 {
        p
    } else {
        match line_index(l, p) {
            Some(i) => if i + 1 < l.len() { l[i + 1].path } else { p },
            None => l[0].path,
        }
    }
}

/// The paths a yank of `count` nodes from `p` takes: `p` and the lines
/// below it, one per node, stopping before the first path where no node is.
pub open spec fn yank_walk(root: NodeModel, l: Seq<LineModel>, p: Seq<usize>, count: nat) -> Seq<Seq<usize>>
    decreases count,
{
    if count == 0 {
        Seq::empty()
    } else if node_at(root, p) is None {
        Seq::empty()
    } else if count == 1 {
        seq![p]
    } else {
        seq![p] + yank_walk(root, l, line_below(l, p), (count - 1) as nat)
    }
}

/// The register content for the nodes at `paths`, with their keys.
pub open spec fn content_at(root: NodeModel, paths: Seq<Seq<usize>>) -> ContentModel {
    ContentModel {
        nodes: paths.map_values(|p: Seq<usize>| node_at(root, p)->0),
        keys: paths.map_values(|p: Seq<usize>| key_of(root, p)),
    }
}

/// The registers after a yank of `c`: the chosen register (appended to in
/// append mode) or else the unnamed one, and the yank register `"0`.
pub open spec fn store_yank(regs: RegisterSetModel, pending: Option<char>, append: bool, c: ContentModel) -> RegisterSetModel {
    let r1 = match pending {
        Some(reg) => RegisterSetModel {
            named: regs.named.insert(
                lower_char(reg),
                if append && regs.named.contains_key(lower_char(reg)) {
                    appended(regs.named[lower_char(reg)], c)
                } else {
                    c
                },
            ),
            ..regs
        },
        None => RegisterSetModel { unnamed: c, ..regs },
    };
    RegisterSetModel { numbered: r1.numbered.update(0, c), ..r1 }
}

/// The path of the line below the one showing `p` (see `line_below`).
fn path_below(lines: &[TreeViewLine], p: &Vec<usize>) -> (r: Vec<usize>)
    ensures
        r@ == line_below(crate::ui::tree_view::lines_view(lines@), p@),
{
    if lines.len() == 0 {
        return p.clone();
    }
    match find_line(lines, p.as_slice()) {
        Some(k) => if k + 1 < lines.len() { path_to_vec(lines[k + 1].path.as_slice()) } else { p.clone() },
        None => path_to_vec(lines[0].path.as_slice()),
    }
}

impl EditorState {
    /// The node at `path` and its key, for a register.
    fn node_with_key(&self, path: &[usize]) -> (r: Option<(YamlNode, Option<String>)>)
        requires
            self.wf(),
        ensures
            match node_at(self.doc().root, path@) {
                Some(n) => r matches Some((x, k)) && x@ == n && crate::document::parser::opt_view(k) == key_of(
                    self.doc().root,
                    path@,
                ),
                None => r is None,
            },
    {
        match self.tree.get_node(path) {
            Some(n) => {
                let node = n.duplicate();
                let key = self.key_at(path);
                Some((node, key))
            },
            None => None,
        }
    }

    /// Puts `content` where a yank goes (see `store_yank`); content for the
    /// unnamed register is also offered to the system clipboard.
    fn store_yanked(&mut self, content: RegisterContent)
        requires
            old(self).wf(),
        ensures
            final(self).wf(),
            final(self).regs() == store_yank(old(self).regs(), old(self).pending_reg(), old(self).appending(), content@),
            final(self).same_document_but_registers(old(self)),
            final(self).same_input(old(self)),
            final(self).appending() == old(self).appending(),
    {
        match self.pending_register {
            Some(reg) => {
                if self.append_mode {
                    self.registers.append_named(reg, content.duplicate());
                } else {
                    self.registers.set_named(reg, content.duplicate());
                }
            },
            None => {
                self.registers.set_unnamed(content.duplicate());
                self.pending_clipboard = Some(content.duplicate());
            },
        }
        self.registers.update_yank_register(content);
    }

    /// Yanks `count` nodes from the cursor down (see `yank_walk`) into the
    /// registers (see `store_yank`); the cursor stays. False, with nothing
    /// stored, when there is no node at the cursor.
    #[verifier::rlimit(40)]
    #[verifier::spinoff_prover]
    pub fn yank_nodes(&mut self, count: u32) -> (r: bool)
        requires
            old(self).wf(),
        ensures
            final(self).wf(),
            ({
                let paths = yank_walk(old(self).doc().root, old(self).shown(), old(self).cursor_at(), count as nat);
                &&& r == (paths.len() > 0)
                &&& r ==> final(self).regs() == store_yank(
                    old(self).regs(),
                    old(self).pending_reg(),
                    old(self).appending(),
                    content_at(old(self).doc().root, paths),
                )
                &&& !r ==> final(self).regs() == old(self).regs()
            }),
            final(self).same_document_but_registers(old(self)),
            final(self).same_input(old(self)),
    {
        let ghost root = self.doc().root;
        let ghost l = self.shown();
        let start = path_to_vec(self.cursor.path());
        let mut p = path_to_vec(self.cursor.path());
        let mut nodes: Vec<YamlNode> = Vec::new();
        let mut keys: Vec<Option<String>> = Vec::new();
        let ghost mut walked: Seq<Seq<usize>> = Seq::empty();
        let mut i: u32 = 0;
        let mut stop = false;
        while i < count && !stop
            invariant
                self.wf(),
                self.doc().root == root,
                self.shown() == l,
                *self == *old(self),
                i <= count,
                walked + yank_walk(root, l, p@, (count - i) as nat) == yank_walk(root, l, start@, count as nat),
                stop ==> yank_walk(root, l, p@, (count - i) as nat) == Seq::<Seq<usize>>::empty(),
                nodes@.len() == walked.len(),
                keys@.len() == walked.len(),
                forall|j: int| 0 <= j < walked.len() ==> (#[trigger] nodes@[j])@ == node_at(root, walked[j])->0,
                forall|j: int| 0 <= j < walked.len() ==> crate::document::parser::opt_view(#[trigger] keys@[j]) == key_of(root, walked[j]),
            decreases count - i + (if stop { 0int } else { 1int }),
        {
            match self.node_with_key(p.as_slice()) {
                Some((node, key)) => {
                    nodes.push(node);
                    keys.push(key);
                    proof {
                        walked = walked.push(p@);
                    }
                    let next = if i + 1 < count { path_below(self.tree_view.lines(), &p) } else { p.clone() };
                    proof {
                        assert(walked + yank_walk(root, l, next@, (count - i - 1) as nat) =~= yank_walk(root, l, start@, count as nat));
                    }
                    p = next;
                    i = i + 1;
                },
                None => {
                    stop = true;
                },
            }
        }
        proof {
            assert(yank_walk(root, l, p@, (count - i) as nat) =~= Seq::<Seq<usize>>::empty());
            assert(walked =~= yank_walk(root, l, start@, count as nat));
        }
        if nodes.len() == 0 {
            return false;
        }
        let content = RegisterContent::new(nodes, keys);
        proof {
            let c = content_at(root, walked);
            assert(content@.nodes =~= c.nodes);
            assert(content@.keys =~= c.keys);
        }
        self.store_yanked(content);
        true
    }
}

/// How a path is written: 0 for `dot` and `jq` (`.users[0].name`), 1 for
/// `bracket` (`$["users"][0]["name"]`), 2 for any other name.
pub open spec fn format_kind(f: Seq<char>) -> int {
    if f == "dot"@ || f == "jq"@ {
        0
    } else if f == "bracket"@ {
        1
    } else {
        2
    }
}

/// `k` with a backslash before each `"` and `\`.
pub open spec fn escaped_key(k: Seq<char>) -> Seq<char>
    decreases k.len(),
{
    if k.len() == 0 {
        Seq::empty()
    } else {
        let c = k.last();
        escaped_key(k.drop_last()) + (if c == '"' || c == '\\' { seq!['\\', c] } else { seq![c] })
    }
}

/// The text of the path `path` below `n` in format `kind`: a mapping entry
/// adds `.key` (kind 0), `["key"]` (kind 1) or nothing (kind 2); a
/// sequence element adds `[i]`; none when the path leaves the document.
pub open spec fn path_segments(n: NodeModel, path: Seq<usize>, kind: int) -> Option<Seq<char>>
    decreases path.len(),
{
    if path.len() == 0 {
        Some(Seq::empty())
    } else {
        let i = path[0];
        match n.value {
            ValueModel::Object(e) => if i < e.len() {
                let seg = if kind == 0 {
                    seq!['.'] + e[i as int].0
                } else if kind == 1 {
                    seq!['[', '"'] + escaped_key(e[i as int].0) + seq!['"', ']']
                } else {
                    Seq::empty()
                };
                match path_segments(e[i as int].1, path.drop_first(), kind) {
                    Some(rest) => Some(seg + rest),
                    None => None,
                }
            } else {
                None
            },
            ValueModel::Array(a) | ValueModel::MultiDoc(a) => if i < a.len() {
                match path_segments(a[i as int], path.drop_first(), kind) {
                    Some(rest) => Some(seq!['['] + crate::text::nat_text(i as nat) + seq![']'] + rest),
                    None => None,
                }
            } else {
                None
            },
            _ => None,
        }
    }
}

/// The text of the cursor path in format `f` (see `compute_path_string`).
pub open spec fn path_text(root: NodeModel, path: Seq<usize>, f: Seq<char>) -> Option<Seq<char>> {
    if path.len() == 0 {
        if format_kind(f) == 0 {
            Some("."@)
        } else if format_kind(f) == 1 {
            Some("$"@)
        } else {
            None
        }
    } else {
        match path_segments(root, path, format_kind(f)) {
            Some(t) => Some(if format_kind(f) == 1 { seq!['$'] + t } else { t }),
            None => None,
        }
    }
}

/// Appends `k` escaped (see `escaped_key`).
fn push_escaped(r: &mut String, k: &str)
    ensures
        final(r)@ == old(r)@ + escaped_key(k@),
{
    let v = crate::text::chars_of(k);
    let mut i: usize = 0;
    while i < v.len()
        invariant
            v@ == k@,
            i <= v@.len(),
            r@ == old(r)@ + escaped_key(k@.take(i as int)),
        decreases v.len() - i,
    {
        assert(k@.take(i as int + 1).drop_last() =~= k@.take(i as int));
        let c = v[i];
        if c == '"' || c == '\\' {
            crate::text::push_char(r, '\\');
        }
        crate::text::push_char(r, c);
        i = i + 1;
        assert(r@ =~= old(r)@ + escaped_key(k@.take(i as int)));
    }
    assert(k@.take(v@.len() as int) =~= k@);
}

/// The segments of `path` below `n` (see `path_segments`).
fn segments_text(n: &YamlNode, path: &[usize], start: usize, kind: u8) -> (r: Option<String>)
    requires
        start <= path@.len(),
        kind <= 2,
    ensures
        match path_segments(n@, path@.skip(start as int), kind as int) {
            Some(t) => r matches Some(s) && s@ == t,
            None => r is None,
        },
    decreases path@.len() - start,
{
    if start == path.len() {
        assert(path@.skip(start as int) =~= Seq::<usize>::empty());
        return Some(String::new());
    }
    let i = path[start];
    assert(path@.skip(start as int)[0] == i);
    assert(path@.skip(start as int).drop_first() =~= path@.skip(start as int + 1));
    proof {
        crate::document::node::lemma_node_value_view(*n);
        crate::document::node::reveal_views(&n.value);
    }
    match n.value() {
        YamlValue::Object(e) => {
            if i >= e.len() {
                return None;
            }
            let mut seg = String::new();
            if kind == 0 {
                crate::text::push_char(&mut seg, '.');
                crate::text::push_str(&mut seg, e[i].0.as_str());
            } else if kind == 1 {
                crate::text::push_char(&mut seg, '[');
                crate::text::push_char(&mut seg, '"');
                push_escaped(&mut seg, e[i].0.as_str());
                crate::text::push_char(&mut seg, '"');
                crate::text::push_char(&mut seg, ']');
            }
            match segments_text(&e[i].1, path, start + 1, kind) {
                Some(rest) => {
                    crate::text::push_str(&mut seg, rest.as_str());
                    Some(seg)
                },
                None => None,
            }
        },
        YamlValue::Array(a) | YamlValue::MultiDoc(a) => {
            if i >= a.len() {
                return None;
            }
            match segments_text(&a[i], path, start + 1, kind) {
                Some(rest) => {
                    let mut seg = String::new();
                    crate::text::push_char(&mut seg, '[');
                    let num = crate::text::format_usize(i);
                    crate::text::push_str(&mut seg, num.as_str());
                    crate::text::push_char(&mut seg, ']');
                    crate::text::push_str(&mut seg, rest.as_str());
                    Some(seg)
                },
                None => None,
            }
        },
        _ => None,
    }
}

impl EditorState {
    /// The cursor path as text in `format` (`dot`, `jq` or `bracket`; see
    /// `path_text`).
    pub fn compute_path_string(&self, format: &str) -> (r: Option<String>)
        ensures
            match path_text(self.doc().root, self.cursor_at(), format@) {
                Some(t) => r matches Some(s) && s@ == t,
                None => r is None,
            },
    {
        proof {
            reveal_strlit("dot");
            reveal_strlit("jq");
            reveal_strlit("bracket");
        }
        let kind: u8 = if crate::text::str_eq(format, "dot") || crate::text::str_eq(format, "jq") {
            0
        } else if crate::text::str_eq(format, "bracket") {
            1
        } else {
            2
        };
        let path = self.cursor.path();
        if path.len() == 0 {
            return if kind == 0 {
                Some(str_to_string("."))
            } else if kind == 1 {
                Some(str_to_string("$"))
            } else {
                None
            };
        }
        assert(path@.skip(0) =~= path@);
        match segments_text(self.tree.root(), path, 0, kind) {
            Some(t) => {
                if kind == 1 {
                    let mut r = String::new();
                    crate::text::push_char(&mut r, '$');
                    crate::text::push_str(&mut r, t.as_str());
                    Some(r)
                } else {
                    Some(t)
                }
            },
            None => None,
        }
    }

    /// The cursor path in dot notation without the leading dot (`users[0].name`);
    /// empty at the root and where the path leaves the document.
    pub fn get_current_path(&self) -> (r: String)
        ensures
            r@ == current_path_text(self.doc().root, self.cursor_at()),
    {
        if self.cursor.path().len() == 0 {
            return String::new();
        }
        proof {
            reveal_strlit("dot");
        }
        let t = match self.compute_path_string("dot") {
            Some(t) => t,
            None => String::new(),
        };
        let v = crate::text::chars_of(t.as_str());
        if v.len() > 0 && v[0] == '.' {
            crate::text::string_from_char_range(v.as_slice(), 1, v.len())
        } else {
            t
        }
    }

    /// The text to copy for a path yank in `format`: none when a register
    /// was chosen (paths go to the clipboard only) or there is no path.
    fn path_to_copy(&self, format: &str) -> (r: Option<String>)
        ensures
            self.pending_reg() is Some ==> r is None,
            self.pending_reg() is None ==> match path_text(self.doc().root, self.cursor_at(), format@) {
                Some(t) => r matches Some(s) && s@ == t,
                None => r is None,
            },
    {
        if self.pending_register.is_some() {
            return None;
        }
        self.compute_path_string(format)
    }

    /// The cursor path in dot notation, to be copied to the system
    /// clipboard (see `path_to_copy`).
    pub fn yank_path_dot(&self) -> (r: Option<String>)
        ensures
            self.pending_reg() is Some ==> r is None,
            self.pending_reg() is None ==> match path_text(self.doc().root, self.cursor_at(), "dot"@) {
                Some(t) => r matches Some(s) && s@ == t,
                None => r is None,
            },
    {
        self.path_to_copy("dot")
    }

    /// The cursor path in bracket notation, to be copied to the system
    /// clipboard.
    pub fn yank_path_bracket(&self) -> (r: Option<String>)
        ensures
            self.pending_reg() is Some ==> r is None,
            self.pending_reg() is None ==> match path_text(self.doc().root, self.cursor_at(), "bracket"@) {
                Some(t) => r matches Some(s) && s@ == t,
                None => r is None,
            },
    {
        self.path_to_copy("bracket")
    }

    /// The cursor path in jq notation, to be copied to the system clipboard.
    pub fn yank_path_jq(&self) -> (r: Option<String>)
        ensures
            self.pending_reg() is Some ==> r is None,
            self.pending_reg() is None ==> match path_text(self.doc().root, self.cursor_at(), "jq"@) {
                Some(t) => r matches Some(s) && s@ == t,
                None => r is None,
            },
    {
        self.path_to_copy("jq")
    }
}

/// The cursor path as `get_current_path` gives it.
pub open spec fn current_path_text(root: NodeModel, path: Seq<usize>) -> Seq<char> {
    if path.len() == 0 {
        Seq::empty()
    } else {
        let t = match path_text(root, path, "dot"@) {
            Some(t) => t,
            None => Seq::empty(),
        };
        if t.len() > 0 && t[0] == '.' { t.drop_first() } else { t }
    }
}

/// The paths of `s[..n]` that lead to a node, in order.
pub open spec fn present(root: NodeModel, s: Seq<Seq<usize>>, n: int) -> Seq<Seq<usize>>
    decreases n,
{
    if n <= 0 {
        Seq::empty()
    } else {
        let rest = present(root, s, n - 1);
        if node_at(root, s[n - 1]) is Some { rest.push(s[n - 1]) } else { rest }
    }
}

/// The registers after yanking a range: the chosen register (appended to
/// in append mode) or else the unnamed one.
pub open spec fn store_range(regs: RegisterSetModel, pending: Option<char>, append: bool, c: ContentModel) -> RegisterSetModel {
    match pending {
        Some(reg) => RegisterSetModel {
            named: regs.named.insert(
                lower_char(reg),
                if append && regs.named.contains_key(lower_char(reg)) {
                    appended(regs.named[lower_char(reg)], c)
                } else {
                    c
                },
            ),
            ..regs
        },
        None => RegisterSetModel { unnamed: c, ..regs },
    }
}

impl EditorState {
    /// The nodes at those of `paths` that lead to one, with their keys.
    fn collect_present(&self, paths: &[Vec<usize>]) -> (r: RegisterContent)
        requires
            self.wf(),
        ensures
            r@ == content_at(self.doc().root, present(self.doc().root, paths@.map_values(|p: Vec<usize>| p@), paths@.len() as int)),
    {
        let ghost root = self.doc().root;
        let ghost m = paths@.map_values(|p: Vec<usize>| p@);
        let mut nodes: Vec<YamlNode> = Vec::new();
        let mut keys: Vec<Option<String>> = Vec::new();
        let mut i: usize = 0;
        while i < paths.len()
            invariant
                self.wf(),
                root == self.doc().root,
                m == paths@.map_values(|p: Vec<usize>| p@),
                i <= paths@.len(),
                nodes@.len() == present(root, m, i as int).len(),
                keys@.len() == present(root, m, i as int).len(),
                forall|j: int| 0 <= j < nodes@.len() ==> (#[trigger] nodes@[j])@ == node_at(root, present(root, m, i as int)[j])->0,
                forall|j: int| 0 <= j < keys@.len() ==> crate::document::parser::opt_view(#[trigger] keys@[j]) == key_of(root, present(root, m, i as int)[j]),
            decreases paths.len() - i,
        {
            assert(m[i as int] == paths@[i as int]@);
            match self.node_with_key(paths[i].as_slice()) {
                Some((node, key)) => {
                    nodes.push(node);
                    keys.push(key);
                },
                None => {},
            }
            i = i + 1;
        }
        let c = RegisterContent::new(nodes, keys);
        proof {
            let want = content_at(root, present(root, m, paths@.len() as int));
            assert(c@.nodes =~= want.nodes);
            assert(c@.keys =~= want.keys);
        }
        c
    }

    /// Yanks the nodes of the visual selection (see `store_yank`); the
    /// chosen register and append mode are then forgotten. Returns how many
    /// nodes were yanked; none, with nothing changed, for an empty
    /// selection or one that leads to no node.
    #[verifier::spinoff_prover]
    #[verifier::rlimit(80)]
    pub fn yank_visual_selection(&mut self) -> (r: usize)
        requires
            old(self).wf(),
        ensures
            final(self).wf(),
            final(self).same_document_but_registers(old(self)),
            ({
                let s = old(self).selection();
                let p = present(old(self).doc().root, s, s.len() as int);
                &&& r == p.len()
                &&& r > 0 ==> final(self).regs() == store_yank(
                    old(self).regs(),
                    old(self).pending_reg(),
                    old(self).appending(),
                    content_at(old(self).doc().root, p),
                ) && final(self).pending_reg() is None && !final(self).appending()
                &&& r == 0 ==> final(self).regs() == old(self).regs()
            }),
    {
        if self.visual_selection.len() == 0 {
            proof {
                assert(old(self).selection().len() == 0);
            }
            return 0;
        }
        let ghost sel = self.selection();
        let content = self.collect_present(self.visual_selection.as_slice());
        let ghost p = present(old(self).doc().root, sel, sel.len() as int);
        let n = content.nodes.len();
        assert(content@.nodes.len() == n);
        assert(content_at(old(self).doc().root, p).nodes.len() == p.len());
        assert(n == p.len());
        if n == 0 {
            return 0;
        }
        self.store_yanked(content);
        self.pending_register = None;
        self.append_mode = false;
        n
    }

    /// Yanks the nodes at `range` into the chosen register (appended to in
    /// append mode) or the unnamed one (offered to the system clipboard).
    pub(crate) fn yank_nodes_in_range(&mut self, range: &Vec<Vec<usize>>) -> (r: Result<(), EditError>)
        requires
            old(self).wf(),
        ensures
            final(self).wf(),
            final(self).same_document_but_registers(old(self)),
            final(self).same_input(old(self)),
            ({
                let s = range@.map_values(|p: Vec<usize>| p@);
                let p = present(old(self).doc().root, s, s.len() as int);
                if s.len() == 0 {
                    r == Err::<(), EditError>(EditError::NothingInRange) && final(self).regs() == old(self).regs()
                } else if p.len() == 0 {
                    r == Err::<(), EditError>(EditError::NoNodesCollected) && final(self).regs() == old(self).regs()
                } else {
                    r is Ok && final(self).regs() == store_range(
                        old(self).regs(),
                        old(self).pending_reg(),
                        old(self).appending(),
                        content_at(old(self).doc().root, p),
                    )
                }
            }),
    {
        if range.len() == 0 {
            return Err(EditError::NothingInRange);
        }
        let content = self.collect_present(range.as_slice());
        assert(content@.nodes.len() == content.nodes@.len());
        if content.nodes.len() == 0 {
            return Err(EditError::NoNodesCollected);
        }
        match self.pending_register {
            Some(reg) => {
                if self.append_mode {
                    self.registers.append_named(reg, content);
                } else {
                    self.registers.set_named(reg, content);
                }
            },
            None => {
                self.registers.set_unnamed(content.duplicate());
                self.pending_clipboard = Some(content);
            },
        }
        Ok(())
    }

    /// Yanks the lines from the cursor to `mark_path` (see
    /// `calculate_range_to_mark`, `yank_nodes_in_range`); the count is not
    /// used.
    pub fn yank_to_mark(&mut self, mark_path: &[usize], count: u32) -> (r: Result<(), EditError>)
        requires
            old(self).wf(),
        ensures
            final(self).wf(),
            final(self).same_document_but_registers(old(self)),
            match crate::editor::state::visual::range_to(old(self).shown(), old(self).cursor_at(), mark_path@) {
                Err(e) => r == Err::<(), EditError>(e) && final(self).regs() == old(self).regs(),
                Ok(s) => {
                    let p = present(old(self).doc().root, s, s.len() as int);
                    if p.len() == 0 {
                        r == Err::<(), EditError>(EditError::NoNodesCollected) && final(self).regs() == old(self).regs()
                    } else {
                        r is Ok && final(self).regs() == store_range(
                            old(self).regs(),
                            old(self).pending_reg(),
                            old(self).appending(),
                            content_at(old(self).doc().root, p),
                        )
                    }
                },
            },
    {
        let range = match self.calculate_range_to_mark(mark_path) {
            Ok(r) => r,
            Err(e) => return Err(e),
        };
        self.yank_nodes_in_range(&range)
    }
}

} // verus!
