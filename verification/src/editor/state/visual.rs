//! Marks, the jump list, visual selections, ranges up to a mark, and the
//! command that `.` repeats.

use vstd::prelude::*;
use crate::document::node::node_at;
use crate::editor::cursor::Cursor;
use crate::editor::jumplist::{record_model, JumpList, JumpListModel};
use crate::editor::marks::MarkSet;
use crate::editor::mode::EditorMode;
use crate::editor::repeat::RepeatableCommand;
use crate::editor::state::{find_line, line_index, EditError, EditorState};
use crate::paths::{path_to_vec, paths_equal};
use crate::ui::tree_view::{lines_view, LineModel, TreeViewLine};

verus! {

/// Jumping to a mark brings the cursor back to where the mark was last
/// set, however the marks were before.
pub proof fn law_jump_to_set_mark(
    before: Map<char, Seq<usize>>,
    marks: Map<char, Seq<usize>>,
    name: char,
    set_at: Seq<usize>,
    jumped: bool,
    cursor: Seq<usize>,
)
    requires
        marks == before.insert(name, set_at),
        jumped == marks.contains_key(name),
        jumped ==> cursor == marks[name],
    ensures
        jumped,
        cursor == set_at,
{
}

impl EditorState {
    /// The cursor, to be moved by hand.
    pub fn cursor_mut(&mut self) -> (r: &mut Cursor)
        requires
            old(self).wf(),
        ensures
            r@ == old(self).cursor_at(),
            final(self).cursor_at() == final(r)@,
            final(self).wf(),
            final(self).doc() == old(self).doc(),
            final(self).shown() == old(self).shown(),
            final(self).expanded() == old(self).expanded(),
            final(self).regs() == old(self).regs(),
            final(self).same_input(old(self)),
    {
        &mut self.cursor
    }

    /// The jump list.
    pub fn jumplist(&self) -> (r: &JumpList)
        ensures
            r@ == self.jumps(),
    {
        &self.jumplist
    }

    /// Records the cursor in the jump list (before a long move).
    pub fn record_jump(&mut self)
        requires
            old(self).wf(),
        ensures
            final(self).wf(),
            final(self).jumps() == record_model(old(self).jumps(), old(self).cursor_at()),
            final(self).same_document(old(self)),
            final(self).same_input(old(self)),
            final(self).search_text() == old(self).search_text(),
            final(self).results() == old(self).results(),
            final(self).result_at() == old(self).result_at(),
            final(self).forward() == old(self).forward(),
    {
        let p = path_to_vec(self.cursor.path());
        self.jumplist.record_jump(p);
    }

    /// Goes back in the jump list; false at the oldest jump.
    pub fn jump_backward(&mut self) -> (r: bool)
        requires
            old(self).wf(),
        ensures
            final(self).wf(),
            final(self).doc() == old(self).doc(),
            final(self).shown() == old(self).shown(),
            ({
                let m = old(self).jumps();
                if m.current == 0 || m.jumps.len() == 0 {
                    !r && final(self).cursor_at() == old(self).cursor_at() && final(self).jumps() == m
                } else {
                    r && final(self).cursor_at() == m.jumps[m.current - 1]
                        && final(self).jumps() == (JumpListModel { current: (m.current - 1) as nat, ..m })
                }
            }),
    {
        match self.jumplist.jump_backward() {
            Some(p) => {
                self.cursor.set_path(p);
                true
            },
            None => false,
        }
    }

    /// Goes forward in the jump list; false at the newest jump.
    pub fn jump_forward(&mut self) -> (r: bool)
        requires
            old(self).wf(),
        ensures
            final(self).wf(),
            final(self).doc() == old(self).doc(),
            final(self).shown() == old(self).shown(),
            ({
                let m = old(self).jumps();
                if m.jumps.len() == 0 || m.current + 1 >= m.jumps.len() {
                    !r && final(self).cursor_at() == old(self).cursor_at() && final(self).jumps() == m
                } else {
                    r && final(self).cursor_at() == m.jumps[m.current + 1int]
                        && final(self).jumps() == (JumpListModel { current: m.current + 1, ..m })
                }
            }),
    {
        match self.jumplist.jump_forward() {
            Some(p) => {
                self.cursor.set_path(p);
                true
            },
            None => false,
        }
    }

    /// The marks.
    pub fn marks(&self) -> (r: &MarkSet)
        ensures
            r@ == self.mark_map(),
    {
        &self.marks
    }

    /// Whether a mark name is awaited after `m`.
    pub fn pending_mark_set(&self) -> (r: bool)
        ensures
            r == self.mark_waits().0,
    {
        self.pending_mark_set
    }

    /// Sets whether a mark name is awaited after `m`.
    pub fn set_pending_mark_set(&mut self, pending: bool)
        requires
            old(self).wf(),
        ensures
            final(self).wf(),
            final(self).mark_waits() == (pending, old(self).mark_waits().1),
            final(self).same_document(old(self)),
            final(self).same_input(old(self)),
            final(self).same_extras(old(self)),
            final(self).search_text() == old(self).search_text(),
            final(self).results() == old(self).results(),
            final(self).result_at() == old(self).result_at(),
    {
        self.pending_mark_set = pending;
    }

    /// Whether a mark name is awaited after `'`.
    pub fn pending_mark_jump(&self) -> (r: bool)
        ensures
            r == self.mark_waits().1,
    {
        self.pending_mark_jump
    }

    /// Sets whether a mark name is awaited after `'`.
    pub fn set_pending_mark_jump(&mut self, pending: bool)
        requires
            old(self).wf(),
        ensures
            final(self).wf(),
            final(self).mark_waits() == (old(self).mark_waits().0, pending),
            final(self).same_document(old(self)),
            final(self).same_input(old(self)),
            final(self).same_extras(old(self)),
            final(self).search_text() == old(self).search_text(),
            final(self).results() == old(self).results(),
            final(self).result_at() == old(self).result_at(),
            final(self).appending() == old(self).appending(),
            final(self).pending_cmd() == old(self).pending_cmd(),
            final(self).count_typed() == old(self).count_typed(),
    {
        self.pending_mark_jump = pending;
    }

    /// Sets mark `name` at the cursor.
    pub fn set_mark(&mut self, name: char)
        requires
            old(self).wf(),
        ensures
            final(self).wf(),
            final(self).mark_map() == old(self).mark_map().insert(name, old(self).cursor_at()),
            final(self).same_document(old(self)),
            final(self).same_input(old(self)),
            final(self).mark_waits() == old(self).mark_waits(),
    {
        let p = path_to_vec(self.cursor.path());
        self.marks.set_mark(name, p);
    }

    /// Moves the cursor to mark `name`; false when it is not set.
    pub fn jump_to_mark(&mut self, name: char) -> (r: bool)
        requires
            old(self).wf(),
        ensures
            final(self).wf(),
            final(self).doc() == old(self).doc(),
            final(self).shown() == old(self).shown(),
            final(self).mark_map() == old(self).mark_map(),
            r == old(self).mark_map().contains_key(name),
            r ==> final(self).cursor_at() == old(self).mark_map()[name],
            !r ==> final(self).cursor_at() == old(self).cursor_at(),
    {
        let target = match self.marks.get_mark(name) {
            Some(p) => Some(path_to_vec(p.as_slice())),
            None => None,
        };
        match target {
            Some(p) => {
                self.cursor.set_path(p);
                true
            },
            None => false,
        }
    }

    /// The visual anchor.
    pub fn visual_anchor(&self) -> (r: Option<&Vec<usize>>)
        ensures
            match self.anchor() {
                Some(a) => r matches Some(p) && p@ == a,
                None => r is None,
            },
    {
        match &self.visual_anchor {
            Some(p) => Some(p),
            None => None,
        }
    }

    /// The selected paths.
    pub fn visual_selection(&self) -> (r: &[Vec<usize>])
        ensures
            r@.map_values(|p: Vec<usize>| p@) == self.selection(),
    {
        self.visual_selection.as_slice()
    }

    /// Enters visual mode at the cursor: the anchor and the selection are
    /// the cursor node.
    pub fn enter_visual_mode(&mut self)
        requires
            old(self).wf(),
        ensures
            final(self).wf(),
            final(self).anchor() == Some(old(self).cursor_at()),
            final(self).selection() == seq![old(self).cursor_at()],
            final(self).mode_value() == EditorMode::Visual,
            final(self).same_document(old(self)),
    {
        self.visual_anchor = Some(path_to_vec(self.cursor.path()));
        let mut sel: Vec<Vec<usize>> = Vec::new();
        sel.push(path_to_vec(self.cursor.path()));
        self.visual_selection = sel;
        self.mode = EditorMode::Visual;
        assert(self.selection() =~= seq![old(self).cursor_at()]);
    }

    /// Leaves visual mode for normal mode; nothing stays selected.
    #[verifier::spinoff_prover]
    #[verifier::rlimit(80)]
    pub fn exit_visual_mode(&mut self)
        requires
            old(self).wf(),
        ensures
            final(self).wf(),
            final(self).anchor() is None,
            final(self).selection().len() == 0,
            final(self).mode_value() == EditorMode::Normal,
            final(self).same_document(old(self)),
            final(self).msg() == old(self).msg(),
            final(self).same_extras(old(self)),
    {
        self.visual_anchor = None;
        let empty: Vec<Vec<usize>> = Vec::new();
        assert(empty@.map_values(|p: Vec<usize>| p@) =~= Seq::<Seq<usize>>::empty());
        self.visual_selection = empty;
        self.mode = EditorMode::Normal;
    }

    /// The last repeatable command.
    pub fn last_command(&self) -> (r: Option<&RepeatableCommand>)
        ensures
            r is Some == self.has_last_command(),
    {
        match &self.last_command {
            Some(c) => Some(c),
            None => None,
        }
    }

    /// Records the command that `.` repeats.
    pub fn set_last_command(&mut self, cmd: RepeatableCommand)
        requires
            old(self).wf(),
        ensures
            final(self).wf(),
            final(self).has_last_command(),
            final(self).same_document(old(self)),
            final(self).same_input(old(self)),
    {
        self.last_command = Some(cmd);
    }

    /// Forgets the command that `.` repeats.
    pub fn clear_last_command(&mut self)
        requires
            old(self).wf(),
        ensures
            final(self).wf(),
            !final(self).has_last_command(),
            final(self).same_document(old(self)),
            final(self).same_input(old(self)),
    {
        self.last_command = None;
    }
}

/// The paths of lines `a..=b` (in either order) of `l`.
pub open spec fn line_range(l: Seq<LineModel>, a: int, b: int) -> Seq<Seq<usize>> {
    let lo = if a <= b { a } else { b };
    let hi = if a <= b { b } else { a };
    Seq::new((hi - lo + 1) as nat, |i: int| l[lo + i].path)
}

/// `q` is a proper prefix of `p`.
pub open spec fn strictly_below(p: Seq<usize>, q: Seq<usize>) -> bool {
    q != p && p.len() > q.len() && p.take(q.len() as int) == q
}

/// `p` lies below another path of `s`.
pub open spec fn below_some(p: Seq<usize>, s: Seq<Seq<usize>>) -> bool {
    exists|j: int| 0 <= j < s.len() && strictly_below(p, #[trigger] s[j])
}

/// The paths of `s[..n]` that lie below no path of `s`, in order.
pub open spec fn top_level(s: Seq<Seq<usize>>, n: int) -> Seq<Seq<usize>>
    decreases n,
{
    if n <= 0 {
        Seq::empty()
    } else {
        let rest = top_level(s, n - 1);
        if below_some(s[n - 1], s) { rest } else { rest.push(s[n - 1]) }
    }
}

/// The lines from the cursor to `mark`, or why there are none.
pub open spec fn range_to(l: Seq<LineModel>, cur: Seq<usize>, mark: Seq<usize>) -> Result<Seq<Seq<usize>>, EditError> {
    match (line_index(l, cur), line_index(l, mark)) {
        (None, _) => Err(EditError::CursorNotShown),
        (Some(_), None) => Err(EditError::MarkNotShown),
        (Some(c), Some(m)) => Ok(line_range(l, c, m)),
    }
}

/// Whether `p` is a proper prefix of... (see `strictly_below`).
fn is_strictly_below(p: &Vec<usize>, q: &Vec<usize>) -> (r: bool)
    ensures
        r == strictly_below(p@, q@),
{
    if paths_equal(p.as_slice(), q.as_slice()) || p.len() <= q.len() {
        return false;
    }
    let prefix = crate::paths::path_prefix(p.as_slice(), q.len());
    paths_equal(prefix.as_slice(), q.as_slice())
}

/// The paths of `lines[a..=b]` (in either order).
fn range_paths(lines: &[TreeViewLine], a: usize, b: usize) -> (r: Vec<Vec<usize>>)
    requires
        a < lines@.len(),
        b < lines@.len(),
    ensures
        r@.map_values(|p: Vec<usize>| p@) == line_range(lines_view(lines@), a as int, b as int),
{
    let lo = if a <= b { a } else { b };
    let hi = if a <= b { b } else { a };
    let ghost l = lines_view(lines@);
    let mut r: Vec<Vec<usize>> = Vec::new();
    let mut i = lo;
    while i <= hi
        invariant
            l == lines_view(lines@),
            lo <= i <= hi + 1,
            hi < lines@.len(),
            r@.len() == i - lo,
            forall|j: int| 0 <= j < r@.len() ==> (#[trigger] r@[j])@ == l[lo + j].path,
        decreases hi + 1 - i,
    {
        r.push(path_to_vec(lines[i].path.as_slice()));
        i = i + 1;
    }
    assert(r@.map_values(|p: Vec<usize>| p@) =~= line_range(l, a as int, b as int));
    r
}

/// The paths of `s` that lie below no other path of `s` (see `top_level`).
fn top_level_paths(s: &Vec<Vec<usize>>) -> (r: Vec<Vec<usize>>)
    ensures
        r@.map_values(|p: Vec<usize>| p@) == top_level(s@.map_values(|p: Vec<usize>| p@), s@.len() as int),
{
    let ghost m = s@.map_values(|p: Vec<usize>| p@);
    let mut r: Vec<Vec<usize>> = Vec::new();
    let mut i: usize = 0;
    while i < s.len()
        invariant
            m == s@.map_values(|p: Vec<usize>| p@),
            i <= s@.len(),
            r@.map_values(|p: Vec<usize>| p@) == top_level(m, i as int),
        decreases s.len() - i,
    {
        let mut child = false;
        let mut j: usize = 0;
        while j < s.len()
            invariant
                m == s@.map_values(|p: Vec<usize>| p@),
                i < s@.len(),
                j <= s@.len(),
                child == exists|k: int| 0 <= k < j && strictly_below(m[i as int], #[trigger] m[k]),
            decreases s.len() - j,
        {
            proof {
                assert(m[j as int] == s@[j as int]@);
                assert(m[i as int] == s@[i as int]@);
            }
            if is_strictly_below(&s[i], &s[j]) {
                child = true;
            }
            j = j + 1;
        }
        let ghost before = r@;
        assert(child == below_some(m[i as int], m));
        assert(top_level(m, i as int + 1) == (if below_some(m[i as int], m) { top_level(m, i as int) } else { top_level(m, i as int).push(m[i as int]) }));
        if !child {
            r.push(path_to_vec(s[i].as_slice()));
            assert(r@.map_values(|p: Vec<usize>| p@) =~= before.map_values(|p: Vec<usize>| p@).push(m[i as int]));
        }
        i = i + 1;
    }
    r
}

impl EditorState {
    /// In visual mode, selects the lines between the anchor and the cursor,
    /// keeping only the paths that lie below no other selected path; when
    /// the anchor or the cursor shows on no line, nothing changes.
    #[verifier::spinoff_prover]
    #[verifier::rlimit(60)]
    pub fn update_visual_selection(&mut self)
        requires
            old(self).wf(),
        ensures
            final(self).wf(),
            final(self).same_document(old(self)),
            final(self).anchor() == old(self).anchor(),
            match old(self).anchor() {
                Some(a) => match (line_index(old(self).shown(), a), line_index(old(self).shown(), old(self).cursor_at())) {
                    (Some(ai), Some(ci)) => final(self).selection() == ({
                        let range = line_range(old(self).shown(), ai, ci);
                        top_level(range, range.len() as int)
                    }),
                    _ => final(self).selection() == old(self).selection(),
                },
                None => final(self).selection() == old(self).selection(),
            },
    {
        let anchor = match &self.visual_anchor {
            Some(a) => path_to_vec(a.as_slice()),
            None => return,
        };
        let lines = self.tree_view.lines();
        let ai = find_line(lines, anchor.as_slice());
        let ci = find_line(lines, self.cursor.path());
        match (ai, ci) {
            (Some(a), Some(c)) => {
                let range = range_paths(lines, a, c);
                let top = top_level_paths(&range);
                self.visual_selection = top;
            },
            _ => {},
        }
    }

    /// The paths of the lines from the cursor to `mark_path` (see
    /// `range_to`).
    #[verifier::spinoff_prover]
    #[verifier::rlimit(60)]
    pub fn calculate_range_to_mark(&self, mark_path: &[usize]) -> (r: Result<Vec<Vec<usize>>, EditError>)
        requires
            self.wf(),
        ensures
            match range_to(self.shown(), self.cursor_at(), mark_path@) {
                Ok(s) => r matches Ok(v) && v@.map_values(|p: Vec<usize>| p@) == s,
                Err(e) => r == Err::<Vec<Vec<usize>>, EditError>(e),
            },
    {
        let lines = self.tree_view.lines();
        let c = match find_line(lines, self.cursor.path()) {
            Some(c) => c,
            None => return Err(EditError::CursorNotShown),
        };
        let m = match find_line(lines, mark_path) {
            Some(m) => m,
            None => return Err(EditError::MarkNotShown),
        };
        Ok(range_paths(lines, c, m))
    }
}

} // verus!
