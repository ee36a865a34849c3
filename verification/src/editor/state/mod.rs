//! Editor state: the document, the view of it, the cursor and everything the
//! editor remembers between key presses.

use vstd::prelude::*;
pub mod adding;
pub mod dispatch;
pub mod editing;
pub mod reload;
pub mod removal;
pub mod search;
pub mod selection;
pub mod visual;
pub mod text_input;

use crate::document::node::{node_at, NodeModel, ValueModel, YamlNode, YamlValue};
use crate::document::tree::{TreeModel, YamlTree};
use crate::editor::cursor::Cursor;
use crate::editor::jumplist::{JumpList, JumpListModel};
use crate::editor::marks::MarkSet;
use crate::editor::mode::EditorMode;
use crate::editor::repeat::RepeatableCommand;
use crate::editor::registers::{empty_content, ContentModel, RegisterContent, RegisterSet, RegisterSetModel};
use crate::document::edit::{edit_at_model, EditModel, TreeError};
use crate::ui::tree_view::{expanded_after_delete, expanded_after_insert, indices_fit, node_and_descendants};
use crate::editor::keys::{find_unique_key, unique_key};
use crate::document::tree::{insertion_index, insertion_parent};
use crate::editor::undo::{EditorSnapshot, UndoTree};
use crate::paths::{path_prefix, path_to_vec, paths_equal};
use crate::text::{str_eq, str_to_string};
use crate::theme::{builtin_theme_names, list_builtin_themes};
use crate::ui::tree_view::{containers_below, lines_view, visible_lines, LineModel, TreeViewLine, TreeViewState};

verus! {

/// The kind of the last search.
#[derive(Debug, Clone, PartialEq, Eq)]
pub enum SearchType {
    /// Plain text search
    Text,
    /// A path query (the query is kept for display)
    YamlPath(String),
}

/// State of the theme picker overlay.
#[derive(Debug, Clone)]
pub struct ThemePickerState {
    /// Names of the themes on offer
    pub themes: Vec<String>,
    /// Index of the highlighted theme
    pub selected_index: usize,
    /// Theme in use when the picker was opened (restored on cancel)
    pub original_theme: String,
    /// Theme being previewed
    pub current_theme: String,
}

impl ThemePickerState {
    /// A picker over the built-in themes with `current_theme` highlighted
    /// (the first theme when it is not built in).
    pub fn new(current_theme: String) -> (r: Self)
        ensures
            r.themes@.len() == builtin_theme_names().len(),
            forall|i: int| 0 <= i < r.themes@.len() ==> #[trigger] r.themes@[i]@ == builtin_theme_names()[i],
            (exists|i: int| 0 <= i < builtin_theme_names().len() && builtin_theme_names()[i] == current_theme@)
                ==> r.themes@[r.selected_index as int]@ == current_theme@ && forall|j: int|
                0 <= j < r.selected_index ==> builtin_theme_names()[j] != current_theme@,
            !(exists|i: int| 0 <= i < builtin_theme_names().len() && builtin_theme_names()[i] == current_theme@)
                ==> r.selected_index == 0,
            r.selected_index < r.themes@.len(),
            r.original_theme@ == current_theme@,
            r.current_theme@ == current_theme@,
    {
        let themes = list_builtin_themes();
        let mut selected_index: usize = 0;
        let mut found = false;
        let mut i: usize = 0;
        while i < themes.len()
            invariant
                themes@.len() == builtin_theme_names().len(),
                forall|k: int| 0 <= k < themes@.len() ==> #[trigger] themes@[k]@ == builtin_theme_names()[k],
                i <= themes@.len(),
                !found ==> selected_index == 0 && forall|j: int| 0 <= j < i ==> builtin_theme_names()[j] != current_theme@,
                found ==> selected_index < i && themes@[selected_index as int]@ == current_theme@
                    && forall|j: int| 0 <= j < selected_index ==> builtin_theme_names()[j] != current_theme@,
            decreases themes.len() - i,
        {
            if !found && str_eq(themes[i].as_str(), current_theme.as_str()) {
                selected_index = i;
                found = true;
            }
            i = i + 1;
        }
        let original_theme = current_theme.clone();
        ThemePickerState { themes, selected_index, original_theme, current_theme }
    }
}

/// A message shown in the message area.
#[derive(Debug, Clone)]
pub struct Message {
    pub text: String,
    pub level: MessageLevel,
}

/// How a message is shown.
#[derive(Debug, Clone, Copy, PartialEq, Eq, Structural)]
pub enum MessageLevel {
    Info,
    Warning,
    Error,
}

/// Progress of an "add" operation.
#[derive(Debug, Clone, Copy, PartialEq, Eq, Structural)]
pub enum AddModeStage {
    /// No add in progress
    Inactive,
    /// The key of a new mapping entry is being typed
    AwaitingKey,
    /// The value is being typed
    AwaitingValue,
}

/// Index of the first line showing `p`.
pub open spec fn line_index(lines: Seq<LineModel>, p: Seq<usize>) -> Option<int> {
    if exists|i: int| 0 <= i < lines.len() && #[trigger] lines[i].path == p {
        Some(choose|i: int| 0 <= i < lines.len() && #[trigger] lines[i].path == p && forall|j: int| 0 <= j < i ==> lines[j].path != p)
    } else {
        None
    }
}

/// The line index the cursor is on, taken as the first line when the
/// cursor shows on none.
pub open spec fn cursor_line(lines: Seq<LineModel>, p: Seq<usize>) -> int {
    match line_index(lines, p) {
        Some(i) => i,
        None => 0,
    }
}

/// Index of the first line showing `p`, if any.
pub fn find_line(lines: &[TreeViewLine], p: &[usize]) -> (r: Option<usize>)
    ensures
        match r {
            Some(i) => line_index(lines_view(lines@), p@) == Some(i as int) && i < lines@.len(),
            None => line_index(lines_view(lines@), p@) is None,
        },
{
    let ghost lv = lines_view(lines@);
    let mut i: usize = 0;
    while i < lines.len()
        invariant
            lv == lines_view(lines@),
            i <= lines@.len(),
            forall|j: int| 0 <= j < i ==> lv[j].path != p@,
        decreases lines.len() - i,
    {
        if paths_equal(lines[i].path.as_slice(), p) {
            assert(lv[i as int].path == p@);
            let ghost c = choose|k: int| 0 <= k < lv.len() && #[trigger] lv[k].path == p@ && forall|j: int| 0 <= j < k ==> lv[j].path != p@;
            assert(c == i) by {
                if c < i {
                    assert(lv[c].path != p@);
                } else if c > i {
                    assert(lv[i as int].path == p@);
                }
            }
            return Some(i);
        }
        i = i + 1;
    }
    None
}

/// All editor state between key presses.
pub struct EditorState {
    tree: YamlTree,
    mode: EditorMode,
    cursor: Cursor,
    dirty: bool,
    filename: Option<String>,
    tree_view: TreeViewState,
    message: Option<Message>,
    command_buffer: String,
    show_help: bool,
    help_scroll: usize,
    pending_theme: Option<String>,
    current_theme: String,
    show_theme_picker: bool,
    theme_picker_state: Option<ThemePickerState>,
    registers: RegisterSet,
    pending_register: Option<char>,
    append_mode: bool,
    search_buffer: String,
    search_results: Vec<Vec<usize>>,
    search_index: usize,
    search_forward: bool,
    search_type: Option<SearchType>,
    show_line_numbers: bool,
    relative_line_numbers: bool,
    enable_mouse: bool,
    create_backup: bool,
    edit_buffer: Option<String>,
    edit_cursor: usize,
    cursor_visible: bool,
    cursor_blink_ticks: u8,
    pending_command: Option<char>,
    pending_count: Option<u32>,
    scroll_offset: usize,
    viewport_height: usize,
    undo_tree: UndoTree,
    add_mode_stage: AddModeStage,
    add_key_buffer: String,
    add_key_cursor: usize,
    add_insertion_point: Option<Vec<usize>>,
    temp_container: Option<YamlNode>,
    is_renaming_key: bool,
    rename_original_key: Option<String>,
    completion_candidates: Vec<String>,
    completion_index: usize,
    completion_prefix: String,
    jumplist: JumpList,
    marks: MarkSet,
    pending_mark_set: bool,
    pending_mark_jump: bool,
    visual_anchor: Option<Vec<usize>>,
    visual_selection: Vec<Vec<usize>>,
    last_command: Option<RepeatableCommand>,
    pending_clipboard: Option<RegisterContent>,
}

impl EditorState {
    /// The parts are well formed: tree, view, undo history, registers,
    /// jump list and marks.
    pub closed spec fn wf(&self) -> bool {
        &&& self.tree.wf()
        &&& self.tree_view.wf()
        &&& self.undo_tree.wf()
        &&& self.undo_tree.kept() >= 2
        &&& self.registers.wf()
        &&& self.jumplist.wf()
        &&& self.marks.wf()
        &&& self.undo_tree.node_seq().len() < u64::MAX
        &&& (self.edit_buffer matches Some(b) ==> self.edit_cursor <= b@.len())
        &&& self.add_key_cursor <= self.add_key_buffer@.len()
        &&& (self.theme_picker_state matches Some(p) ==> p.selected_index < p.themes@.len())
        &&& (self.completion_candidates@.len() > 0 ==> self.completion_index < self.completion_candidates@.len())
        &&& (self.add_insertion_point matches Some(p) ==> p@.len() > 0)
        &&& (self.search_results@.len() > 0 ==> self.search_index < self.search_results@.len())
        &&& self.jumplist@.max_size > 0
    }

    /// The document.
    pub closed spec fn doc(&self) -> TreeModel {
        self.tree@
    }

    /// The visible lines.
    pub closed spec fn shown(&self) -> Seq<LineModel> {
        self.tree_view@.lines
    }

    /// The expanded paths.
    pub closed spec fn expanded(&self) -> Set<Seq<usize>> {
        self.tree_view@.expanded
    }

    /// The cursor path.
    pub closed spec fn cursor_at(&self) -> Seq<usize> {
        self.cursor@
    }

    /// The first visible line index.
    pub closed spec fn scroll(&self) -> nat {
        self.scroll_offset as nat
    }

    /// The number of lines the screen shows.
    pub closed spec fn viewport(&self) -> nat {
        self.viewport_height as nat
    }

    /// Unsaved changes exist.
    pub closed spec fn dirty_flag(&self) -> bool {
        self.dirty
    }

    /// The current mode.
    pub closed spec fn mode_value(&self) -> EditorMode {
        self.mode
    }

    /// The document, its view, the cursor, the registers and the undo
    /// history are as in `before`.
    pub open spec fn same_document(&self, before: &EditorState) -> bool {
        &&& self.doc() == before.doc()
        &&& self.shown() == before.shown()
        &&& self.expanded() == before.expanded()
        &&& self.cursor_at() == before.cursor_at()
        &&& self.dirty_flag() == before.dirty_flag()
        &&& self.regs() == before.regs()
        &&& self.history_len() == before.history_len()
        &&& self.history_doc() == before.history_doc()
        &&& self.history_current() == before.history_current()
        &&& self.undo_target() == before.undo_target()
        &&& self.redo_target() == before.redo_target()
        &&& self.scroll() == before.scroll()
        &&& self.viewport() == before.viewport()
    }

    /// The help, the theme picker, the settings, the file name, the marks,
    /// the jumps and whether a command can be repeated are as in `before`.
    pub open spec fn same_extras(&self, before: &EditorState) -> bool {
        &&& self.help_shown() == before.help_shown()
        &&& self.help_offset() == before.help_offset()
        &&& self.picker() == before.picker()
        &&& self.picker_shown() == before.picker_shown()
        &&& self.theme_name() == before.theme_name()
        &&& self.settings() == before.settings()
        &&& self.file_name() == before.file_name()
        &&& self.mark_map() == before.mark_map()
        &&& self.jumps() == before.jumps()
        &&& self.has_last_command() == before.has_last_command()
    }

    /// Like `same_document`, except that the registers may differ.
    pub open spec fn same_document_but_registers(&self, before: &EditorState) -> bool {
        &&& self.doc() == before.doc()
        &&& self.shown() == before.shown()
        &&& self.expanded() == before.expanded()
        &&& self.cursor_at() == before.cursor_at()
        &&& self.dirty_flag() == before.dirty_flag()
        &&& self.history_len() == before.history_len()
        &&& self.history_doc() == before.history_doc()
        &&& self.history_current() == before.history_current()
        &&& self.undo_target() == before.undo_target()
        &&& self.redo_target() == before.redo_target()
        &&& self.scroll() == before.scroll()
        &&& self.viewport() == before.viewport()
    }

    /// The lines show the document with the current expanded paths.
    pub open spec fn view_current(&self) -> bool {
        self.shown() == visible_lines(self.doc().root, self.expanded())
    }

    /// An editor on `tree`: every container expanded unless the root is a
    /// multi-document root, the cursor on the first line (the root when
    /// there is none), normal mode, nothing unsaved.
    pub fn new(tree: YamlTree, initial_theme_name: String) -> (r: Self)
        requires
            tree.wf(),
        ensures
            r.wf(),
            r.doc() == tree@,
            r.expanded() == (if tree@.root.value is MultiDoc {
                Set::<Seq<usize>>::empty()
            } else {
                containers_below(tree@.root, Seq::empty())
            }),
            r.view_current(),
            r.cursor_at() == (if r.shown().len() > 0 { r.shown()[0].path } else { Seq::empty() }),
            r.starts_idle(),
            r.theme_name() == initial_theme_name@,
    {
        let mut tree_view = TreeViewState::new();
        let is_multidoc = match tree.root().value() {
            YamlValue::MultiDoc(_) => true,
            _ => false,
        };
        if !is_multidoc {
            tree_view.expand_all(&tree);
            assert(tree_view@.expanded =~= containers_below(tree@.root, Seq::empty()));
        }
        tree_view.rebuild(&tree);
        let mut cursor = Cursor::new();
        let lines = tree_view.lines();
        if lines.len() > 0 {
            cursor.set_path(path_to_vec(lines[0].path.as_slice()));
        }
        let initial_snapshot = EditorSnapshot {
            tree: tree.duplicate(),
            cursor_path: path_to_vec(cursor.path()),
        };
        let undo_tree = UndoTree::new(initial_snapshot, 50);
        let r = EditorState {
            tree,
            mode: EditorMode::Normal,
            cursor,
            dirty: false,
            filename: None,
            tree_view,
            message: None,
            command_buffer: String::new(),
            show_help: false,
            help_scroll: 0,
            pending_theme: None,
            current_theme: initial_theme_name,
            show_theme_picker: false,
            theme_picker_state: None,
            registers: RegisterSet::new(),
            pending_register: None,
            append_mode: false,
            search_buffer: String::new(),
            search_results: Vec::new(),
            search_index: 0,
            search_forward: true,
            search_type: None,
            show_line_numbers: true,
            relative_line_numbers: false,
            enable_mouse: true,
            create_backup: false,
            edit_buffer: None,
            edit_cursor: 0,
            cursor_visible: true,
            cursor_blink_ticks: 0,
            pending_command: None,
            pending_count: None,
            scroll_offset: 0,
            viewport_height: 20,
            undo_tree,
            add_mode_stage: AddModeStage::Inactive,
            add_key_buffer: String::new(),
            add_key_cursor: 0,
            add_insertion_point: None,
            temp_container: None,
            is_renaming_key: false,
            rename_original_key: None,
            completion_candidates: Vec::new(),
            completion_index: 0,
            completion_prefix: String::new(),
            jumplist: JumpList::new(100),
            marks: MarkSet::new(),
            pending_mark_set: false,
            pending_mark_jump: false,
            visual_anchor: None,
            visual_selection: Vec::new(),
            last_command: None,
            pending_clipboard: None,
        };
        proof {
            assert(r.command_text() =~= Seq::<char>::empty());
            assert(r.key_text() =~= Seq::<char>::empty());
            assert(r.search_text() =~= Seq::<char>::empty());
            assert(r.completion_list() =~= Seq::<Seq<char>>::empty());
            assert(r.results() =~= Seq::<Seq<usize>>::empty());
            assert(r.selection() =~= Seq::<Seq<usize>>::empty());
        }
        r
    }

    /// An editor on `tree` with the default theme.
    pub fn new_with_default_theme(tree: YamlTree) -> (r: Self)
        requires
            tree.wf(),
        ensures
            r.wf(),
            r.doc() == tree@,
            r.view_current(),
            r.expanded() == (if tree@.root.value is MultiDoc {
                Set::<Seq<usize>>::empty()
            } else {
                containers_below(tree@.root, Seq::empty())
            }),
            r.cursor_at() == (if r.shown().len() > 0 { r.shown()[0].path } else { Seq::empty() }),
            r.starts_idle(),
            r.theme_name() == "default-dark"@,
    {
        EditorState::new(tree, str_to_string("default-dark"))
    }

    /// The document.
    pub fn tree(&self) -> (r: &YamlTree)
        ensures
            r@ == self.doc(),
    {
        &self.tree
    }

    /// The current mode.
    pub fn mode(&self) -> (r: &EditorMode)
        ensures
            *r == self.mode_value(),
    {
        &self.mode
    }

    /// Switches mode.
    pub fn set_mode(&mut self, mode: EditorMode)
        requires
            old(self).wf(),
        ensures
            final(self).wf(),
            final(self).mode_value() == mode,
            final(self).doc() == old(self).doc(),
            final(self).shown() == old(self).shown(),
            final(self).expanded() == old(self).expanded(),
            final(self).cursor_at() == old(self).cursor_at(),
            final(self).same_extras(old(self)),
            final(self).mark_waits() == old(self).mark_waits(),
            final(self).search_text() == old(self).search_text(),
            final(self).results() == old(self).results(),
            final(self).result_at() == old(self).result_at(),
            final(self).command_text() == old(self).command_text(),
            final(self).msg() == old(self).msg(),
            final(self).same_document(old(self)),
            final(self).pending_cmd() == old(self).pending_cmd(),
            final(self).pending_reg() == old(self).pending_reg(),
            final(self).count_typed() == old(self).count_typed(),
            final(self).renaming() == old(self).renaming(),
            final(self).edit_text() == old(self).edit_text(),
            final(self).edit_pos() == old(self).edit_pos(),
            final(self).add_stage() == old(self).add_stage(),
            final(self).key_text() == old(self).key_text(),
            final(self).key_pos() == old(self).key_pos(),
            final(self).appending() == old(self).appending(),
    {
        self.mode = mode;
    }

    /// The cursor.
    pub fn cursor(&self) -> (r: &Cursor)
        ensures
            r@ == self.cursor_at(),
    {
        &self.cursor
    }

    /// Whether there are unsaved changes.
    pub fn is_dirty(&self) -> (r: bool)
        ensures
            r == self.dirty_flag(),
    {
        self.dirty
    }

    /// Records that there are unsaved changes.
    pub fn mark_dirty(&mut self)
        requires
            old(self).wf(),
        ensures
            final(self).wf(),
            final(self).dirty_flag(),
            final(self).doc() == old(self).doc(),
            final(self).shown() == old(self).shown(),
            final(self).expanded() == old(self).expanded(),
            final(self).cursor_at() == old(self).cursor_at(),
            final(self).regs() == old(self).regs(),
            final(self).scroll() == old(self).scroll(),
            final(self).viewport() == old(self).viewport(),
            final(self).same_extras(old(self)),
            final(self).same_input(old(self)),
            final(self).mark_waits() == old(self).mark_waits(),
            final(self).pending_cmd() == old(self).pending_cmd(),
            final(self).count_typed() == old(self).count_typed(),
            final(self).appending() == old(self).appending(),
            final(self).selection() == old(self).selection(),
    {
        self.dirty = true;
    }

    /// Records that everything is saved.
    pub fn clear_dirty(&mut self)
        requires
            old(self).wf(),
        ensures
            final(self).wf(),
            !final(self).dirty_flag(),
            final(self).doc() == old(self).doc(),
            final(self).shown() == old(self).shown(),
            final(self).cursor_at() == old(self).cursor_at(),
    {
        self.dirty = false;
    }

    /// The name of the file being edited, if any.
    pub closed spec fn file_name(&self) -> Option<Seq<char>> {
        match self.filename {
            Some(f) => Some(f@),
            None => None,
        }
    }

    /// The content offered to the system clipboard and not taken yet.
    pub closed spec fn clipboard(&self) -> Option<ContentModel> {
        match self.pending_clipboard {
            Some(c) => Some(c@),
            None => None,
        }
    }

    /// The file being edited, if any.
    pub fn filename(&self) -> (r: Option<&str>)
        ensures
            match self.file_name() {
                Some(f) => r matches Some(x) && x@ == f,
                None => r is None,
            },
    {
        match &self.filename {
            Some(f) => Some(f.as_str()),
            None => None,
        }
    }

    /// Sets the file being edited.
    pub fn set_filename(&mut self, filename: String)
        requires
            old(self).wf(),
        ensures
            final(self).wf(),
            final(self).doc() == old(self).doc(),
            final(self).shown() == old(self).shown(),
            final(self).cursor_at() == old(self).cursor_at(),
            final(self).file_name() == Some(filename@),
    {
        self.filename = Some(filename);
    }

    /// The tree view.
    pub fn tree_view(&self) -> (r: &TreeViewState)
        ensures
            r@.lines == self.shown(),
            r@.expanded == self.expanded(),
    {
        &self.tree_view
    }

    /// Rebuilds the visible lines from the document.
    pub fn rebuild_tree_view(&mut self)
        requires
            old(self).wf(),
        ensures
            final(self).wf(),
            final(self).view_current(),
            final(self).doc() == old(self).doc(),
            final(self).expanded() == old(self).expanded(),
            final(self).cursor_at() == old(self).cursor_at(),
            final(self).dirty_flag() == old(self).dirty_flag(),
    {
        self.tree_view.rebuild(&self.tree);
    }

    /// The first visible line.
    pub fn scroll_offset(&self) -> (r: usize)
        ensures
            r == self.scroll(),
    {
        self.scroll_offset
    }

    /// Moves the cursor to the next line (to the first line when it is on
    /// none).
    pub fn move_cursor_down(&mut self)
        requires
            old(self).wf(),
        ensures
            final(self).wf(),
            final(self).doc() == old(self).doc(),
            final(self).shown() == old(self).shown(),
            final(self).expanded() == old(self).expanded(),
            final(self).scroll() == old(self).scroll(),
            final(self).cursor_at() == ({
                let l = old(self).shown();
                if l.len() == 0 {
                    old(self).cursor_at()
                } else {
                    match line_index(l, old(self).cursor_at()) {
                        Some(i) => if i + 1 < l.len() { l[i + 1].path } else { old(self).cursor_at() },
                        None => l[0].path,
                    }
                }
            }),
    {
        let lines = self.tree_view.lines();
        if lines.len() == 0 {
            return;
        }
        match find_line(lines, self.cursor.path()) {
            Some(i) => {
                if i + 1 < lines.len() {
                    let p = path_to_vec(lines[i + 1].path.as_slice());
                    self.cursor.set_path(p);
                }
            },
            None => {
                let p = path_to_vec(lines[0].path.as_slice());
                self.cursor.set_path(p);
            },
        }
    }

    /// Moves the cursor to the previous line (to the first line when it is
    /// on none).
    pub fn move_cursor_up(&mut self)
        requires
            old(self).wf(),
        ensures
            final(self).wf(),
            final(self).doc() == old(self).doc(),
            final(self).shown() == old(self).shown(),
            final(self).expanded() == old(self).expanded(),
            final(self).scroll() == old(self).scroll(),
            final(self).cursor_at() == ({
                let l = old(self).shown();
                if l.len() == 0 {
                    old(self).cursor_at()
                } else {
                    match line_index(l, old(self).cursor_at()) {
                        Some(i) => if i > 0 { l[i - 1].path } else { old(self).cursor_at() },
                        None => l[0].path,
                    }
                }
            }),
    {
        let lines = self.tree_view.lines();
        if lines.len() == 0 {
            return;
        }
        match find_line(lines, self.cursor.path()) {
            Some(i) => {
                if i > 0 {
                    let p = path_to_vec(lines[i - 1].path.as_slice());
                    self.cursor.set_path(p);
                }
            },
            None => {
                let p = path_to_vec(lines[0].path.as_slice());
                self.cursor.set_path(p);
            },
        }
    }

    /// Moves the cursor to the first line and scrolls to the top.
    pub fn jump_to_top(&mut self)
        requires
            old(self).wf(),
        ensures
            final(self).wf(),
            final(self).doc() == old(self).doc(),
            final(self).shown() == old(self).shown(),
            final(self).expanded() == old(self).expanded(),
            old(self).shown().len() > 0 ==> final(self).cursor_at() == old(self).shown()[0].path
                && final(self).scroll() == 0,
            old(self).shown().len() == 0 ==> final(self).cursor_at() == old(self).cursor_at()
                && final(self).scroll() == old(self).scroll(),
    {
        let lines = self.tree_view.lines();
        if lines.len() > 0 {
            let p = path_to_vec(lines[0].path.as_slice());
            self.cursor.set_path(p);
            self.scroll_offset = 0;
        }
    }

    /// Moves the cursor to the last line.
    pub fn jump_to_bottom(&mut self)
        requires
            old(self).wf(),
        ensures
            final(self).wf(),
            final(self).doc() == old(self).doc(),
            final(self).shown() == old(self).shown(),
            final(self).expanded() == old(self).expanded(),
            final(self).scroll() == old(self).scroll(),
            old(self).shown().len() > 0 ==> final(self).cursor_at() == old(self).shown().last().path,
            old(self).shown().len() == 0 ==> final(self).cursor_at() == old(self).cursor_at(),
    {
        let lines = self.tree_view.lines();
        if lines.len() > 0 {
            let p = path_to_vec(lines[lines.len() - 1].path.as_slice());
            self.cursor.set_path(p);
        }
    }

    /// Moves the cursor to line `line_num` (counted from 1); nothing
    /// happens when there is no such line.
    pub fn jump_to_line(&mut self, line_num: usize)
        requires
            old(self).wf(),
        ensures
            final(self).wf(),
            final(self).doc() == old(self).doc(),
            final(self).shown() == old(self).shown(),
            final(self).expanded() == old(self).expanded(),
            final(self).scroll() == old(self).scroll(),
            final(self).cursor_at() == if 1 <= line_num <= old(self).shown().len() {
                old(self).shown()[line_num - 1].path
            } else {
                old(self).cursor_at()
            },
    {
        let lines = self.tree_view.lines();
        if line_num == 0 || line_num > lines.len() {
            return;
        }
        let p = path_to_vec(lines[line_num - 1].path.as_slice());
        self.cursor.set_path(p);
    }

    /// Scrolls so that the cursor line is on screen (`viewport_height`
    /// lines tall), and remembers that height.
    pub fn adjust_scroll_to_cursor(&mut self, viewport_height: usize)
        requires
            old(self).wf(),
        ensures
            final(self).wf(),
            final(self).doc() == old(self).doc(),
            final(self).shown() == old(self).shown(),
            final(self).expanded() == old(self).expanded(),
            final(self).cursor_at() == old(self).cursor_at(),
            viewport_height == 0 ==> final(self).scroll() == old(self).scroll()
                && final(self).viewport() == old(self).viewport(),
            viewport_height > 0 ==> final(self).viewport() == viewport_height && final(self).scroll() == ({
                let l = old(self).shown();
                let c = cursor_line(l, old(self).cursor_at());
                let s = old(self).scroll() as int;
                if l.len() == 0 {
                    0
                } else if c < s {
                    c
                } else if c >= s + viewport_height {
                    c - viewport_height + 1
                } else {
                    s
                }
            }),
    {
        if viewport_height == 0 {
            return;
        }
        self.viewport_height = viewport_height;
        let lines = self.tree_view.lines();
        if lines.len() == 0 {
            self.scroll_offset = 0;
            return;
        }
        let cursor_idx = match find_line(lines, self.cursor.path()) {
            Some(i) => i,
            None => 0,
        };
        if cursor_idx < self.scroll_offset {
            self.scroll_offset = cursor_idx;
        } else if cursor_idx - self.scroll_offset >= viewport_height {
            self.scroll_offset = cursor_idx - viewport_height + 1;
        }
    }

    /// Moves half a screen down: the view scrolls (no further than the
    /// last screenful) and the cursor moves as many lines (no further than
    /// the last line).
    pub fn page_down(&mut self)
        requires
            old(self).wf(),
        ensures
            final(self).wf(),
            final(self).doc() == old(self).doc(),
            final(self).shown() == old(self).shown(),
            final(self).expanded() == old(self).expanded(),
            page_down_effect(old(self).shown(), old(self).cursor_at(), old(self).scroll(), old(self).viewport(),
                old(self).viewport() / 2, final(self).cursor_at(), final(self).scroll()),
    {
        let amount = self.viewport_height / 2;
        self.scroll_down_by(amount);
    }

    /// Moves a full screen down (see `page_down`).
    pub fn full_page_down(&mut self)
        requires
            old(self).wf(),
        ensures
            final(self).wf(),
            final(self).doc() == old(self).doc(),
            final(self).shown() == old(self).shown(),
            final(self).expanded() == old(self).expanded(),
            page_down_effect(old(self).shown(), old(self).cursor_at(), old(self).scroll(), old(self).viewport(),
                old(self).viewport(), final(self).cursor_at(), final(self).scroll()),
    {
        let amount = self.viewport_height;
        self.scroll_down_by(amount);
    }

    fn scroll_down_by(&mut self, amount: usize)
        requires
            old(self).wf(),
        ensures
            final(self).wf(),
            final(self).doc() == old(self).doc(),
            final(self).shown() == old(self).shown(),
            final(self).expanded() == old(self).expanded(),
            final(self).viewport() == old(self).viewport(),
            page_down_effect(old(self).shown(), old(self).cursor_at(), old(self).scroll(), old(self).viewport(),
                amount as nat, final(self).cursor_at(), final(self).scroll()),
    {
        if self.viewport_height == 0 {
            return;
        }
        let lines = self.tree_view.lines();
        if lines.len() == 0 {
            return;
        }
        let current_idx = match find_line(lines, self.cursor.path()) {
            Some(i) => i,
            None => 0,
        };
        let max_scroll = lines.len().saturating_sub(self.viewport_height);
        let new_scroll = match self.scroll_offset.checked_add(amount) {
            Some(s) => if s < max_scroll { s } else { max_scroll },
            None => max_scroll,
        };
        self.scroll_offset = new_scroll;
        let new_idx = if current_idx < lines.len() - 1 - amount.min(lines.len() - 1) {
            current_idx + amount
        } else {
            lines.len() - 1
        };
        let p = path_to_vec(lines[new_idx].path.as_slice());
        self.cursor.set_path(p);
    }

    /// Moves half a screen up: the view scrolls (not past the top) and the
    /// cursor moves as many lines (not past the first).
    pub fn page_up(&mut self)
        requires
            old(self).wf(),
        ensures
            final(self).wf(),
            final(self).doc() == old(self).doc(),
            final(self).shown() == old(self).shown(),
            final(self).expanded() == old(self).expanded(),
            page_up_effect(old(self).shown(), old(self).cursor_at(), old(self).scroll(), old(self).viewport(),
                old(self).viewport() / 2, final(self).cursor_at(), final(self).scroll()),
    {
        let amount = self.viewport_height / 2;
        self.scroll_up_by(amount);
    }

    /// Moves a full screen up (see `page_up`).
    pub fn full_page_up(&mut self)
        requires
            old(self).wf(),
        ensures
            final(self).wf(),
            final(self).doc() == old(self).doc(),
            final(self).shown() == old(self).shown(),
            final(self).expanded() == old(self).expanded(),
            page_up_effect(old(self).shown(), old(self).cursor_at(), old(self).scroll(), old(self).viewport(),
                old(self).viewport(), final(self).cursor_at(), final(self).scroll()),
    {
        let amount = self.viewport_height;
        self.scroll_up_by(amount);
    }

    fn scroll_up_by(&mut self, amount: usize)
        requires
            old(self).wf(),
        ensures
            final(self).wf(),
            final(self).doc() == old(self).doc(),
            final(self).shown() == old(self).shown(),
            final(self).expanded() == old(self).expanded(),
            final(self).viewport() == old(self).viewport(),
            page_up_effect(old(self).shown(), old(self).cursor_at(), old(self).scroll(), old(self).viewport(),
                amount as nat, final(self).cursor_at(), final(self).scroll()),
    {
        if self.viewport_height == 0 {
            return;
        }
        let lines = self.tree_view.lines();
        if lines.len() == 0 {
            return;
        }
        let current_idx = match find_line(lines, self.cursor.path()) {
            Some(i) => i,
            None => 0,
        };
        self.scroll_offset = self.scroll_offset.saturating_sub(amount);
        let new_idx = current_idx.saturating_sub(amount);
        let p = path_to_vec(lines[new_idx].path.as_slice());
        self.cursor.set_path(p);
    }
}

/// Why an editing command did nothing.
#[derive(Debug, Clone, PartialEq, Eq)]
pub enum EditError {
    /// The cursor is on no node
    NoNodeAtCursor,
    /// The document refused the change
    Tree(TreeError),
    /// The register to paste from is empty
    NothingToPaste,
    /// The named register to paste from was never filled
    NothingInRegister(char),
    /// A paste at the root needs the root to be a container
    RootNotContainer,
    /// The parent of the cursor node does not exist
    ParentNotFound,
    /// The parent of the cursor node is a scalar
    ParentNotContainer,
    /// A path index would pass `usize::MAX`
    IndexLimit,
    /// No value is being typed
    NoEditBuffer,
    /// The typed text is no number
    InvalidNumber(String),
    /// The typed text is neither `true` nor `false`
    InvalidBoolean(String),
    /// An alias must be written `*name`
    AliasFormat,
    /// Mappings and sequences are not edited as text
    CannotEditContainer,
    /// No add operation is waiting for its value
    NotAwaitingValue,
    /// The add operation has no place to insert at
    NoInsertionPoint,
    /// A key cannot be empty
    EmptyKey,
    /// No empty container waits for its key
    NoContainer,
    /// The mapping already has the key
    KeyExists(String),
    /// A rename needs the key it started from
    NoOriginalKey,
    /// The node under the cursor is not in a mapping
    ParentNotObject,
    /// The cursor index is past the end of the mapping
    InvalidIndex,
    /// The root has no key
    CannotRenameRoot,
    /// The cursor node shows on no line
    CursorNotShown,
    /// The mark's node shows on no line
    MarkNotShown,
    /// A range holds no node
    NothingInRange,
    /// None of the range's paths leads to a node
    NoNodesCollected,
}

impl EditError {
    /// The message describing the error.
    pub open spec fn message_text(&self) -> Seq<char> {
        match self {
            EditError::NoNodeAtCursor => "No node at cursor"@,
            EditError::Tree(e) => e.message_text(),
            EditError::NothingToPaste => "Nothing to paste"@,
            EditError::NothingInRegister(c) => "Nothing in register '"@ + seq![*c, '\''],
            EditError::RootNotContainer => "Cannot paste - root is not a container"@,
            EditError::ParentNotFound => "Parent node not found"@,
            EditError::ParentNotContainer => "Parent is not a container type"@,
            EditError::IndexLimit => "Path index out of range"@,
            EditError::NoEditBuffer => "No active edit buffer"@,
            EditError::InvalidNumber(b) => "Invalid number format: '"@ + b@ + seq!['\''],
            EditError::InvalidBoolean(b) => "Invalid boolean: '"@ + b@ + "' (must be 'true' or 'false')"@,
            EditError::AliasFormat => "Alias must be in format '*name'"@,
            EditError::CannotEditContainer => "Cannot edit container types"@,
            EditError::NotAwaitingValue => "Not in AwaitingValue stage"@,
            EditError::NoInsertionPoint => "No insertion point set"@,
            EditError::EmptyKey => "Key cannot be empty"@,
            EditError::NoContainer => "No container to add"@,
            EditError::KeyExists(k) => "Key '"@ + k@ + "' already exists"@,
            EditError::NoOriginalKey => "No original key stored"@,
            EditError::ParentNotObject => "Parent is not an object"@,
            EditError::InvalidIndex => "Invalid object index"@,
            EditError::CannotRenameRoot => "Cannot rename root"@,
            EditError::CursorNotShown => "Cursor position not found in visible lines"@,
            EditError::MarkNotShown => "Mark position not found in visible lines"@,
            EditError::NothingInRange => "No nodes in range to yank"@,
            EditError::NoNodesCollected => "Failed to collect nodes from range"@,
        }
    }

    /// The message describing the error (see `message_text`).
    pub fn message(&self) -> (r: String)
        ensures
            r@ == self.message_text(),
    {
        match self {
            EditError::NoNodeAtCursor => str_to_string("No node at cursor"),
            EditError::Tree(e) => e.message(),
            EditError::NothingToPaste => str_to_string("Nothing to paste"),
            EditError::NothingInRegister(c) => {
                let mut m = str_to_string("Nothing in register '");
                crate::text::push_char(&mut m, *c);
                crate::text::push_char(&mut m, '\'');
                assert(m@ =~= "Nothing in register '"@ + seq![*c, '\'']);
                m
            },
            EditError::RootNotContainer => str_to_string("Cannot paste - root is not a container"),
            EditError::ParentNotFound => str_to_string("Parent node not found"),
            EditError::ParentNotContainer => str_to_string("Parent is not a container type"),
            EditError::IndexLimit => str_to_string("Path index out of range"),
            EditError::NoEditBuffer => str_to_string("No active edit buffer"),
            EditError::InvalidNumber(b) => {
                let mut m = str_to_string("Invalid number format: '");
                crate::text::push_str(&mut m, b.as_str());
                crate::text::push_char(&mut m, '\'');
                assert(m@ =~= "Invalid number format: '"@ + b@ + seq!['\'']);
                m
            },
            EditError::InvalidBoolean(b) => {
                let mut m = str_to_string("Invalid boolean: '");
                crate::text::push_str(&mut m, b.as_str());
                crate::text::push_str(&mut m, "' (must be 'true' or 'false')");
                m
            },
            EditError::AliasFormat => str_to_string("Alias must be in format '*name'"),
            EditError::CannotEditContainer => str_to_string("Cannot edit container types"),
            EditError::NotAwaitingValue => str_to_string("Not in AwaitingValue stage"),
            EditError::NoInsertionPoint => str_to_string("No insertion point set"),
            EditError::EmptyKey => str_to_string("Key cannot be empty"),
            EditError::NoContainer => str_to_string("No container to add"),
            EditError::KeyExists(k) => {
                let mut m = str_to_string("Key '");
                crate::text::push_str(&mut m, k.as_str());
                crate::text::push_str(&mut m, "' already exists");
                m
            },
            EditError::NoOriginalKey => str_to_string("No original key stored"),
            EditError::ParentNotObject => str_to_string("Parent is not an object"),
            EditError::InvalidIndex => str_to_string("Invalid object index"),
            EditError::CannotRenameRoot => str_to_string("Cannot rename root"),
            EditError::CursorNotShown => str_to_string("Cursor position not found in visible lines"),
            EditError::MarkNotShown => str_to_string("Mark position not found in visible lines"),
            EditError::NothingInRange => str_to_string("No nodes in range to yank"),
            EditError::NoNodesCollected => str_to_string("Failed to collect nodes from range"),
        }
    }
}

/// The first line after `i` at depth `d` or shallower.
pub open spec fn next_shallower(l: Seq<LineModel>, i: int, d: nat) -> Option<int> {
    if exists|j: int| i < j < l.len() && #[trigger] l[j].depth <= d {
        Some(choose|j: int| i < j < l.len() && #[trigger] l[j].depth <= d && forall|k: int| i < k < j ==> l[k].depth > d)
    } else {
        None
    }
}

/// The last line before `i` at depth `d` or shallower.
pub open spec fn previous_shallower(l: Seq<LineModel>, i: int, d: nat) -> Option<int> {
    if exists|j: int| 0 <= j < i && #[trigger] l[j].depth <= d {
        Some(choose|j: int| 0 <= j < i && #[trigger] l[j].depth <= d && forall|k: int| j < k < i ==> l[k].depth > d)
    } else {
        None
    }
}

/// The key under which the node at `path` sits in its parent mapping.
pub open spec fn key_of(root: NodeModel, path: Seq<usize>) -> Option<Seq<char>> {
    if path.len() == 0 {
        None
    } else {
        match node_at(root, path.drop_last()) {
            Some(p) => match p.value {
                ValueModel::Object(e) => if path.last() < e.len() { Some(e[path.last() as int].0) } else { None },
                _ => None,
            },
            None => None,
        }
    }
}

impl EditorState {
    /// The registers.
    pub closed spec fn regs(&self) -> RegisterSetModel {
        self.registers@
    }

    /// The document that undo would go back to.
    pub closed spec fn undo_target(&self) -> Option<TreeModel> {
        let n = self.undo_tree.node_seq();
        let c = self.undo_tree.current_index() as int;
        match n[c].parent {
            Some(p) => Some(n[p as int].snapshot.tree@),
            None => None,
        }
    }

    /// The document that redo would go forward to.
    pub closed spec fn redo_target(&self) -> Option<TreeModel> {
        let n = self.undo_tree.node_seq();
        let ch = n[self.undo_tree.current_index() as int].children@;
        if ch.len() == 0 {
            None
        } else {
            Some(n[ch.last() as int].snapshot.tree@)
        }
    }

    /// Number of undo checkpoints.
    pub closed spec fn history_len(&self) -> nat {
        self.undo_tree.node_seq().len()
    }

    /// The document held by the current undo checkpoint.
    pub closed spec fn history_doc(&self) -> TreeModel {
        self.undo_tree.node_seq()[self.undo_tree.current_index() as int].snapshot.tree@
    }

    /// Redo from the checkpoint before the current one comes back to the
    /// current one: it is the newest checkpoint after its parent.
    pub closed spec fn redo_returns(&self) -> bool {
        let n = self.undo_tree.node_seq();
        let c = self.undo_tree.current_index();
        match n[c as int].parent {
            Some(p) => n[p as int].children@.len() > 0 && n[p as int].children@.last() == c,
            None => true,
        }
    }

    /// The undo history is at the document: the current history entry
    /// holds the document being edited.
    pub closed spec fn history_current(&self) -> bool {
        self.undo_tree.node_seq()[self.undo_tree.current_index() as int].snapshot.tree@ == self.tree@
    }

    /// Records the document and cursor as a new undo checkpoint (when the
    /// history can still count it).
    fn checkpoint(&mut self)
        requires
            old(self).wf(),
        ensures
            final(self).wf(),
            final(self).doc() == old(self).doc(),
            final(self).shown() == old(self).shown(),
            final(self).expanded() == old(self).expanded(),
            final(self).cursor_at() == old(self).cursor_at(),
            final(self).dirty_flag() == old(self).dirty_flag(),
            final(self).regs() == old(self).regs(),
            old(self).history_len() + 2 < u64::MAX ==> final(self).history_current()
                && final(self).undo_target() == Some(
                old(self).history_doc(),
            ) && final(self).redo_returns(),
    {
        if self.undo_tree.len() as u64 >= 18446744073709551613u64 {
            return;
        }
        let snapshot = EditorSnapshot { tree: self.tree.duplicate(), cursor_path: path_to_vec(self.cursor.path()) };
        let cur = self.undo_tree.current();
        let ghost c = cur as int;
        let ghost n0 = self.undo_tree.node_seq();
        self.undo_tree.add_checkpoint(snapshot);
        proof {
            let n1 = self.undo_tree.node_seq();
            let c1 = self.undo_tree.current_index() as int;
            assert(self.undo_tree.kept() >= 2);
            assert(c1 == n1.len() - 1);
            assert(n1[c1] == n1.last());
            assert(self.history_current());
            let p = n1.last().parent->0;
            assert(n1[p as int].snapshot.tree@ == n0[c].snapshot.tree@);
            assert(self.undo_target() == Some(n0[c].snapshot.tree@));
            assert(self.redo_returns());
        }
    }

    /// Goes back to the previous undo checkpoint: the document and cursor
    /// become those it recorded. False when there is none.
    pub fn undo(&mut self) -> (r: bool)
        requires
            old(self).wf(),
        ensures
            final(self).wf(),
            undo_outcome(*old(self), *final(self), r),
    {
        match self.undo_tree.undo() {
            Some(snapshot) => {
                self.tree = snapshot.tree;
                self.cursor.set_path(snapshot.cursor_path);
                self.tree_view.rebuild(&self.tree);
                true
            },
            None => false,
        }
    }

    /// Goes forward to the newest later checkpoint. False when there is
    /// none.
    pub fn redo(&mut self) -> (r: bool)
        requires
            old(self).wf(),
        ensures
            final(self).wf(),
            redo_outcome(*old(self), *final(self), r),
    {
        match self.undo_tree.redo() {
            Some(snapshot) => {
                self.tree = snapshot.tree;
                self.cursor.set_path(snapshot.cursor_path);
                self.tree_view.rebuild(&self.tree);
                true
            },
            None => false,
        }
    }

    /// Expands or collapses the node at the cursor. A collapsed document of
    /// a multi-document root opens with everything inside it expanded.
    pub fn toggle_expand_at_cursor(&mut self)
        requires
            old(self).wf(),
        ensures
            final(self).wf(),
            final(self).doc() == old(self).doc(),
            final(self).cursor_at() == old(self).cursor_at(),
            final(self).view_current(),
            final(self).expanded() == ({
                let p = old(self).cursor_at();
                let e = old(self).expanded();
                if p.len() == 1 && old(self).doc().root.value is MultiDoc && !e.contains(p) {
                    e.union(node_and_descendants(old(self).doc().root, p))
                } else if e.contains(p) {
                    e.remove(p)
                } else {
                    e.insert(p)
                }
            }),
    {
        let current_path = path_to_vec(self.cursor.path());
        let is_multidoc = match self.tree.root().value() {
            YamlValue::MultiDoc(_) => true,
            _ => false,
        };
        let was_expanded = self.tree_view.is_expanded(current_path.as_slice());
        if current_path.len() == 1 && is_multidoc && !was_expanded {
            self.tree_view.expand_node_and_descendants(&self.tree, current_path.as_slice());
        } else {
            self.tree_view.toggle_expand(current_path.as_slice());
        }
        self.tree_view.rebuild(&self.tree);
    }

    /// Expands the node at the cursor and everything below it.
    pub fn expand_all_at_cursor(&mut self)
        requires
            old(self).wf(),
        ensures
            final(self).wf(),
            final(self).doc() == old(self).doc(),
            final(self).cursor_at() == old(self).cursor_at(),
            final(self).view_current(),
            final(self).expanded() == old(self).expanded().union(
                node_and_descendants(old(self).doc().root, old(self).cursor_at()),
            ),
    {
        let current_path = path_to_vec(self.cursor.path());
        self.tree_view.expand_node_and_descendants(&self.tree, current_path.as_slice());
        self.tree_view.rebuild(&self.tree);
    }

    /// Collapses the node at the cursor and everything below it.
    pub fn collapse_all_at_cursor(&mut self)
        requires
            old(self).wf(),
        ensures
            final(self).wf(),
            final(self).doc() == old(self).doc(),
            final(self).cursor_at() == old(self).cursor_at(),
            final(self).view_current(),
            final(self).expanded() == old(self).expanded().difference(
                node_and_descendants(old(self).doc().root, old(self).cursor_at()),
            ),
    {
        let current_path = path_to_vec(self.cursor.path());
        self.tree_view.collapse_node_and_descendants(&self.tree, current_path.as_slice());
        self.tree_view.rebuild(&self.tree);
    }

    /// Moves the cursor to the next sibling, if there is one.
    pub fn move_to_next_sibling(&mut self)
        requires
            old(self).wf(),
        ensures
            final(self).wf(),
            final(self).doc() == old(self).doc(),
            final(self).shown() == old(self).shown(),
            final(self).expanded() == old(self).expanded(),
            final(self).cursor_at() == ({
                let p = old(self).cursor_at();
                if p.len() > 0 && p.last() < usize::MAX && node_at(
                    old(self).doc().root,
                    p.update(p.len() - 1, (p.last() + 1) as usize),
                ) is Some {
                    p.update(p.len() - 1, (p.last() + 1) as usize)
                } else {
                    p
                }
            }),
    {
        let p = self.cursor.path();
        if p.len() == 0 {
            return;
        }
        let k = p.len() - 1;
        if p[k] == usize::MAX {
            return;
        }
        let next = set_last(p, p[k] + 1);
        if self.tree.get_node(next.as_slice()).is_some() {
            self.cursor.set_path(next);
        }
    }

    /// Moves the cursor to the previous sibling, if there is one.
    pub fn move_to_previous_sibling(&mut self)
        requires
            old(self).wf(),
        ensures
            final(self).wf(),
            final(self).doc() == old(self).doc(),
            final(self).shown() == old(self).shown(),
            final(self).expanded() == old(self).expanded(),
            final(self).cursor_at() == ({
                let p = old(self).cursor_at();
                if p.len() > 0 && p.last() > 0 && node_at(
                    old(self).doc().root,
                    p.update(p.len() - 1, (p.last() - 1) as usize),
                ) is Some {
                    p.update(p.len() - 1, (p.last() - 1) as usize)
                } else {
                    p
                }
            }),
    {
        let p = self.cursor.path();
        if p.len() == 0 {
            return;
        }
        let k = p.len() - 1;
        if p[k] == 0 {
            return;
        }
        let prev = set_last(p, p[k] - 1);
        if self.tree.get_node(prev.as_slice()).is_some() {
            self.cursor.set_path(prev);
        }
    }

    /// Moves the cursor to the first sibling.
    pub fn move_to_first_sibling(&mut self)
        requires
            old(self).wf(),
        ensures
            final(self).wf(),
            final(self).doc() == old(self).doc(),
            final(self).shown() == old(self).shown(),
            final(self).expanded() == old(self).expanded(),
            final(self).cursor_at() == ({
                let p = old(self).cursor_at();
                if p.len() > 0 && node_at(old(self).doc().root, p.update(p.len() - 1, 0usize)) is Some {
                    p.update(p.len() - 1, 0usize)
                } else {
                    p
                }
            }),
    {
        let p = self.cursor.path();
        if p.len() == 0 {
            return;
        }
        let first = set_last(p, 0);
        if self.tree.get_node(first.as_slice()).is_some() {
            self.cursor.set_path(first);
        }
    }

    /// Moves the cursor to the last sibling.
    pub fn move_to_last_sibling(&mut self)
        requires
            old(self).wf(),
        ensures
            final(self).wf(),
            final(self).doc() == old(self).doc(),
            final(self).shown() == old(self).shown(),
            final(self).expanded() == old(self).expanded(),
            final(self).cursor_at() == ({
                let p = old(self).cursor_at();
                if p.len() > 0 && (node_at(old(self).doc().root, p.drop_last()) matches Some(parent)
                    && parent.value.child_count() > 0) {
                    p.update(p.len() - 1, (node_at(old(self).doc().root, p.drop_last())->0.value.child_count() - 1) as usize)
                } else {
                    p
                }
            }),
    {
        let p = self.cursor.path();
        if p.len() == 0 {
            return;
        }
        let k = p.len() - 1;
        let parent_path = path_prefix(p, k);
        assert(parent_path@ =~= p@.drop_last());
        let count = match self.tree.get_node(parent_path.as_slice()) {
            Some(parent) => parent.value().child_count(),
            None => return,
        };
        if count == 0 {
            return;
        }
        let last = set_last(p, count - 1);
        self.cursor.set_path(last);
    }

    /// Moves the cursor to its parent (nothing at the root).
    pub fn move_to_parent(&mut self)
        requires
            old(self).wf(),
        ensures
            final(self).wf(),
            final(self).doc() == old(self).doc(),
            final(self).shown() == old(self).shown(),
            final(self).expanded() == old(self).expanded(),
            final(self).cursor_at() == if old(self).cursor_at().len() > 0 {
                old(self).cursor_at().drop_last()
            } else {
                old(self).cursor_at()
            },
    {
        let p = self.cursor.path();
        if p.len() == 0 {
            return;
        }
        let parent = path_prefix(p, p.len() - 1);
        assert(parent@ =~= p@.drop_last());
        self.cursor.set_path(parent);
    }

    /// Moves the cursor to the next line at the same depth or shallower.
    pub fn move_to_next_at_same_or_shallower_depth(&mut self)
        requires
            old(self).wf(),
        ensures
            final(self).wf(),
            final(self).doc() == old(self).doc(),
            final(self).shown() == old(self).shown(),
            final(self).expanded() == old(self).expanded(),
            final(self).cursor_at() == ({
                let l = old(self).shown();
                match line_index(l, old(self).cursor_at()) {
                    Some(i) => match next_shallower(l, i, l[i].depth) {
                        Some(j) => l[j].path,
                        None => old(self).cursor_at(),
                    },
                    None => old(self).cursor_at(),
                }
            }),
    {
        let lines = self.tree_view.lines();
        match find_line(lines, self.cursor.path()) {
            Some(idx) => match next_shallower_index(lines, idx) {
                Some(j) => {
                    let p = path_to_vec(lines[j].path.as_slice());
                    self.cursor.set_path(p);
                },
                None => {},
            },
            None => {},
        }
    }

    /// Moves the cursor to the previous line at the same depth or
    /// shallower.
    pub fn move_to_previous_at_same_or_shallower_depth(&mut self)
        requires
            old(self).wf(),
        ensures
            final(self).wf(),
            final(self).doc() == old(self).doc(),
            final(self).shown() == old(self).shown(),
            final(self).expanded() == old(self).expanded(),
            final(self).cursor_at() == ({
                let l = old(self).shown();
                match line_index(l, old(self).cursor_at()) {
                    Some(i) => match previous_shallower(l, i, l[i].depth) {
                        Some(j) => l[j].path,
                        None => old(self).cursor_at(),
                    },
                    None => old(self).cursor_at(),
                }
            }),
    {
        let lines = self.tree_view.lines();
        match find_line(lines, self.cursor.path()) {
            Some(idx) => match previous_shallower_index(lines, idx) {
                Some(j) => {
                    let p = path_to_vec(lines[j].path.as_slice());
                    self.cursor.set_path(p);
                },
                None => {},
            },
            None => {},
        }
    }

    /// Scrolls so that the cursor line is in the middle of the screen.
    pub fn center_cursor_on_screen(&mut self)
        requires
            old(self).wf(),
        ensures
            final(self).wf(),
            final(self).doc() == old(self).doc(),
            final(self).shown() == old(self).shown(),
            final(self).cursor_at() == old(self).cursor_at(),
            final(self).scroll() == ({
                let l = old(self).shown();
                let v = old(self).viewport();
                if v == 0 || l.len() == 0 {
                    old(self).scroll() as int
                } else {
                    let c = cursor_line(l, old(self).cursor_at());
                    let s: int = if c >= v / 2 { c - v / 2 } else { 0 };
                    let m: int = if l.len() >= v { l.len() - v } else { 0 };
                    if s < m { s } else { m }
                }
            }),
    {
        if self.viewport_height == 0 {
            return;
        }
        let lines = self.tree_view.lines();
        if lines.len() == 0 {
            return;
        }
        let c = match find_line(lines, self.cursor.path()) {
            Some(i) => i,
            None => 0,
        };
        let s = c.saturating_sub(self.viewport_height / 2);
        let m = lines.len().saturating_sub(self.viewport_height);
        self.scroll_offset = if s < m { s } else { m };
    }

    /// Scrolls so that the cursor line is the top line of the screen.
    pub fn cursor_to_top_of_screen(&mut self)
        requires
            old(self).wf(),
        ensures
            final(self).wf(),
            final(self).doc() == old(self).doc(),
            final(self).shown() == old(self).shown(),
            final(self).cursor_at() == old(self).cursor_at(),
            final(self).scroll() == if old(self).shown().len() == 0 {
                old(self).scroll() as int
            } else {
                cursor_line(old(self).shown(), old(self).cursor_at())
            },
    {
        let lines = self.tree_view.lines();
        if lines.len() == 0 {
            return;
        }
        self.scroll_offset = match find_line(lines, self.cursor.path()) {
            Some(i) => i,
            None => 0,
        };
    }

    /// Scrolls so that the cursor line is the bottom line of the screen.
    pub fn cursor_to_bottom_of_screen(&mut self)
        requires
            old(self).wf(),
        ensures
            final(self).wf(),
            final(self).doc() == old(self).doc(),
            final(self).shown() == old(self).shown(),
            final(self).cursor_at() == old(self).cursor_at(),
            final(self).scroll() == ({
                let l = old(self).shown();
                let v = old(self).viewport();
                if v == 0 || l.len() == 0 {
                    old(self).scroll() as int
                } else {
                    let c = cursor_line(l, old(self).cursor_at());
                    if c >= v - 1 { c - (v - 1) } else { 0 }
                }
            }),
    {
        if self.viewport_height == 0 {
            return;
        }
        let lines = self.tree_view.lines();
        if lines.len() == 0 {
            return;
        }
        let c = match find_line(lines, self.cursor.path()) {
            Some(i) => i,
            None => 0,
        };
        self.scroll_offset = c.saturating_sub(self.viewport_height - 1);
    }

    /// Number of visible lines.
    pub fn total_lines(&self) -> (r: usize)
        ensures
            r == self.shown().len(),
    {
        self.tree_view.lines().len()
    }

    /// The cursor's line (counted from 1) and column 1; `(0, 0)` when the
    /// cursor is on no line.
    pub fn cursor_position(&self) -> (r: (usize, usize))
        ensures
            match line_index(self.shown(), self.cursor_at()) {
                Some(i) => r.0 == i + 1 && r.1 == 1,
                None => r.0 == 0 && r.1 == 0,
            },
    {
        let lines = self.tree_view.lines();
        let n = lines.len();
        match find_line(lines, self.cursor.path()) {
            Some(i) => {
                assert(i < n);
                (i + 1, 1)
            },
            None => (0, 0),
        }
    }

}

/// What deleting the node at the cursor of `s0` leaves (see
/// `EditorState::delete_node_at_cursor`): with no node there, an error and
/// nothing changed; else the node and its key go into the delete history;
/// the root is not deleted; otherwise the node is removed as
/// `edit_at_model` removes it, the document is marked changed, the
/// expanded paths move and, while the history can still count it, a
/// checkpoint of the new document is recorded after the one the history
/// was at.
pub open spec fn delete_outcome(s0: EditorState, s1: EditorState, r: Result<(), EditError>) -> bool {
    match node_at(s0.doc().root, s0.cursor_at()) {
        None => r == Err::<(), EditError>(EditError::NoNodeAtCursor) && s1.doc() == s0.doc() && s1.regs() == s0.regs(),
        Some(node) => {
            let content = ContentModel { nodes: seq![node], keys: seq![key_of(s0.doc().root, s0.cursor_at())] };
            &&& s1.regs().numbered[1] == content
            &&& s0.cursor_at().len() == 0 ==> r == Err::<(), EditError>(EditError::Tree(TreeError::CannotDeleteRoot))
                && s1.doc() == s0.doc()
            &&& s0.cursor_at().len() > 0 ==> ({
                let (root2, res) = edit_at_model(
                    s0.doc().root,
                    s0.cursor_at().drop_last(),
                    EditModel::Remove(s0.cursor_at().last()),
                );
                &&& res is Err ==> r == Err::<(), EditError>(EditError::Tree(res->Err_0))
                &&& res is Ok ==> ({
                    &&& r is Ok
                    &&& s1.doc() == (TreeModel { root: root2, ..s0.doc() })
                    &&& s1.dirty_flag()
                    &&& s1.expanded() == expanded_after_delete(s0.expanded(), s0.cursor_at())
                    &&& s1.view_current()
                    &&& s0.history_len() + 2 < u64::MAX ==> s1.history_current() && s1.undo_target() == Some(
                        s0.history_doc(),
                    ) && s1.redo_returns()
                })
            })
        },
    }
}

/// What undo leaves (see `EditorState::undo`): with a checkpoint before
/// the current one, its document, shown afresh, with the history at it;
/// else nothing changed and false. When the history was at the document
/// and it was the newest checkpoint after the one undone to, redo comes
/// back to it.
pub open spec fn undo_outcome(s0: EditorState, s1: EditorState, r: bool) -> bool {
    &&& s1.expanded() == s0.expanded()
    &&& s1.regs() == s0.regs()
    &&& match s0.undo_target() {
        Some(t) => {
            &&& r && s1.doc() == t && s1.view_current() && s1.history_current()
            &&& s0.history_current() && s0.redo_returns() ==> s1.redo_target() == Some(s0.doc())
        },
        None => !r && s1.doc() == s0.doc() && s1.shown() == s0.shown() && s1.cursor_at() == s0.cursor_at(),
    }
}

/// What redo leaves (see `EditorState::redo`): with a later checkpoint,
/// the document of the newest one, shown afresh, with the history at it;
/// else nothing changed and false.
pub open spec fn redo_outcome(s0: EditorState, s1: EditorState, r: bool) -> bool {
    &&& s1.expanded() == s0.expanded()
    &&& s1.regs() == s0.regs()
    &&& match s0.redo_target() {
        Some(t) => r && s1.doc() == t && s1.view_current() && s1.history_current(),
        None => !r && s1.doc() == s0.doc() && s1.shown() == s0.shown() && s1.cursor_at() == s0.cursor_at(),
    }
}

/// Redo right after an undo gives back the document from before the undo,
/// when the history was at that document and it was the newest checkpoint
/// after the one undone to (as it is right after an edit).
pub proof fn law_redo_after_undo(s0: EditorState, s1: EditorState, s2: EditorState, undone: bool, redone: bool)
    requires
        s0.wf(),
        s0.history_current(),
        s0.redo_returns(),
        undo_outcome(s0, s1, undone),
        undone,
        redo_outcome(s1, s2, redone),
    ensures
        redone,
        s2.doc() == s0.doc(),
{
}

/// After a delete that succeeded, undo and then redo give back the
/// document the delete left, when the history was at the document before
/// it and can still count a checkpoint.
pub proof fn law_delete_undo_redo(
    s0: EditorState,
    s1: EditorState,
    s2: EditorState,
    s3: EditorState,
    deleted: Result<(), EditError>,
    undone: bool,
    redone: bool,
)
    requires
        s0.wf(),
        s0.history_current(),
        s0.history_len() + 2 < u64::MAX,
        delete_outcome(s0, s1, deleted),
        deleted is Ok,
        undo_outcome(s1, s2, undone),
        redo_outcome(s2, s3, redone),
    ensures
        undone && redone,
        s2.doc() == s0.doc(),
        s3.doc() == s1.doc(),
{
}

/// Undo right after a delete that succeeded gives back the document from
/// before the delete, when the history was at that document and can
/// still count a checkpoint.
pub proof fn law_undo_after_delete(
    s0: EditorState,
    s1: EditorState,
    s2: EditorState,
    deleted: Result<(), EditError>,
    undone: bool,
)
    requires
        s0.wf(),
        s0.history_current(),
        s0.history_len() + 2 < u64::MAX,
        delete_outcome(s0, s1, deleted),
        deleted is Ok,
        undo_outcome(s1, s2, undone),
    ensures
        undone,
        s2.doc() == s0.doc(),
{
}

impl EditorState {
    /// Deletes the node at the cursor. Its content goes into the pending
    /// register (appended in append mode) or else the unnamed register
    /// (and is offered to the system clipboard), then into the delete
    /// history; the cursor stays on the same screen line (the last one when
    /// fewer remain); an undo checkpoint is recorded.
    pub fn delete_node_at_cursor(&mut self) -> (r: Result<(), EditError>)
        requires
            old(self).wf(),
        ensures
            final(self).wf(),
            delete_outcome(*old(self), *final(self), r),
    {
        let path = path_to_vec(self.cursor.path());
        let node = match self.tree.get_node(path.as_slice()) {
            Some(n) => n.duplicate(),
            None => return Err(EditError::NoNodeAtCursor),
        };
        let ghost node_model = node@;
        let key = self.key_at(path.as_slice());
        let mut nodes: Vec<YamlNode> = Vec::new();
        nodes.push(node);
        let mut keys: Vec<Option<String>> = Vec::new();
        keys.push(key);
        let content = RegisterContent::new(nodes, keys);
        let ghost expected = ContentModel {
            nodes: seq![node_model],
            keys: seq![key_of(old(self).doc().root, old(self).cursor_at())],
        };
        assert(content@.nodes =~= expected.nodes);
        assert(content@.keys =~= expected.keys);
        match self.pending_register {
            Some(reg) => {
                if self.append_mode {
                    self.registers.append_named(reg, content.duplicate());
                } else {
                    self.registers.set_named(reg, content.duplicate());
                }
            },
            None => {
                self.registers.set_unnamed(content.duplicate());
                self.pending_clipboard = Some(content.duplicate());
            },
        }
        self.registers.push_delete_history(content);
        assert(self.regs().numbered[1] == expected);
        let current_idx = find_line(self.tree_view.lines(), path.as_slice());
        match self.tree.delete_node(path.as_slice()) {
            Ok(()) => {},
            Err(e) => return Err(EditError::Tree(e)),
        }
        self.dirty = true;
        self.tree_view.update_paths_after_deletion(path.as_slice());
        self.tree_view.rebuild(&self.tree);
        let new_lines = self.tree_view.lines();
        if new_lines.len() == 0 {
            self.cursor.set_path(Vec::new());
        } else {
            let idx = match current_idx {
                Some(i) => if i < new_lines.len() - 1 { i } else { new_lines.len() - 1 },
                None => 0,
            };
            let p = path_to_vec(new_lines[idx].path.as_slice());
            self.cursor.set_path(p);
        }
        self.checkpoint();
        Ok(())
    }

    /// The key of the node at `path` in its parent mapping, if it sits in
    /// one.
    fn key_at(&self, path: &[usize]) -> (r: Option<String>)
        ensures
            match r {
                Some(k) => key_of(self.doc().root, path@) == Some(k@),
                None => key_of(self.doc().root, path@) is None,
            },
    {
        if path.len() == 0 {
            return None;
        }
        let k = path.len() - 1;
        let parent_path = path_prefix(path, k);
        assert(parent_path@ =~= path@.drop_last());
        match self.tree.get_node(parent_path.as_slice()) {
            Some(parent) => {
                proof {
                    crate::document::node::lemma_node_value_view(*parent);
                    crate::document::node::reveal_views(&parent.value);
                }
                match parent.value() {
                    YamlValue::Object(e) => {
                        if path[k] < e.len() {
                            Some(e[path[k]].0.clone())
                        } else {
                            None
                        }
                    },
                    _ => None,
                }
            },
            None => None,
        }
    }

    /// Takes the content last offered to the system clipboard, if any.
    pub fn take_pending_clipboard(&mut self) -> (r: Option<RegisterContent>)
        requires
            old(self).wf(),
        ensures
            final(self).wf(),
            final(self).doc() == old(self).doc(),
            final(self).shown() == old(self).shown(),
            final(self).cursor_at() == old(self).cursor_at(),
            final(self).regs() == old(self).regs(),
            match old(self).clipboard() {
                Some(c) => r matches Some(x) && x@ == c,
                None => r is None,
            },
            final(self).clipboard() is None,
    {
        let mut out: Option<RegisterContent> = None;
        std::mem::swap(&mut out, &mut self.pending_clipboard);
        out
    }
}

/// Index of the first line after `idx` no deeper than line `idx`.
fn next_shallower_index(lines: &[TreeViewLine], idx: usize) -> (r: Option<usize>)
    requires
        idx < lines@.len(),
    ensures
        match r {
            Some(j) => j < lines@.len() && next_shallower(lines_view(lines@), idx as int, lines@[idx as int].depth as nat) == Some(j as int),
            None => next_shallower(lines_view(lines@), idx as int, lines@[idx as int].depth as nat) is None,
        },
{
    let ghost l = lines_view(lines@);
    let d = lines[idx].depth;
    let mut j = idx + 1;
    while j < lines.len()
        invariant
            l == lines_view(lines@),
            idx < j <= lines@.len(),
            d == l[idx as int].depth,
            forall|k: int| idx < k < j ==> l[k].depth > d,
        decreases lines.len() - j,
    {
        if lines[j].depth <= d {
            proof {
                let w = choose|m: int| idx < m < l.len() && #[trigger] l[m].depth <= d && forall|k: int| idx < k < m ==> l[k].depth > d;
                assert(l[j as int].depth <= d);
                assert(w == j) by {
                    if w < j {
                        assert(l[w].depth > d);
                    } else if w > j {
                        assert(l[j as int].depth <= d);
                    }
                }
            }
            return Some(j);
        }
        j = j + 1;
    }
    None
}

/// Index of the last line before `idx` no deeper than line `idx`.
fn previous_shallower_index(lines: &[TreeViewLine], idx: usize) -> (r: Option<usize>)
    requires
        idx < lines@.len(),
    ensures
        match r {
            Some(j) => j < lines@.len() && previous_shallower(lines_view(lines@), idx as int, lines@[idx as int].depth as nat) == Some(j as int),
            None => previous_shallower(lines_view(lines@), idx as int, lines@[idx as int].depth as nat) is None,
        },
{
    let ghost l = lines_view(lines@);
    let d = lines[idx].depth;
    let mut j = idx;
    while j > 0
        invariant
            l == lines_view(lines@),
            j <= idx < lines@.len(),
            d == l[idx as int].depth,
            forall|k: int| j <= k < idx ==> l[k].depth > d,
        decreases j,
    {
        if lines[j - 1].depth <= d {
            proof {
                let w = choose|m: int| 0 <= m < idx && #[trigger] l[m].depth <= d && forall|k: int| m < k < idx ==> l[k].depth > d;
                assert(l[j - 1].depth <= d);
                assert(w == j - 1) by {
                    if w < j - 1 {
                        assert(l[j - 1].depth > d);
                    } else if w > j - 1 {
                        assert(l[w].depth > d);
                    }
                }
            }
            return Some(j - 1);
        }
        j = j - 1;
    }
    None
}

/// `p` with its last index replaced by `x`.
fn set_last(p: &[usize], x: usize) -> (r: Vec<usize>)
    requires
        p@.len() > 0,
    ensures
        r@ == p@.update(p@.len() - 1, x),
{
    let mut r = path_prefix(p, p.len() - 1);
    r.push(x);
    assert(r@ =~= p@.update(p@.len() - 1, x));
    r
}

/// Where a pasted node goes.
pub enum PasteTarget {
    /// As a mapping entry at this path
    Entry(Seq<usize>),
    /// As a sequence element at this path
    Element(Seq<usize>),
    /// Nowhere
    Refused(EditError),
}

/// Where a node pasted at the cursor goes: into an expanded container under
/// the cursor (pasting after), as its first child; into the root, as its
/// first child, when the cursor is at the root; else next to the cursor
/// node, after or before it.
pub open spec fn paste_target(root: NodeModel, exp: Set<Seq<usize>>, cur: Seq<usize>, after: bool) -> PasteTarget {
    if cur.len() > 0 && after && (node_at(root, cur) matches Some(n) && n.value.is_container()
        && exp.contains(cur)) {
        if node_at(root, cur)->0.value is Object {
            PasteTarget::Entry(cur.push(0))
        } else {
            PasteTarget::Element(cur.push(0))
        }
    } else if cur.len() == 0 {
        match root.value {
            ValueModel::Object(_) => PasteTarget::Entry(seq![0usize]),
            ValueModel::Array(_) => PasteTarget::Element(seq![0usize]),
            ValueModel::MultiDoc(_) => PasteTarget::Element(seq![0usize]),
            _ => PasteTarget::Refused(EditError::RootNotContainer),
        }
    } else {
        let parent = cur.drop_last();
        let idx: usize = if after { (cur.last() + 1) as usize } else { cur.last() };
        match node_at(root, parent) {
            None => PasteTarget::Refused(EditError::ParentNotFound),
            Some(p) => match p.value {
                ValueModel::Object(_) => PasteTarget::Entry(parent.push(idx)),
                ValueModel::Array(_) => PasteTarget::Element(parent.push(idx)),
                ValueModel::MultiDoc(_) => PasteTarget::Element(parent.push(idx)),
                _ => PasteTarget::Refused(EditError::ParentNotContainer),
            },
        }
    }
}

/// The path a paste target inserts at; none when refused.
pub open spec fn target_path(t: PasteTarget) -> Option<Seq<usize>> {
    match t {
        PasteTarget::Entry(ip) => Some(ip),
        PasteTarget::Element(ip) => Some(ip),
        PasteTarget::Refused(_) => None,
    }
}

/// Next to a cursor node that is not an expanded container, in a parent
/// that is a container: `P` inserts at the cursor's own index (the cursor
/// node moves one down) and `p` one index further, right after it; both go
/// into the same parent, the same way (as an entry or as an element).
pub proof fn law_paste_after_is_one_past_before(root: NodeModel, exp: Set<Seq<usize>>, cur: Seq<usize>)
    requires
        cur.len() > 0,
        cur.last() < usize::MAX,
        !(node_at(root, cur) matches Some(n) && n.value.is_container() && exp.contains(cur)),
        node_at(root, cur.drop_last()) matches Some(p) && p.value.is_container(),
    ensures
        target_path(paste_target(root, exp, cur, false)) == Some(cur),
        target_path(paste_target(root, exp, cur, true)) == Some(cur.drop_last().push((cur.last() + 1) as usize)),
        paste_target(root, exp, cur, false) is Entry <==> paste_target(root, exp, cur, true) is Entry,
{
    assert(cur.drop_last().push(cur.last()) == cur);
}

/// The parts of the editor a paste changes.
pub struct PasteModel {
    pub root: NodeModel,
    pub expanded: Set<Seq<usize>>,
    pub cursor: Seq<usize>,
}

/// The key a pasted mapping entry gets: its own key (or `pasted`), made
/// unique among the keys of the mapping.
pub open spec fn pasted_key(root: NodeModel, ip: Seq<usize>, key: Option<Seq<char>>) -> Seq<char> {
    unique_key(
        node_at(root, ip.drop_last())->0.value->Object_0,
        match key {
            Some(k) => k,
            None => "pasted"@,
        },
    )
}

/// One paste: the node goes where `paste_target` says (a mapping entry
/// under the key `pasted_key`); the root is expanded first when pasting
/// into it; expanded paths move for the insertion; the cursor goes to the
/// new node. A refused insertion still marks the container it reached as
/// modified, as the tree's insertion does.
#[verifier::opaque]
pub open spec fn paste_step(m: PasteModel, node: NodeModel, key: Option<Seq<char>>, after: bool) -> (PasteModel, Result<(), EditError>) {
    let exp = if m.cursor.len() == 0 { m.expanded.insert(Seq::empty()) } else { m.expanded };
    match paste_target(m.root, m.expanded, m.cursor, after) {
        PasteTarget::Refused(e) => (m, Err(e)),
        PasteTarget::Entry(ip) => {
            let (root2, res) = edit_at_model(
                m.root,
                insertion_parent(ip),
                EditModel::InsertEntry(insertion_index(ip), pasted_key(m.root, ip, key), node),
            );
            match res {
                Err(e) => (PasteModel { root: root2, ..m }, Err(EditError::Tree(e))),
                Ok(_) => (PasteModel { root: root2, expanded: expanded_after_insert(exp, ip), cursor: ip }, Ok(())),
            }
        },
        PasteTarget::Element(ip) => {
            let (root2, res) = edit_at_model(
                m.root,
                insertion_parent(ip),
                EditModel::InsertElement(insertion_index(ip), node),
            );
            match res {
                Err(e) => (PasteModel { root: root2, ..m }, Err(EditError::Tree(e))),
                Ok(_) => (PasteModel { root: root2, expanded: expanded_after_insert(exp, ip), cursor: ip }, Ok(())),
            }
        },
    }
}

impl EditorState {
    /// The parts of the editor a paste changes.
    pub open spec fn paste_model(&self) -> PasteModel {
        PasteModel { root: self.doc().root, expanded: self.expanded(), cursor: self.cursor_at() }
    }

    /// No expanded path holds the index `usize::MAX`, and the cursor's last
    /// index is below it: what a paste needs to move paths by one.
    pub open spec fn paste_fits(&self) -> bool {
        &&& indices_fit(self.expanded())
        &&& self.cursor_at().len() > 0 ==> self.cursor_at().last() < usize::MAX
    }

    /// Whether `paste_fits` holds.
    pub fn check_paste_fits(&self) -> (r: bool)
        requires
            self.wf(),
        ensures
            r == self.paste_fits(),
    {
        let p = self.cursor.path();
        if p.len() > 0 && p[p.len() - 1] == usize::MAX {
            return false;
        }
        self.tree_view.expanded_paths_fit()
    }

    /// Pastes one node at the cursor (see `paste_step`).
    fn paste_single_node(&mut self, node: YamlNode, key: Option<String>, after: bool) -> (r: Result<(), EditError>)
        requires
            old(self).wf(),
            old(self).paste_fits(),
        ensures
            final(self).wf(),
            ({
                let (m, res) = paste_step(
                    old(self).paste_model(),
                    node@,
                    crate::document::parser::opt_view(key),
                    after,
                );
                &&& r == res
                &&& final(self).paste_model() == m
                &&& final(self).doc() == (TreeModel { root: m.root, ..old(self).doc() })
            }),
            r is Ok ==> final(self).view_current(),
            final(self).regs() == old(self).regs(),
            final(self).dirty_flag() == old(self).dirty_flag(),
            final(self).history_len() == old(self).history_len(),
    {
        proof {
            reveal(paste_step);
        }
        let cur = path_to_vec(self.cursor.path());
        match self.plan_paste(&cur, after) {
            Err(e) => Err(e),
            Ok((is_entry, ip)) => {
                match self.insert_pasted(is_entry, &ip, node, key) {
                    Err(e) => Err(EditError::Tree(e)),
                    Ok(()) => {
                        self.finish_paste(ip, cur.len() == 0);
                        Ok(())
                    },
                }
            },
        }
    }

    /// Inserts the pasted node at `ip`: as an entry under its unique key
    /// when `is_entry`, else as an element.
    fn insert_pasted(&mut self, is_entry: bool, ip: &Vec<usize>, node: YamlNode, key: Option<String>) -> (r: Result<(), TreeError>)
        requires
            old(self).wf(),
            ip@.len() > 0,
            is_entry ==> (node_at(old(self).doc().root, ip@.drop_last()) matches Some(p) && p.value is Object),
        ensures
            final(self).wf(),
            ({
                let op = if is_entry {
                    EditModel::InsertEntry(
                        insertion_index(ip@),
                        pasted_key(
                            old(self).doc().root,
                            ip@,
                            match key {
                                Some(k) => Some(k@),
                                None => None,
                            },
                        ),
                        node@,
                    )
                } else {
                    EditModel::InsertElement(insertion_index(ip@), node@)
                };
                let (root2, res) = edit_at_model(old(self).doc().root, insertion_parent(ip@), op);
                &&& r == res
                &&& final(self).doc() == (TreeModel { root: root2, ..old(self).doc() })
            }),
            final(self).expanded() == old(self).expanded(),
            final(self).shown() == old(self).shown(),
            final(self).cursor_at() == old(self).cursor_at(),
            final(self).regs() == old(self).regs(),
            final(self).dirty_flag() == old(self).dirty_flag(),
            final(self).history_len() == old(self).history_len(),
    {
        if is_entry {
            let base = match key {
                Some(k) => k,
                None => str_to_string("pasted"),
            };
            let parent_path = path_prefix(ip.as_slice(), ip.len() - 1);
            assert(parent_path@ =~= ip@.drop_last());
            let k = match self.tree.get_node(parent_path.as_slice()) {
                Some(p) => {
                    proof {
                        crate::document::node::lemma_node_value_view(*p);
                        crate::document::node::reveal_views(&p.value);
                    }
                    match p.value() {
                        YamlValue::Object(e) => find_unique_key(e, &base),
                        _ => {
                            proof {
                                assert(false);
                            }
                            base
                        },
                    }
                },
                None => {
                    proof {
                        assert(false);
                    }
                    base
                },
            };
            proof {
                assert(insertion_parent(ip@) == ip@.drop_last());
                crate::document::edit::lemma_fresh_key_allowed(
                    self.doc().root,
                    insertion_parent(ip@),
                    insertion_index(ip@),
                    k@,
                    node@,
                );
            }
            self.tree.insert_node_in_object(ip.as_slice(), k, node)
        } else {
            self.tree.insert_node_in_array(ip.as_slice(), node)
        }
    }

    /// After a paste at `ip`: expands the root when pasting into it, moves
    /// the expanded paths, rebuilds the lines and puts the cursor on the new
    /// node.
    fn finish_paste(&mut self, ip: Vec<usize>, at_root: bool)
        requires
            old(self).wf(),
            ip@.len() > 0,
            indices_fit(old(self).expanded()),
        ensures
            final(self).wf(),
            final(self).doc() == old(self).doc(),
            final(self).expanded() == expanded_after_insert(
                if at_root { old(self).expanded().insert(Seq::empty()) } else { old(self).expanded() },
                ip@,
            ),
            final(self).cursor_at() == ip@,
            final(self).view_current(),
            final(self).regs() == old(self).regs(),
            final(self).dirty_flag() == old(self).dirty_flag(),
            final(self).history_len() == old(self).history_len(),
            final(self).history_doc() == old(self).history_doc(),
    {
        if at_root {
            let empty: Vec<usize> = Vec::new();
            if !self.tree_view.is_expanded(empty.as_slice()) {
                self.tree_view.toggle_expand(empty.as_slice());
            }
            assert(empty@ =~= Seq::<usize>::empty());
            assert(self.expanded() =~= old(self).expanded().insert(Seq::empty()));
        }
        proof {
            assert(indices_fit(self.expanded()));
        }
        self.tree_view.update_paths_after_insertion(ip.as_slice());
        self.tree_view.rebuild(&self.tree);
        self.cursor.set_path(ip);
    }

    /// Where a paste at `cur` goes: `(true, path)` for a mapping entry,
    /// `(false, path)` for a sequence element (see `paste_target`).
    fn plan_paste(&self, cur: &Vec<usize>, after: bool) -> (r: Result<(bool, Vec<usize>), EditError>)
        requires
            self.wf(),
            cur@.len() > 0 ==> cur@.last() < usize::MAX,
        ensures
            match paste_target(self.doc().root, self.expanded(), cur@, after) {
                PasteTarget::Entry(ip) => r matches Ok((b, v)) && b && v@ == ip && ip.len() > 0
                    && (node_at(self.doc().root, ip.drop_last()) matches Some(p) && p.value is Object),
                PasteTarget::Element(ip) => r matches Ok((b, v)) && !b && v@ == ip && ip.len() > 0,
                PasteTarget::Refused(e) => r == Err::<(bool, Vec<usize>), EditError>(e),
            },
    {
        if cur.len() > 0 && after {
            match self.tree.get_node(cur.as_slice()) {
                Some(n) => {
                    proof {
                        crate::document::node::lemma_node_value_view(*n);
                    }
                    if n.value().is_container() && self.tree_view.is_expanded(cur.as_slice()) {
                        let ip = crate::paths::path_child(cur.as_slice(), 0);
                        assert(ip@.drop_last() =~= cur@);
                        return Ok((n.value().is_object(), ip));
                    }
                },
                None => {},
            }
        }
        if cur.len() == 0 {
            let mut ip: Vec<usize> = Vec::new();
            ip.push(0);
            assert(ip@ =~= seq![0usize]);
            assert(ip@.drop_last() =~= Seq::<usize>::empty());
            let root = self.tree.root();
            proof {
                crate::document::node::lemma_node_value_view(*root);
            }
            return match root.value() {
                YamlValue::Object(_) => Ok((true, ip)),
                YamlValue::Array(_) | YamlValue::MultiDoc(_) => Ok((false, ip)),
                _ => Err(EditError::RootNotContainer),
            };
        }
        let k = cur.len() - 1;
        let parent = path_prefix(cur.as_slice(), k);
        assert(parent@ =~= cur@.drop_last());
        let idx = if after { cur[k] + 1 } else { cur[k] };
        match self.tree.get_node(parent.as_slice()) {
            None => Err(EditError::ParentNotFound),
            Some(p) => {
                proof {
                    crate::document::node::lemma_node_value_view(*p);
                }
                let ip = crate::paths::path_child(parent.as_slice(), idx);
                assert(ip@.drop_last() =~= parent@);
                match p.value() {
                    YamlValue::Object(_) => Ok((true, ip)),
                    YamlValue::Array(_) | YamlValue::MultiDoc(_) => Ok((false, ip)),
                    _ => Err(EditError::ParentNotContainer),
                }
            },
        }
    }
}

/// Pastes `nodes[i..]` (with their `keys`) one after the other, stopping at
/// the first refusal; a paste that would raise a path index past
/// `usize::MAX` is refused with `IndexLimit`.
pub open spec fn paste_all(
    m: PasteModel,
    nodes: Seq<NodeModel>,
    keys: Seq<Option<Seq<char>>>,
    after: bool,
    i: nat,
) -> (PasteModel, Result<(), EditError>)
    decreases nodes.len() - i,
{
    if i >= nodes.len() || i >= keys.len() {
        (m, Ok(()))
    } else if !fits(m) {
        (m, Err(EditError::IndexLimit))
    } else {
        let (m2, r) = paste_step(m, nodes[i as int], keys[i as int], after);
        if r is Err {
            (m2, r)
        } else {
            paste_all(m2, nodes, keys, after, i + 1)
        }
    }
}

/// No expanded path holds the index `usize::MAX`, nor does the cursor end
/// with it.
pub open spec fn fits(m: PasteModel) -> bool {
    &&& indices_fit(m.expanded)
    &&& m.cursor.len() > 0 ==> m.cursor.last() < usize::MAX
}

/// The register a paste reads: the pending one (an error when it was never
/// filled), else the unnamed one.
pub open spec fn paste_source_model(regs: RegisterSetModel, pending: Option<char>) -> Result<ContentModel, EditError> {
    match pending {
        Some(reg) => if '0' <= reg && reg <= '9' {
            Ok(regs.numbered[(reg as u32) - ('0' as u32)])
        } else if regs.named.contains_key(crate::text::lower_char(reg)) {
            Ok(regs.named[crate::text::lower_char(reg)])
        } else {
            Err(EditError::NothingInRegister(reg))
        },
        None => Ok(regs.unnamed),
    }
}

impl EditorState {
    /// The register that the next paste, yank or delete uses, if one was
    /// chosen.
    pub closed spec fn pending_reg(&self) -> Option<char> {
        self.pending_register
    }

    /// The register content a paste takes (see `paste_source_model`).
    fn paste_source(&self) -> (r: Result<RegisterContent, EditError>)
        requires
            self.wf(),
        ensures
            match paste_source_model(self.regs(), self.pending_reg()) {
                Ok(c) => r matches Ok(x) && x@ == c,
                Err(e) => r == Err::<RegisterContent, EditError>(e),
            },
    {
        match self.pending_register {
            Some(reg) => match self.registers.get(reg) {
                Some(c) => Ok(c.duplicate()),
                None => Err(EditError::NothingInRegister(reg)),
            },
            None => Ok(self.registers.get_unnamed().duplicate()),
        }
    }

    /// Pastes the register content after the cursor (into an expanded
    /// container under it); an undo checkpoint is recorded first and the
    /// document is marked changed (see `paste_all`).
    pub fn paste_nodes_at_cursor(&mut self) -> (r: Result<(), EditError>)
        requires
            old(self).wf(),
        ensures
            final(self).wf(),
            paste_outcome(*old(self), *final(self), true, r),
    {
        self.paste_nodes(true)
    }

    /// Pastes the register content before the cursor (see
    /// `paste_nodes_at_cursor`).
    pub fn paste_nodes_before_cursor(&mut self) -> (r: Result<(), EditError>)
        requires
            old(self).wf(),
        ensures
            final(self).wf(),
            paste_outcome(*old(self), *final(self), false, r),
    {
        self.paste_nodes(false)
    }

    /// `paste_nodes_at_cursor`, under its other name.
    pub fn paste_node_at_cursor(&mut self) -> (r: Result<(), EditError>)
        requires
            old(self).wf(),
        ensures
            final(self).wf(),
            paste_outcome(*old(self), *final(self), true, r),
    {
        self.paste_nodes(true)
    }

    /// `paste_nodes_before_cursor`, under its other name.
    pub fn paste_node_before_cursor(&mut self) -> (r: Result<(), EditError>)
        requires
            old(self).wf(),
        ensures
            final(self).wf(),
            paste_outcome(*old(self), *final(self), false, r),
    {
        self.paste_nodes(false)
    }

    /// Pastes node `i` of `content` (see `paste_all`).
    fn paste_one(&mut self, content: &RegisterContent, i: usize, after: bool) -> (r: Result<(), EditError>)
        requires
            old(self).wf(),
            i < content.nodes@.len(),
            i < content.keys@.len(),
        ensures
            final(self).wf(),
            final(self).doc().source == old(self).doc().source,
            final(self).doc().registry == old(self).doc().registry,
            ({
                let (m2, r2) = if !fits(old(self).paste_model()) {
                    (old(self).paste_model(), Err(EditError::IndexLimit))
                } else {
                    paste_step(old(self).paste_model(), content@.nodes[i as int], content@.keys[i as int], after)
                };
                &&& final(self).paste_model() == m2
                &&& r == r2
                &&& r is Ok ==> final(self).view_current()
            }),
    {
        if !self.check_paste_fits() {
            return Err(EditError::IndexLimit);
        }
        let node = content.nodes[i].duplicate();
        let key = match &content.keys[i] {
            Some(k) => Some(k.clone()),
            None => None,
        };
        self.paste_single_node(node, key, after)
    }

    /// Pastes every node of `content` in turn (see `paste_all`).
    fn paste_content(&mut self, content: &RegisterContent, after: bool) -> (r: Result<(), EditError>)
        requires
            old(self).wf(),
        ensures
            final(self).wf(),
            final(self).doc().source == old(self).doc().source,
            final(self).doc().registry == old(self).doc().registry,
            (final(self).paste_model(), r) == paste_all(old(self).paste_model(), content@.nodes, content@.keys, after, 0),
            r is Ok && content@.nodes.len() > 0 && content@.keys.len() > 0 ==> final(self).view_current(),
    {
        let ghost start = self.paste_model();
        let ghost cm = content@;
        let n = if content.nodes.len() < content.keys.len() { content.nodes.len() } else { content.keys.len() };
        let mut i: usize = 0;
        while i < n
            invariant
                self.wf(),
                i <= n,
                n == content.nodes@.len() || n == content.keys@.len(),
                n <= content.nodes@.len(),
                n <= content.keys@.len(),
                cm == content@,
                start == old(self).paste_model(),
                self.doc().source == old(self).doc().source,
                self.doc().registry == old(self).doc().registry,
                paste_all(self.paste_model(), cm.nodes, cm.keys, after, i as nat) == paste_all(start, cm.nodes, cm.keys, after, 0),
                i > 0 ==> self.view_current(),
            decreases n - i,
        {
            let ghost before = self.paste_model();
            proof {
                lemma_paste_all_unfold(before, cm.nodes, cm.keys, after, i as nat);
            }
            let step = self.paste_one(content, i, after);
            if step.is_err() {
                return step;
            }
            i = i + 1;
        }
        proof {
            lemma_paste_all_done(self.paste_model(), cm.nodes, cm.keys, after, i as nat);
        }
        Ok(())
    }

    fn paste_nodes(&mut self, after: bool) -> (r: Result<(), EditError>)
        requires
            old(self).wf(),
        ensures
            final(self).wf(),
            paste_outcome(*old(self), *final(self), after, r),
    {
        let content = match self.paste_source() {
            Ok(c) => c,
            Err(e) => return Err(e),
        };
        if content.is_empty() {
            return Err(EditError::NothingToPaste);
        }
        self.checkpoint();
        let r = self.paste_content(&content, after);
        if r.is_err() {
            return r;
        }
        self.dirty = true;
        if content.keys.len() == 0 {
            self.tree_view.rebuild(&self.tree);
        }
        r
    }
}

/// One step of `paste_all`, unfolded.
proof fn lemma_paste_all_unfold(
    m: PasteModel,
    nodes: Seq<NodeModel>,
    keys: Seq<Option<Seq<char>>>,
    after: bool,
    i: nat,
)
    requires
        i < nodes.len(),
        i < keys.len(),
    ensures
        paste_all(m, nodes, keys, after, i) == ({
            let (m2, r2) = if !fits(m) {
                (m, Err(EditError::IndexLimit))
            } else {
                paste_step(m, nodes[i as int], keys[i as int], after)
            };
            if r2 is Err { (m2, r2) } else { paste_all(m2, nodes, keys, after, i + 1) }
        }),
{
}

/// `paste_all` past the last node changes nothing.
proof fn lemma_paste_all_done(
    m: PasteModel,
    nodes: Seq<NodeModel>,
    keys: Seq<Option<Seq<char>>>,
    after: bool,
    i: nat,
)
    requires
        i >= nodes.len() || i >= keys.len(),
    ensures
        paste_all(m, nodes, keys, after, i) == (m, Ok::<(), EditError>(())),
{
}

/// What a paste of the selected register does: the refusals when the
/// register is missing or empty (nothing changes), else `paste_all` from
/// the state after an undo checkpoint; on success the document is marked
/// changed and the lines show it.
pub open spec fn paste_outcome(before: EditorState, now: EditorState, after: bool, r: Result<(), EditError>) -> bool {
    match paste_source_model(before.regs(), before.pending_reg()) {
        Err(e) => r == Err::<(), EditError>(e) && now.doc() == before.doc(),
        Ok(c) => if c.nodes.len() == 0 {
            r == Err::<(), EditError>(EditError::NothingToPaste) && now.doc() == before.doc()
        } else {
            let (m, res) = paste_all(before.paste_model(), c.nodes, c.keys, after, 0);
            &&& r == res
            &&& now.paste_model() == m
            &&& now.doc() == (TreeModel { root: m.root, ..before.doc() })
            &&& r is Ok ==> now.dirty_flag() && now.view_current()
        },
    }
}

/// The cursor and scroll after moving `amount` lines down.
pub open spec fn page_down_effect(
    l: Seq<LineModel>,
    cur: Seq<usize>,
    scroll: nat,
    viewport: nat,
    amount: nat,
    new_cur: Seq<usize>,
    new_scroll: nat,
) -> bool {
    if viewport == 0 || l.len() == 0 {
        new_cur == cur && new_scroll == scroll
    } else {
        let max_scroll: int = if l.len() > viewport { l.len() - viewport } else { 0 };
        let c = cursor_line(l, cur);
        let target: int = if c + amount < l.len() - 1 { c + amount } else { l.len() - 1 };
        &&& new_scroll == (if scroll + amount < max_scroll { scroll + amount } else { max_scroll as nat })
        &&& new_cur == l[target].path
    }
}

/// The cursor and scroll after moving `amount` lines up.
pub open spec fn page_up_effect(
    l: Seq<LineModel>,
    cur: Seq<usize>,
    scroll: nat,
    viewport: nat,
    amount: nat,
    new_cur: Seq<usize>,
    new_scroll: nat,
) -> bool {
    if viewport == 0 || l.len() == 0 {
        new_cur == cur && new_scroll == scroll
    } else {
        let c = cursor_line(l, cur);
        &&& new_scroll == (if scroll >= amount { (scroll - amount) as nat } else { 0 })
        &&& new_cur == l[if c >= amount { c - amount } else { 0 }].path
    }
}

impl EditorState {
    /// The message shown, with its level.
    pub closed spec fn msg(&self) -> Option<(Seq<char>, MessageLevel)> {
        match self.message {
            Some(m) => Some((m.text@, m.level)),
            None => None,
        }
    }

    /// The command line.
    pub closed spec fn command_text(&self) -> Seq<char> {
        self.command_buffer@
    }

    /// The completion candidates being cycled through.
    pub closed spec fn completion_list(&self) -> Seq<Seq<char>> {
        self.completion_candidates@.map_values(|s: String| s@)
    }

    /// Which completion candidate is in use.
    pub closed spec fn completion_at(&self) -> nat {
        self.completion_index as nat
    }

    /// The help overlay is shown.
    pub closed spec fn help_shown(&self) -> bool {
        self.show_help
    }

    /// The help overlay's first line.
    pub closed spec fn help_offset(&self) -> nat {
        self.help_scroll as nat
    }

    /// The theme in use.
    pub closed spec fn theme_name(&self) -> Seq<char> {
        self.current_theme@
    }

    /// A theme change the screen has not applied yet.
    pub closed spec fn theme_request(&self) -> Option<Seq<char>> {
        match self.pending_theme {
            Some(t) => Some(t@),
            None => None,
        }
    }

    /// The theme picker: shown, its themes, the highlighted one, the theme
    /// to restore on cancel and the one previewed.
    pub closed spec fn picker(&self) -> Option<(Seq<Seq<char>>, nat, Seq<char>, Seq<char>)> {
        match self.theme_picker_state {
            Some(p) => Some((p.themes@.map_values(|s: String| s@), p.selected_index as nat, p.original_theme@, p.current_theme@)),
            None => None,
        }
    }

    /// The picker overlay is shown.
    pub closed spec fn picker_shown(&self) -> bool {
        self.show_theme_picker
    }

    /// The settings: line numbers, relative numbers, mouse, backups.
    pub closed spec fn settings(&self) -> (bool, bool, bool, bool) {
        (self.show_line_numbers, self.relative_line_numbers, self.enable_mouse, self.create_backup)
    }

    /// The value being typed, if any.
    pub closed spec fn edit_text(&self) -> Option<Seq<char>> {
        match self.edit_buffer {
            Some(b) => Some(b@),
            None => None,
        }
    }

    /// The character position of the value editor's cursor.
    pub closed spec fn edit_pos(&self) -> nat {
        self.edit_cursor as nat
    }

    /// The key being typed.
    pub closed spec fn key_text(&self) -> Seq<char> {
        self.add_key_buffer@
    }

    /// The character position of the key editor's cursor.
    pub closed spec fn key_pos(&self) -> nat {
        self.add_key_cursor as nat
    }

    /// The text cursor is drawn, and the ticks since it last changed.
    pub closed spec fn blink(&self) -> (bool, u8) {
        (self.cursor_visible, self.cursor_blink_ticks)
    }

    /// The first key of a two-key command, if one was typed.
    pub closed spec fn pending_cmd(&self) -> Option<char> {
        self.pending_command
    }

    /// The count typed before a command, if any.
    pub closed spec fn count_typed(&self) -> Option<u32> {
        self.pending_count
    }

    /// The next yank or delete appends to the chosen register.
    pub closed spec fn appending(&self) -> bool {
        self.append_mode
    }

    /// The stage of an add operation.
    pub closed spec fn add_stage(&self) -> AddModeStage {
        self.add_mode_stage
    }

    /// The line editors and the state of the screen overlays are as in
    /// `before`.
    pub open spec fn same_input(&self, before: &EditorState) -> bool {
        &&& self.msg() == before.msg()
        &&& self.command_text() == before.command_text()
        &&& self.edit_text() == before.edit_text()
        &&& self.edit_pos() == before.edit_pos()
        &&& self.key_text() == before.key_text()
        &&& self.key_pos() == before.key_pos()
        &&& self.add_stage() == before.add_stage()
        &&& self.mode_value() == before.mode_value()
        &&& self.pending_reg() == before.pending_reg()
    }
}

impl EditorState {
    /// Where an add operation inserts, once started.
    pub closed spec fn add_point(&self) -> Option<Seq<usize>> {
        match self.add_insertion_point {
            Some(p) => Some(p@),
            None => None,
        }
    }

    /// The empty container waiting for its key, if any.
    pub closed spec fn temp(&self) -> Option<NodeModel> {
        match self.temp_container {
            Some(n) => Some(n@),
            None => None,
        }
    }

    /// A key is being renamed.
    pub closed spec fn renaming(&self) -> bool {
        self.is_renaming_key
    }

    /// The key a rename started from.
    pub closed spec fn rename_from(&self) -> Option<Seq<char>> {
        match self.rename_original_key {
            Some(k) => Some(k@),
            None => None,
        }
    }

    /// The cursor's last index can be raised by one.
    pub open spec fn cursor_index_fits(&self) -> bool {
        self.cursor_at().len() > 0 ==> self.cursor_at().last() < usize::MAX
    }
}

impl EditorState {
    /// The search text.
    pub closed spec fn search_text(&self) -> Seq<char> {
        self.search_buffer@
    }

    /// The paths the last search found.
    pub closed spec fn results(&self) -> Seq<Seq<usize>> {
        self.search_results@.map_values(|p: Vec<usize>| p@)
    }

    /// Which result the cursor was last put on.
    pub closed spec fn result_at(&self) -> nat {
        self.search_index as nat
    }

    /// Searches go forward.
    pub closed spec fn forward(&self) -> bool {
        self.search_forward
    }

    /// The kind of the last search: none, a text search, or a path query
    /// with its text.
    pub closed spec fn search_kind(&self) -> Option<Option<Seq<char>>> {
        match self.search_type {
            None => None,
            Some(SearchType::Text) => Some(None),
            Some(SearchType::YamlPath(q)) => Some(Some(q@)),
        }
    }
}

impl EditorState {
    /// The jump list.
    pub closed spec fn jumps(&self) -> JumpListModel {
        self.jumplist@
    }

    /// The marks.
    pub closed spec fn mark_map(&self) -> Map<char, Seq<usize>> {
        self.marks@
    }

    /// Waiting for a mark name after `m`, and after `'`.
    pub closed spec fn mark_waits(&self) -> (bool, bool) {
        (self.pending_mark_set, self.pending_mark_jump)
    }

    /// Where visual mode started.
    pub closed spec fn anchor(&self) -> Option<Seq<usize>> {
        match self.visual_anchor {
            Some(p) => Some(p@),
            None => None,
        }
    }

    /// The selected paths.
    pub closed spec fn selection(&self) -> Seq<Seq<usize>> {
        self.visual_selection@.map_values(|p: Vec<usize>| p@)
    }

    /// Whether a command can be repeated.
    pub closed spec fn has_last_command(&self) -> bool {
        self.last_command is Some
    }
}

impl EditorState {
    /// The state of a new editor apart from its document, lines and cursor:
    /// normal mode, nothing unsaved, no overlay, message or prompt shown,
    /// nothing pending or being typed, empty registers, marks, jump list
    /// (kept to 100 entries), selection and search, the default settings
    /// (line numbers shown, not relative, mouse on, no backups), no file,
    /// the top of the lines in a viewport of 20, and a history of one
    /// checkpoint holding the document.
    pub open spec fn starts_idle(&self) -> bool {
        &&& self.mode_value() == EditorMode::Normal
        &&& !self.dirty_flag()
        &&& !self.help_shown()
        &&& self.help_offset() == 0
        &&& !self.picker_shown()
        &&& self.picker() is None
        &&& self.theme_request() is None
        &&& self.msg() is None
        &&& self.command_text() == Seq::<char>::empty()
        &&& self.completion_list() == Seq::<Seq<char>>::empty()
        &&& self.edit_text() is None
        &&& self.key_text() == Seq::<char>::empty()
        &&& self.pending_cmd() is None
        &&& self.count_typed() is None
        &&& !self.appending()
        &&& self.pending_reg() is None
        &&& self.add_stage() == AddModeStage::Inactive
        &&& self.add_point() is None
        &&& self.temp() is None
        &&& !self.renaming()
        &&& !self.mark_waits().0
        &&& !self.mark_waits().1
        &&& self.mark_map() == Map::<char, Seq<usize>>::empty()
        &&& self.jumps() == (JumpListModel { jumps: Seq::empty(), current: 0, max_size: 100 })
        &&& self.anchor() is None
        &&& self.selection() == Seq::<Seq<usize>>::empty()
        &&& !self.has_last_command()
        &&& self.regs().unnamed == empty_content()
        &&& self.regs().named == Map::<char, ContentModel>::empty()
        &&& self.regs().numbered == Seq::new(10, |i: int| empty_content())
        &&& self.search_text() == Seq::<char>::empty()
        &&& self.results() == Seq::<Seq<usize>>::empty()
        &&& self.search_kind() is None
        &&& self.settings() == (true, false, true, false)
        &&& self.file_name() is None
        &&& self.clipboard() is None
        &&& self.scroll() == 0
        &&& self.viewport() == 20
        &&& self.history_len() == 1
        &&& self.undo_target() is None
        &&& self.redo_target() is None
        &&& self.history_doc() == self.doc()
    }
}

} // verus!
