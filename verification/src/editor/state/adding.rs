//! Adding nodes: an add operation first finds where the new node goes
//! (inside an empty container under the cursor, else after the cursor
//! node), then waits for a key (in a mapping) and a value; containers are
//! inserted at once where no key is needed. Renaming a key works through
//! the value editor too.

use vstd::prelude::*;
use crate::document::edit::{update_at, edit_at_model, edit_allowed, entry_move_out_of_range, key_position, EditModel, TreeError};
use crate::document::node::{fresh_model, node_at, NodeMetadata, NodeModel, ValueModel, YamlNode, YamlValue};
use crate::document::tree::{insertion_index, insertion_parent, TreeModel};
use crate::editor::mode::EditorMode;
use crate::editor::scalar::{parse_scalar_value, scalar_value};
use crate::editor::state::{AddModeStage, EditError, EditorState, MessageLevel};
use crate::paths::{path_child, path_prefix, path_to_vec};
use crate::text::{concat, str_to_string};
use crate::ui::tree_view::{expanded_after_insert, indices_fit};

verus! {

/// Where an add operation goes, found from the cursor.
pub enum AddStart {
    /// No add here; the message says why
    Refused(Seq<char>),
    /// A mapping entry at this path; its key is asked first (the flag: the
    /// container under the cursor is expanded first)
    AwaitKey(Seq<usize>, bool),
    /// A sequence element at this path (the flag as above)
    AwaitValue(Seq<usize>, bool),
}

/// Whether `v` is a sequence (or document stream) without elements.
pub open spec fn empty_sequence(v: ValueModel) -> bool {
    (v is Array || v is MultiDoc) && v.child_count() == 0
}

/// Whether `v` is a mapping without entries.
pub open spec fn empty_mapping(v: ValueModel) -> bool {
    v is Object && v.child_count() == 0
}

/// Where an add at `cur` goes: at the root, into it at position 0; into an
/// empty container under the cursor (expanding it); else right after the
/// cursor node in its parent.
pub open spec fn add_start(root: NodeModel, cur: Seq<usize>) -> AddStart {
    if cur.len() == 0 {
        match root.value {
            ValueModel::Array(_) | ValueModel::MultiDoc(_) => AddStart::AwaitValue(seq![0usize], false),
            ValueModel::Object(_) => AddStart::AwaitKey(seq![0usize], false),
            _ => AddStart::Refused("Cannot add sibling to root node"@),
        }
    } else if node_at(root, cur) matches Some(n) && empty_sequence(n.value) {
        AddStart::AwaitValue(cur.push(0), true)
    } else if node_at(root, cur) matches Some(n) && empty_mapping(n.value) {
        AddStart::AwaitKey(cur.push(0), true)
    } else {
        let parent = cur.drop_last();
        let ip = parent.push((cur.last() + 1) as usize);
        match node_at(root, parent) {
            None => AddStart::Refused("Invalid cursor position"@),
            Some(p) => match p.value {
                ValueModel::Array(_) | ValueModel::MultiDoc(_) => AddStart::AwaitValue(ip, false),
                ValueModel::Object(_) => AddStart::AwaitKey(ip, false),
                _ => AddStart::Refused("Parent is not a container"@),
            },
        }
    }
}

/// The expanded paths after an add that expands `p` when `ex`.
pub open spec fn expand_if(s: Set<Seq<usize>>, p: Seq<usize>, ex: bool) -> Set<Seq<usize>> {
    if ex { s.insert(p) } else { s }
}

/// Where an add goes (executable form of `AddStart`).
enum AddTarget {
    Refused(String),
    Key(Vec<usize>, bool),
    Value(Vec<usize>, bool),
}

impl AddTarget {
    spec fn model(&self) -> AddStart {
        match self {
            AddTarget::Refused(m) => AddStart::Refused(m@),
            AddTarget::Key(p, e) => AddStart::AwaitKey(p@, *e),
            AddTarget::Value(p, e) => AddStart::AwaitValue(p@, *e),
        }
    }
}

/// The parts that starting an add leaves alone.
pub open spec fn add_keeps(before: EditorState, after: EditorState) -> bool {
    &&& after.doc() == before.doc()
    &&& after.shown() == before.shown()
    &&& after.cursor_at() == before.cursor_at()
    &&& after.dirty_flag() == before.dirty_flag()
    &&& after.regs() == before.regs()
    &&& after.history_len() == before.history_len()
}

/// What starting an add does: refused, it shows why; for a key, the key
/// editor opens empty; for a value, the value editor opens empty in insert
/// mode under `-- INSERT --`. The insertion point is kept and the container
/// under the cursor expanded where the plan says so.
pub open spec fn add_started(before: EditorState, after: EditorState, plan: AddStart) -> bool {
    &&& add_keeps(before, after)
    &&& match plan {
        AddStart::Refused(m) => {
            &&& after.msg() == Some((m, MessageLevel::Error))
            &&& after.expanded() == before.expanded()
            &&& after.add_stage() == before.add_stage()
            &&& after.add_point() == before.add_point()
            &&& after.mode_value() == before.mode_value()
        },
        AddStart::AwaitKey(ip, ex) => {
            &&& after.msg() is None
            &&& after.expanded() == expand_if(before.expanded(), before.cursor_at(), ex)
            &&& after.add_stage() == AddModeStage::AwaitingKey
            &&& after.add_point() == Some(ip)
            &&& after.key_text().len() == 0
            &&& after.key_pos() == 0
            &&& after.mode_value() == before.mode_value()
        },
        AddStart::AwaitValue(ip, ex) => {
            &&& after.msg() == Some(("-- INSERT --"@, MessageLevel::Info))
            &&& after.expanded() == expand_if(before.expanded(), before.cursor_at(), ex)
            &&& after.add_stage() == AddModeStage::AwaitingValue
            &&& after.add_point() == Some(ip)
            &&& after.edit_text() == Some(Seq::<char>::empty())
            &&& after.edit_pos() == 0
            &&& after.mode_value() == EditorMode::Insert
        },
    }
}

impl EditorState {
    /// Where an add at the cursor goes (see `add_start`).
    fn add_target(&self) -> (r: AddTarget)
        requires
            self.wf(),
            self.cursor_index_fits(),
        ensures
            r.model() == add_start(self.doc().root, self.cursor_at()),
    {
        let cur = path_to_vec(self.cursor.path());
        if cur.len() == 0 {
            let root = self.tree.root();
            proof {
                crate::document::node::lemma_node_value_view(*root);
                crate::document::node::reveal_views(&root.value);
            }
            let mut ip: Vec<usize> = Vec::new();
            ip.push(0);
            assert(ip@ =~= seq![0usize]);
            return match root.value() {
                YamlValue::Array(_) | YamlValue::MultiDoc(_) => AddTarget::Value(ip, false),
                YamlValue::Object(_) => AddTarget::Key(ip, false),
                _ => AddTarget::Refused(str_to_string("Cannot add sibling to root node")),
            };
        }
        match self.tree.get_node(cur.as_slice()) {
            Some(n) => {
                proof {
                    crate::document::node::lemma_node_value_view(*n);
                    crate::document::node::reveal_views(&n.value);
                }
                match n.value() {
                    YamlValue::Array(a) | YamlValue::MultiDoc(a) => {
                        if a.len() == 0 {
                            return AddTarget::Value(path_child(cur.as_slice(), 0), true);
                        }
                    },
                    YamlValue::Object(e) => {
                        if e.len() == 0 {
                            return AddTarget::Key(path_child(cur.as_slice(), 0), true);
                        }
                    },
                    _ => {},
                }
            },
            None => {},
        }
        let k = cur.len() - 1;
        let parent = path_prefix(cur.as_slice(), k);
        assert(parent@ =~= cur@.drop_last());
        let ip = path_child(parent.as_slice(), cur[k] + 1);
        match self.tree.get_node(parent.as_slice()) {
            None => AddTarget::Refused(str_to_string("Invalid cursor position")),
            Some(p) => {
                proof {
                    crate::document::node::lemma_node_value_view(*p);
                    crate::document::node::reveal_views(&p.value);
                }
                match p.value() {
                    YamlValue::Array(_) | YamlValue::MultiDoc(_) => AddTarget::Value(ip, false),
                    YamlValue::Object(_) => AddTarget::Key(ip, false),
                    _ => AddTarget::Refused(str_to_string("Parent is not a container")),
                }
            },
        }
    }

    /// Expands the container under the cursor when `ex` (and it is not).
    fn expand_cursor_if(&mut self, ex: bool)
        requires
            old(self).wf(),
        ensures
            final(self).wf(),
            final(self).expanded() == expand_if(old(self).expanded(), old(self).cursor_at(), ex),
            add_keeps(*old(self), *final(self)),
            final(self).history_doc() == old(self).history_doc(),
            final(self).same_input(old(self)),
            final(self).add_point() == old(self).add_point(),
    {
        if ex && !self.tree_view.is_expanded(self.cursor.path()) {
            self.tree_view.toggle_expand(self.cursor.path());
        }
        proof {
            if ex {
                assert(self.expanded() =~= old(self).expanded().insert(old(self).cursor_at()));
            }
        }
    }

    /// Starts an add at the cursor (see `add_start`, `add_started`); the
    /// message is cleared first.
    pub fn start_add_operation(&mut self)
        requires
            old(self).wf(),
            old(self).cursor_index_fits(),
        ensures
            final(self).wf(),
            add_started(*old(self), *final(self), add_start(old(self).doc().root, old(self).cursor_at())),
    {
        self.message = None;
        let t = self.add_target();
        let ghost plan = t.model();
        match t {
            AddTarget::Refused(m) => {
                self.message = Some(crate::editor::state::Message { text: m, level: MessageLevel::Error });
            },
            AddTarget::Key(ip, ex) => {
                self.expand_cursor_if(ex);
                self.add_mode_stage = AddModeStage::AwaitingKey;
                self.add_key_buffer = String::new();
                self.add_key_cursor = 0;
                self.add_insertion_point = Some(ip);
                self.cursor_visible = true;
                self.cursor_blink_ticks = 0;
            },
            AddTarget::Value(ip, ex) => {
                self.expand_cursor_if(ex);
                self.add_mode_stage = AddModeStage::AwaitingValue;
                self.add_insertion_point = Some(ip);
                self.edit_buffer = Some(String::new());
                self.edit_cursor = 0;
                self.mode = EditorMode::Insert;
                self.cursor_visible = true;
                self.cursor_blink_ticks = 0;
                self.message = Some(crate::editor::state::Message { text: str_to_string("-- INSERT --"), level: MessageLevel::Info });
                assert(self.msg() == Some(("-- INSERT --"@, MessageLevel::Info)));
                assert(self.add_point() == Some(ip@));
                assert(self.edit_text() == Some(Seq::<char>::empty()));
                assert(add_keeps(*old(self), *self));
            },
        }
    }

    /// After the key of a mapping entry: a non-empty key moves the add to
    /// its value, which the value editor takes in insert mode; an empty key
    /// is refused with a message. Outside the key stage nothing happens.
    pub fn transition_add_to_value(&mut self)
        requires
            old(self).wf(),
        ensures
            final(self).wf(),
            final(self).same_document(old(self)),
            final(self).add_point() == old(self).add_point(),
            final(self).key_text() == old(self).key_text(),
            old(self).add_stage() != AddModeStage::AwaitingKey ==> final(self).same_input(old(self))
                && final(self).msg() == old(self).msg(),
            old(self).add_stage() == AddModeStage::AwaitingKey && old(self).key_text().len() == 0 ==> final(self).msg()
                == Some(("Key cannot be empty"@, MessageLevel::Error)) && final(self).add_stage()
                == AddModeStage::AwaitingKey && final(self).edit_text() == old(self).edit_text(),
            old(self).add_stage() == AddModeStage::AwaitingKey && old(self).key_text().len() > 0 ==> {
                &&& final(self).add_stage() == AddModeStage::AwaitingValue
                &&& final(self).edit_text() == Some(Seq::<char>::empty())
                &&& final(self).edit_pos() == 0
                &&& final(self).mode_value() == EditorMode::Insert
                &&& final(self).msg() == Some(("-- INSERT --"@, MessageLevel::Info))
            },
    {
        if self.add_mode_stage == AddModeStage::AwaitingKey {
            if crate::text::char_count(self.add_key_buffer.as_str()) == 0 {
                self.message = Some(crate::editor::state::Message { text: str_to_string("Key cannot be empty"), level: MessageLevel::Error });
                return;
            }
            self.add_mode_stage = AddModeStage::AwaitingValue;
            self.edit_buffer = Some(String::new());
            self.edit_cursor = 0;
            self.mode = EditorMode::Insert;
            self.cursor_visible = true;
            self.cursor_blink_ticks = 0;
            self.message = Some(crate::editor::state::Message { text: str_to_string("-- INSERT --"), level: MessageLevel::Info });
        }
    }

    /// Ends an add operation: no stage, no key, no insertion point.
    #[verifier::rlimit(40)]
    pub fn cancel_add_operation(&mut self)
        requires
            old(self).wf(),
        ensures
            final(self).wf(),
            final(self).add_stage() == AddModeStage::Inactive,
            final(self).key_text().len() == 0,
            final(self).key_pos() == 0,
            final(self).add_point() is None,
            final(self).same_document(old(self)),
            final(self).msg() == old(self).msg(),
            final(self).edit_text() == old(self).edit_text(),
            final(self).edit_pos() == old(self).edit_pos(),
            final(self).mode_value() == old(self).mode_value(),
            final(self).temp() == old(self).temp(),
    {
        self.add_mode_stage = AddModeStage::Inactive;
        self.add_key_buffer = String::new();
        self.add_key_cursor = 0;
        self.add_insertion_point = None;
    }

    /// Whether an empty container waits for its key.
    pub fn has_temp_container(&self) -> (r: bool)
        ensures
            r == self.temp() is Some,
    {
        self.temp_container.is_some()
    }

    /// Inserts `node` at `ip`: as the entry `key` of a mapping parent, as
    /// an element of a sequence parent (see `add_insert`).
    fn insert_added(&mut self, ip: &Vec<usize>, node: YamlNode, key: &String) -> (r: Result<bool, EditError>)
        requires
            old(self).wf(),
            ip@.len() > 0,
        ensures
            final(self).wf(),
            ({
                let (d, res) = add_insert(old(self).doc(), ip@, node@, key@);
                &&& final(self).doc() == d
                &&& match res {
                    Ok(_) => r is Ok,
                    Err(e) => r matches Err(x) && same_error(x, e),
                }
            }),
            r matches Ok(is_entry) ==> (is_entry <==> node_at(old(self).doc().root, ip@.drop_last())->0.value is Object),
            final(self).expanded() == old(self).expanded(),
            final(self).shown() == old(self).shown(),
            final(self).cursor_at() == old(self).cursor_at(),
            final(self).regs() == old(self).regs(),
            final(self).dirty_flag() == old(self).dirty_flag(),
            final(self).history_len() == old(self).history_len(),
            final(self).history_doc() == old(self).history_doc(),
    {
        let parent_path = path_prefix(ip.as_slice(), ip.len() - 1);
        assert(parent_path@ =~= ip@.drop_last());
        assert(insertion_parent(ip@) == ip@.drop_last());
        let (is_entry, refused) = match self.tree.get_node(parent_path.as_slice()) {
            None => return Err(EditError::ParentNotFound),
            Some(p) => {
                proof {
                    crate::document::node::lemma_node_value_view(*p);
                    crate::document::node::reveal_views(&p.value);
                }
                match p.value() {
                    YamlValue::Array(_) => (false, false),
                    YamlValue::Object(e) => {
                        let at_end = ip[ip.len() - 1] == e.len();
                        let exists = crate::document::edit::find_entry(e, key).is_some();
                        (true, at_end && exists)
                    },
                    _ => return Err(EditError::ParentNotContainer),
                }
            },
        };
        if refused {
            return Err(EditError::KeyExists(key.clone()));
        }
        if is_entry {
            match self.tree.insert_node_in_object(ip.as_slice(), key.clone(), node) {
                Ok(()) => Ok(true),
                Err(e) => Err(EditError::Tree(e)),
            }
        } else {
            match self.tree.insert_node_in_array(ip.as_slice(), node) {
                Ok(()) => Ok(false),
                Err(e) => Err(EditError::Tree(e)),
            }
        }
    }

    /// Inserts the typed value where the add operation points (see
    /// `add_commit`): the value is read as `parse_scalar_value` reads it,
    /// `float_text` being the display text of the typed value read as a
    /// floating-point number, when it reads as one. On success the expanded
    /// paths move, the cursor goes to the new node, the document is marked
    /// changed, an undo checkpoint is recorded and the add operation and
    /// the value editor end.
    pub fn commit_add_operation(&mut self, float_text: Option<String>) -> (r: Result<(), EditError>)
        requires
            old(self).wf(),
        ensures
            final(self).wf(),
            add_commit(*old(self), *final(self), crate::document::parser::opt_view(float_text), r),
    {
        if self.add_mode_stage != AddModeStage::AwaitingValue {
            return Err(EditError::NotAwaitingValue);
        }
        let text = match &self.edit_buffer {
            Some(b) => b.clone(),
            None => return Err(EditError::NoEditBuffer),
        };
        let ip = match &self.add_insertion_point {
            Some(p) => p.clone(),
            None => return Err(EditError::NoInsertionPoint),
        };
        if !self.tree_view.expanded_paths_fit() {
            return Err(EditError::IndexLimit);
        }
        let node = YamlNode::new(parse_scalar_value(text.as_str(), float_text));
        let key = self.add_key_buffer.clone();
        let is_entry = match self.insert_added(&ip, node, &key) {
            Ok(b) => b,
            Err(e) => return Err(e),
        };
        let msg = if is_entry {
            let m = concat("Added field '", key.as_str());
            concat(m.as_str(), "'")
        } else {
            str_to_string("Added element")
        };
        self.finish_paste(ip, false);
        self.dirty = true;
        self.checkpoint();
        self.message = Some(crate::editor::state::Message { text: msg, level: MessageLevel::Info });
        self.add_mode_stage = AddModeStage::Inactive;
        self.add_key_buffer = String::new();
        self.add_key_cursor = 0;
        self.add_insertion_point = None;
        self.edit_buffer = None;
        self.edit_cursor = 0;
        Ok(())
    }
}

impl EditorState {
    /// Starts adding an empty mapping (`is_object`) or sequence at the
    /// cursor (see `container_started`); the message is cleared first.
    pub fn start_add_container_operation(&mut self, is_object: bool)
        requires
            old(self).wf(),
            old(self).cursor_index_fits(),
        ensures
            final(self).wf(),
            container_started(*old(self), *final(self), add_start(old(self).doc().root, old(self).cursor_at()), is_object),
    {
        self.message = None;
        let container = if is_object {
            YamlNode::new(YamlValue::Object(Vec::new()))
        } else {
            YamlNode::new(YamlValue::Array(Vec::new()))
        };
        proof {
            crate::document::node::reveal_views(&container.value);
            assert(container@.value == empty_container(is_object)) by {
                assert(crate::document::node::entries_model(Seq::<(String, YamlNode)>::empty()) =~= Seq::empty());
                assert(crate::document::node::nodes_model(Seq::<YamlNode>::empty()) =~= Seq::empty());
            }
        }
        let t = self.add_target();
        match t {
            AddTarget::Refused(m) => {
                self.message = Some(crate::editor::state::Message { text: m, level: MessageLevel::Error });
            },
            AddTarget::Key(ip, ex) => {
                self.expand_cursor_if(ex);
                self.add_mode_stage = AddModeStage::AwaitingKey;
                self.add_key_buffer = String::new();
                self.add_key_cursor = 0;
                self.add_insertion_point = Some(ip);
                self.temp_container = Some(container);
                self.cursor_visible = true;
                self.cursor_blink_ticks = 0;
            },
            AddTarget::Value(ip, ex) => {
                self.expand_cursor_if(ex);
                if !self.tree_view.expanded_paths_fit() {
                    self.message = Some(crate::editor::state::Message { text: str_to_string("Add failed: Path index out of range"), level: MessageLevel::Error });
                    return;
                }
                match self.tree.insert_node_in_array(ip.as_slice(), container) {
                    Ok(()) => {
                        self.finish_paste(ip, false);
                        self.dirty = true;
                        self.checkpoint();
                        let text = if is_object { str_to_string("Added empty object") } else { str_to_string("Added empty array") };
                        self.message = Some(crate::editor::state::Message { text, level: MessageLevel::Info });
                    },
                    Err(e) => {
                        let m = e.message();
                        self.message = Some(crate::editor::state::Message { text: concat("Add failed: ", m.as_str()), level: MessageLevel::Error });
                    },
                }
            },
        }
    }

    /// Inserts the empty container that waits for its key under the typed
    /// key (see `container_commit`); the container is taken out of waiting
    /// first, whatever follows.
    pub fn commit_container_add(&mut self) -> (r: Result<(), EditError>)
        requires
            old(self).wf(),
        ensures
            final(self).wf(),
            container_commit(*old(self), *final(self), r),
    {
        let mut taken: Option<YamlNode> = None;
        std::mem::swap(&mut taken, &mut self.temp_container);
        let container = match taken {
            Some(c) => c,
            None => return Err(EditError::NoContainer),
        };
        if crate::text::char_count(self.add_key_buffer.as_str()) == 0 {
            return Err(EditError::EmptyKey);
        }
        let ip = match &self.add_insertion_point {
            Some(p) => p.clone(),
            None => return Err(EditError::NoInsertionPoint),
        };
        if !self.tree_view.expanded_paths_fit() {
            return Err(EditError::IndexLimit);
        }
        let key = self.add_key_buffer.clone();
        proof {
            crate::document::node::lemma_node_value_view(container);
            crate::document::node::reveal_views(&container.value);
        }
        let is_object = match container.value() {
            YamlValue::Object(_) => 0u8,
            YamlValue::Array(_) => 1u8,
            _ => 2u8,
        };
        let parent_path = path_prefix(ip.as_slice(), ip.len() - 1);
        assert(parent_path@ =~= ip@.drop_last());
        assert(insertion_parent(ip@) == ip@.drop_last());
        let clash = match self.tree.get_node(parent_path.as_slice()) {
            Some(p) => {
                proof {
                    crate::document::node::lemma_node_value_view(*p);
                    crate::document::node::reveal_views(&p.value);
                }
                match p.value() {
                    YamlValue::Object(e) => ip[ip.len() - 1] == e.len() && crate::document::edit::find_entry(e, &key).is_some(),
                    _ => false,
                }
            },
            None => false,
        };
        if clash {
            return Err(EditError::KeyExists(key));
        }
        match self.tree.insert_node_in_object(ip.as_slice(), key.clone(), container) {
            Ok(()) => {},
            Err(e) => return Err(EditError::Tree(e)),
        }
        self.finish_paste(ip, false);
        self.dirty = true;
        self.checkpoint();
        let kind = if is_object == 0 {
            str_to_string("Added empty object '")
        } else if is_object == 1 {
            str_to_string("Added empty array '")
        } else {
            str_to_string("Added empty container '")
        };
        let m = concat(kind.as_str(), key.as_str());
        self.message = Some(crate::editor::state::Message { text: concat(m.as_str(), "'"), level: MessageLevel::Info });
        self.add_mode_stage = AddModeStage::Inactive;
        self.add_key_buffer = String::new();
        self.add_key_cursor = 0;
        self.add_insertion_point = None;
        self.temp_container = None;
        Ok(())
    }
}

/// The empty container an add inserts.
pub open spec fn empty_container(is_object: bool) -> ValueModel {
    if is_object { ValueModel::Object(Seq::empty()) } else { ValueModel::Array(Seq::empty()) }
}

/// What starting to add an empty container does: like `add_started`, but
/// where no key is needed the container goes in at once (the cursor moves
/// to it, the document is marked changed, an undo checkpoint is recorded)
/// and a message tells what happened; in a mapping the container waits for
/// its key.
pub open spec fn container_started(before: EditorState, after: EditorState, plan: AddStart, is_object: bool) -> bool {
    match plan {
        AddStart::Refused(m) => {
            &&& add_keeps(before, after)
            &&& after.msg() == Some((m, MessageLevel::Error))
            &&& after.expanded() == before.expanded()
            &&& after.add_stage() == before.add_stage()
        },
        AddStart::AwaitKey(ip, ex) => {
            &&& add_keeps(before, after)
            &&& after.msg() is None
            &&& after.expanded() == expand_if(before.expanded(), before.cursor_at(), ex)
            &&& after.add_stage() == AddModeStage::AwaitingKey
            &&& after.add_point() == Some(ip)
            &&& after.key_text().len() == 0
            &&& after.temp() == Some(fresh_model(empty_container(is_object)))
        },
        AddStart::AwaitValue(ip, ex) => {
            let exp = expand_if(before.expanded(), before.cursor_at(), ex);
            if !indices_fit(exp) {
                after.doc() == before.doc() && after.msg() == Some(("Add failed: Path index out of range"@, MessageLevel::Error))
            } else {
                let (root2, res) = edit_at_model(
                    before.doc().root,
                    insertion_parent(ip),
                    EditModel::InsertElement(insertion_index(ip), fresh_model(empty_container(is_object))),
                );
                &&& after.doc() == (TreeModel { root: root2, ..before.doc() })
                &&& match res {
                    Err(e) => after.msg() == Some(("Add failed: "@ + e.message_text(), MessageLevel::Error)),
                    Ok(_) => {
                        &&& after.expanded() == expanded_after_insert(exp, ip)
                        &&& after.cursor_at() == ip
                        &&& after.view_current()
                        &&& after.dirty_flag()
                        &&& after.msg() == Some((
                            if is_object { "Added empty object"@ } else { "Added empty array"@ },
                            MessageLevel::Info,
                        ))
                        &&& before.history_len() + 2 < u64::MAX ==> after.history_current()
                            && after.undo_target() == Some(before.history_doc())
                    },
                }
            }
        },
    }
}

/// What committing a waiting container does (see `commit_container_add`).
pub open spec fn container_commit(before: EditorState, after: EditorState, r: Result<(), EditError>) -> bool {
    &&& after.temp() is None
    &&& match (before.temp(), before.add_point()) {
        (None, _) => r == Err::<(), EditError>(EditError::NoContainer) && after.doc() == before.doc(),
        (Some(c), p) => if before.key_text().len() == 0 {
            r == Err::<(), EditError>(EditError::EmptyKey) && after.doc() == before.doc()
        } else {
            match p {
                None => r == Err::<(), EditError>(EditError::NoInsertionPoint) && after.doc() == before.doc(),
                Some(ip) => if !indices_fit(before.expanded()) {
                    r == Err::<(), EditError>(EditError::IndexLimit) && after.doc() == before.doc()
                } else if (node_at(before.doc().root, ip.drop_last()) matches Some(n) && (n.value matches ValueModel::Object(e)
                    && ip.last() == e.len() && key_position(e, before.key_text()) is Some)) {
                    r matches Err(EditError::KeyExists(k)) && k@ == before.key_text() && after.doc() == before.doc()
                } else {
                    let (root2, res) = edit_at_model(
                        before.doc().root,
                        insertion_parent(ip),
                        EditModel::InsertEntry(insertion_index(ip), before.key_text(), c),
                    );
                    &&& after.doc() == (TreeModel { root: root2, ..before.doc() })
                    &&& match res {
                        Err(e) => r == Err::<(), EditError>(EditError::Tree(e)),
                        Ok(_) => {
                            &&& r is Ok
                            &&& after.expanded() == expanded_after_insert(before.expanded(), ip)
                            &&& after.cursor_at() == ip
                            &&& after.view_current()
                            &&& after.dirty_flag()
                            &&& after.add_stage() == AddModeStage::Inactive
                            &&& after.add_point() is None
                            &&& after.msg() == Some((
                                match c.value {
                                    ValueModel::Object(_) => "Added empty object '"@,
                                    ValueModel::Array(_) => "Added empty array '"@,
                                    _ => "Added empty container '"@,
                                } + before.key_text() + "'"@,
                                MessageLevel::Info,
                            ))
                            &&& before.history_len() + 2 < u64::MAX ==> after.history_current()
                                && after.undo_target() == Some(before.history_doc())
                        },
                    }
                },
            }
        },
    }
}

/// The key a rename at `cur` starts from, or why it cannot start.
pub open spec fn rename_start(root: NodeModel, cur: Seq<usize>) -> Result<Seq<char>, Seq<char>> {
    if cur.len() == 0 {
        Err("Cannot rename root node"@)
    } else {
        match node_at(root, cur.drop_last()) {
            None => Err("Invalid cursor position"@),
            Some(p) => match p.value {
                ValueModel::Object(e) => if cur.last() < e.len() {
                    Ok(e[cur.last() as int].0)
                } else {
                    Err("Invalid object index"@)
                },
                _ => Err("Can only rename object keys, not array elements"@),
            },
        }
    }
}

/// The outcome of renaming entry `idx` of the value `v` to `k`: the value
/// after and the result.
pub open spec fn rename_model(v: ValueModel, idx: usize, k: Seq<char>) -> (ValueModel, Result<(), EditError>) {
    match v {
        ValueModel::Object(e) => if key_position(e, k) is Some {
            (v, Err(EditError::KeyExists(key_string(k))))
        } else if idx >= e.len() {
            (v, Err(EditError::InvalidIndex))
        } else {
            (ValueModel::Object(e.update(idx as int, (k, e[idx as int].1))), Ok(()))
        },
        _ => (v, Err(EditError::ParentNotObject)),
    }
}

/// Renames entry `idx` of `v` to `k` (see `rename_model`).
fn rename_in(v: YamlValue, idx: usize, k: &String) -> (r: (YamlValue, Result<(), EditError>))
    ensures
        r.0@ == rename_model(v@, idx, k@).0,
        match rename_model(v@, idx, k@).1 {
            Err(EditError::KeyExists(_)) => r.1 matches Err(EditError::KeyExists(x)) && x@ == k@,
            other => r.1 == other,
        },
{
    proof {
        crate::document::node::reveal_views(&v);
    }
    match v {
        YamlValue::Object(mut e) => {
            proof {
                crate::document::node::lemma_object_view(e);
            }
            if crate::document::edit::find_entry(&e, k).is_some() {
                return (YamlValue::Object(e), Err(EditError::KeyExists(k.clone())));
            }
            if idx >= e.len() {
                return (YamlValue::Object(e), Err(EditError::InvalidIndex));
            }
            let ghost before = crate::document::node::entries_model(e@);
            let (_old_key, node) = e.remove(idx);
            e.insert(idx, (k.clone(), node));
            proof {
                crate::document::node::lemma_object_view(e);
                assert(crate::document::node::entries_model(e@) =~= before.update(idx as int, (k@, before[idx as int].1)));
            }
            (YamlValue::Object(e), Ok(()))
        },
        other => (other, Err(EditError::ParentNotObject)),
    }
}

impl EditorState {
    /// The key a rename at the cursor starts from, or why it cannot start
    /// (see `rename_start`).
    fn rename_target(&self) -> (r: Result<String, String>)
        requires
            self.wf(),
        ensures
            match rename_start(self.doc().root, self.cursor_at()) {
                Ok(k) => r matches Ok(s) && s@ == k,
                Err(m) => r matches Err(s) && s@ == m,
            },
    {
        let cur = path_to_vec(self.cursor.path());
        if cur.len() == 0 {
            return Err(str_to_string("Cannot rename root node"));
        }
        let k = cur.len() - 1;
        let parent = path_prefix(cur.as_slice(), k);
        assert(parent@ =~= cur@.drop_last());
        match self.tree.get_node(parent.as_slice()) {
            None => Err(str_to_string("Invalid cursor position")),
            Some(p) => {
                proof {
                    crate::document::node::lemma_node_value_view(*p);
                    crate::document::node::reveal_views(&p.value);
                }
                match p.value() {
                    YamlValue::Object(e) => {
                        if cur[k] < e.len() {
                            Ok(e[cur[k]].0.clone())
                        } else {
                            Err(str_to_string("Invalid object index"))
                        }
                    },
                    _ => Err(str_to_string("Can only rename object keys, not array elements")),
                }
            },
        }
    }

    /// Starts renaming the key of the entry under the cursor: the value
    /// editor opens on the key, in insert mode, under `-- RENAME --`; where
    /// no key is under the cursor a message says why (see `rename_start`).
    #[verifier::spinoff_prover]
    #[verifier::rlimit(60)]
    pub fn start_rename_operation(&mut self)
        requires
            old(self).wf(),
        ensures
            final(self).wf(),
            add_keeps(*old(self), *final(self)),
            final(self).expanded() == old(self).expanded(),
            match rename_start(old(self).doc().root, old(self).cursor_at()) {
                Ok(k) => {
                    &&& final(self).renaming()
                    &&& final(self).rename_from() == Some(k)
                    &&& final(self).edit_text() == Some(k)
                    &&& final(self).edit_pos() == k.len()
                    &&& final(self).mode_value() == EditorMode::Insert
                    &&& final(self).msg() == Some(("-- RENAME --"@, MessageLevel::Info))
                },
                Err(m) => {
                    &&& final(self).msg() == Some((m, MessageLevel::Error))
                    &&& final(self).renaming() == old(self).renaming()
                    &&& final(self).edit_text() == old(self).edit_text()
                    &&& final(self).mode_value() == old(self).mode_value()
                },
            },
    {
        self.message = None;
        let key = match self.rename_target() {
            Ok(k) => k,
            Err(m) => {
                self.message = Some(crate::editor::state::Message { text: m, level: MessageLevel::Error });
                return;
            },
        };
        let n = crate::text::char_count(key.as_str());
        self.is_renaming_key = true;
        self.rename_original_key = Some(key.clone());
        self.edit_buffer = Some(key);
        self.edit_cursor = n;
        self.mode = EditorMode::Insert;
        self.cursor_visible = true;
        self.cursor_blink_ticks = 0;
        self.message = Some(crate::editor::state::Message { text: str_to_string("-- RENAME --"), level: MessageLevel::Info });
    }

    /// Ends a rename without changing anything: the value editor closes.
    pub fn cancel_rename(&mut self)
        requires
            old(self).wf(),
        ensures
            final(self).wf(),
            !final(self).renaming(),
            final(self).rename_from() is None,
            final(self).edit_text() is None,
            final(self).edit_pos() == 0,
            final(self).same_document(old(self)),
            final(self).msg() == old(self).msg(),
            final(self).mode_value() == old(self).mode_value(),
    {
        self.is_renaming_key = false;
        self.rename_original_key = None;
        self.edit_buffer = None;
        self.edit_cursor = 0;
    }

    /// Whether a key is being renamed.
    pub fn is_renaming_key(&self) -> (r: bool)
        ensures
            r == self.renaming(),
    {
        self.is_renaming_key
    }

    /// Gives the entry under the cursor the typed key (see `rename_commit`).
    #[verifier::spinoff_prover]
    #[verifier::rlimit(60)]
    pub fn commit_rename(&mut self) -> (r: Result<(), EditError>)
        requires
            old(self).wf(),
        ensures
            final(self).wf(),
            rename_commit(*old(self), *final(self), r),
    {
        let new_key = match &self.edit_buffer {
            Some(b) => b.clone(),
            None => return Err(EditError::NoEditBuffer),
        };
        if crate::text::char_count(new_key.as_str()) == 0 {
            return Err(EditError::EmptyKey);
        }
        let original = match &self.rename_original_key {
            Some(k) => k.clone(),
            None => return Err(EditError::NoOriginalKey),
        };
        if crate::text::str_eq(new_key.as_str(), original.as_str()) {
            self.cancel_rename();
            return Ok(());
        }
        let cur = path_to_vec(self.cursor.path());
        if cur.len() == 0 {
            return Err(EditError::CannotRenameRoot);
        }
        let k = cur.len() - 1;
        let parent = path_prefix(cur.as_slice(), k);
        assert(parent@ =~= cur@.drop_last());
        let idx = cur[k];
        let result = match self.tree.get_node_mut(parent.as_slice()) {
            None => return Err(EditError::ParentNotFound),
            Some(n) => {
                let slot = n.value_mut();
                let mut val = YamlValue::Null;
                std::mem::swap(&mut val, slot);
                let (nv, res) = rename_in(val, idx, &new_key);
                *slot = nv;
                res
            },
        };
        match result {
            Err(e) => return Err(e),
            Ok(()) => {},
        }
        self.tree_view.rebuild(&self.tree);
        self.checkpoint();
        self.dirty = true;
        let m1 = concat("Renamed '", original.as_str());
        let m2 = concat(m1.as_str(), "' to '");
        let m3 = concat(m2.as_str(), new_key.as_str());
        self.message = Some(crate::editor::state::Message { text: concat(m3.as_str(), "'"), level: MessageLevel::Info });
        self.is_renaming_key = false;
        self.rename_original_key = None;
        self.edit_buffer = None;
        self.edit_cursor = 0;
        Ok(())
    }
}

/// What committing a rename does (see `commit_rename`): the checks on the
/// typed key in order; an unchanged key just ends the rename; else the
/// parent of the cursor node is marked modified and, when it is a mapping
/// without the new key, the entry takes the new key, the document is
/// marked changed, an undo checkpoint is recorded and the rename ends.
pub open spec fn rename_commit(before: EditorState, after: EditorState, r: Result<(), EditError>) -> bool {
    &&& after.cursor_at() == before.cursor_at()
    &&& after.expanded() == before.expanded()
    &&& match (before.edit_text(), before.rename_from()) {
        (None, _) => r == Err::<(), EditError>(EditError::NoEditBuffer) && after.doc() == before.doc(),
        (Some(t), o) => if t.len() == 0 {
            r == Err::<(), EditError>(EditError::EmptyKey) && after.doc() == before.doc()
        } else {
            match o {
                None => r == Err::<(), EditError>(EditError::NoOriginalKey) && after.doc() == before.doc(),
                Some(k0) => if t == k0 {
                    r is Ok && after.doc() == before.doc() && !after.renaming() && after.edit_text() is None
                } else {
                    let cur = before.cursor_at();
                    if cur.len() == 0 {
                        r == Err::<(), EditError>(EditError::CannotRenameRoot) && after.doc() == before.doc()
                    } else {
                        match node_at(before.doc().root, cur.drop_last()) {
                            None => r == Err::<(), EditError>(EditError::ParentNotFound) && after.doc() == before.doc(),
                            Some(p) => {
                                let (v2, res) = rename_model(p.value, cur.last(), t);
                                &&& after.doc() == (TreeModel {
                                    root: update_at(
                                        before.doc().root,
                                        cur.drop_last(),
                                        NodeModel { value: v2, metadata: NodeMetadata { modified: true, ..p.metadata }, ..p },
                                    ),
                                    ..before.doc()
                                })
                                &&& match res {
                                    Err(EditError::KeyExists(_)) => r matches Err(EditError::KeyExists(x)) && x@ == t,
                                    Err(e) => r == Err::<(), EditError>(e),
                                    Ok(_) => {
                                        &&& r is Ok
                                        &&& after.dirty_flag()
                                        &&& after.view_current()
                                        &&& !after.renaming()
                                        &&& after.edit_text() is None
                                        &&& after.msg() == Some(("Renamed '"@ + k0 + "' to '"@ + t + "'"@, MessageLevel::Info))
                                        &&& before.history_len() + 2 < u64::MAX ==> after.history_current()
                                            && after.undo_target() == Some(before.history_doc())
                                    },
                                }
                            },
                        }
                    }
                },
            }
        },
    }
}

/// Inserting `node` at `ip` of `doc` in an add: under the key `key` into a
/// mapping parent (refused when the key is there and `ip` points past the
/// last entry), as an element into a sequence parent; any other parent is
/// refused. The document after and the outcome.
pub open spec fn add_insert(doc: TreeModel, ip: Seq<usize>, node: NodeModel, key: Seq<char>) -> (TreeModel, Result<(), EditError>) {
    match node_at(doc.root, ip.drop_last()) {
        None => (doc, Err(EditError::ParentNotFound)),
        Some(p) => match p.value {
            ValueModel::Array(_) => {
                let (root2, res) = edit_at_model(doc.root, ip.drop_last(), EditModel::InsertElement(ip.last(), node));
                (TreeModel { root: root2, ..doc }, match res { Ok(_) => Ok(()), Err(e) => Err(EditError::Tree(e)) })
            },
            ValueModel::Object(e) => if ip.last() == e.len() && key_position(e, key) is Some {
                (doc, Err(EditError::KeyExists(key_string(key))))
            } else {
                let (root2, res) = edit_at_model(doc.root, ip.drop_last(), EditModel::InsertEntry(ip.last(), key, node));
                (TreeModel { root: root2, ..doc }, match res { Ok(_) => Ok(()), Err(e) => Err(EditError::Tree(e)) })
            },
            _ => (doc, Err(EditError::ParentNotContainer)),
        },
    }
}

/// What committing an add does (see `commit_add_operation`).
pub open spec fn add_commit(before: EditorState, after: EditorState, float_text: Option<Seq<char>>, r: Result<(), EditError>) -> bool {
    if before.add_stage() != AddModeStage::AwaitingValue {
        r == Err::<(), EditError>(EditError::NotAwaitingValue) && after.doc() == before.doc()
    } else {
        match (before.edit_text(), before.add_point()) {
            (None, _) => r == Err::<(), EditError>(EditError::NoEditBuffer) && after.doc() == before.doc(),
            (Some(_), None) => r == Err::<(), EditError>(EditError::NoInsertionPoint) && after.doc() == before.doc(),
            (Some(t), Some(ip)) => if !indices_fit(before.expanded()) {
                r == Err::<(), EditError>(EditError::IndexLimit) && after.doc() == before.doc()
            } else {
                let (doc2, res) = add_insert(before.doc(), ip, fresh_model(scalar_value(t, float_text)), before.key_text());
                &&& after.doc() == doc2
                &&& match res {
                    Err(e) => r matches Err(x) && same_error(x, e),
                    Ok(_) => {
                        &&& r is Ok
                        &&& after.expanded() == expanded_after_insert(before.expanded(), ip)
                        &&& after.cursor_at() == ip
                        &&& after.view_current()
                        &&& after.dirty_flag()
                        &&& after.add_stage() == AddModeStage::Inactive
                        &&& after.add_point() is None
                        &&& after.edit_text() is None
                        &&& after.msg() == Some((
                            if node_at(before.doc().root, ip.drop_last())->0.value is Object {
                                "Added field '"@ + before.key_text() + "'"@
                            } else {
                                "Added element"@
                            },
                            MessageLevel::Info,
                        ))
                        &&& before.history_len() + 2 < u64::MAX ==> after.history_current()
                            && after.undo_target() == Some(before.history_doc())
                    },
                }
            },
        }
    }
}

/// Two errors say the same: equal, or both a taken key with the same text.
pub open spec fn same_error(a: EditError, b: EditError) -> bool {
    match (a, b) {
        (EditError::KeyExists(x), EditError::KeyExists(y)) => x@ == y@,
        _ => a == b,
    }
}

/// A string with the characters `t`.
pub closed spec fn key_string(t: Seq<char>) -> String {
    choose|s: String| s@ == t
}

} // verus!
