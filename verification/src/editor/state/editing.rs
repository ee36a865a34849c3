//! Editing a scalar in place: the value editor opens on the node's text,
//! and committing checks the text against the node's type and writes the
//! new value.

use vstd::prelude::*;
use crate::document::edit::update_at;
use crate::document::node::{node_at, NodeMetadata, NodeModel, StrStyle, ValueModel, YamlNumber, YamlString, YamlValue};
use crate::document::tree::TreeModel;
use crate::editor::scalar::{parse_i64, parse_i64_spec};
use crate::editor::state::{EditError, EditorState};
use crate::text::{char_count, format_i64, skip_chars, str_eq, str_to_string, int_text};
use crate::ui::preview::{bool_text, format_bool};

verus! {

/// The text the value editor opens with for a scalar.
pub open spec fn start_text(v: ValueModel) -> Option<Seq<char>> {
    match v {
        ValueModel::Str(_, t) => Some(t),
        ValueModel::Int(i) => Some(int_text(i as int)),
        ValueModel::Float(t) => Some(t),
        ValueModel::Bool(b) => Some(bool_text(b)),
        ValueModel::Null => Some("null"@),
        ValueModel::Alias(n) => Some(seq!['*'] + n),
        _ => None,
    }
}

/// What checking a typed text against a value's type finds.
pub enum EditCheck {
    Valid,
    BadNumber,
    BadBoolean,
    BadAlias,
    Container,
}

/// Whether `text` may replace a value like `v`: `null` always may; a number
/// needs an integer or (`float_ok`) a floating-point text; a boolean needs
/// `true` or `false`; an alias needs `*` and a name; strings and null take
/// anything; containers are not edited as text.
pub open spec fn edit_check(text: Seq<char>, v: ValueModel, float_ok: bool) -> EditCheck {
    if text == "null"@ {
        EditCheck::Valid
    } else {
        match v {
            ValueModel::Int(_) | ValueModel::Float(_) => if parse_i64_spec(text) is None && !float_ok {
                EditCheck::BadNumber
            } else {
                EditCheck::Valid
            },
            ValueModel::Bool(_) => if text != "true"@ && text != "false"@ {
                EditCheck::BadBoolean
            } else {
                EditCheck::Valid
            },
            ValueModel::Alias(_) => if text.len() < 2 || text[0] != '*' {
                EditCheck::BadAlias
            } else {
                EditCheck::Valid
            },
            ValueModel::Str(_, _) | ValueModel::Null => EditCheck::Valid,
            _ => EditCheck::Container,
        }
    }
}

/// The result that reports check `c` on `text`.
pub open spec fn check_result(r: Result<(), EditError>, c: EditCheck, text: Seq<char>) -> bool {
    match c {
        EditCheck::Valid => r is Ok,
        EditCheck::BadNumber => r matches Err(EditError::InvalidNumber(s)) && s@ == text,
        EditCheck::BadBoolean => r matches Err(EditError::InvalidBoolean(s)) && s@ == text,
        EditCheck::BadAlias => r matches Err(EditError::AliasFormat),
        EditCheck::Container => r matches Err(EditError::CannotEditContainer),
    }
}

/// The value written for `text` in place of a value like `v` (when
/// `edit_check` lets it): `null` gives null; a string keeps its style; a
/// number is an integer when the text is one, else the floating-point
/// number whose display text is `float_text`; a boolean is `true` or
/// `false`; an alias names the text after `*`.
pub open spec fn edited_value(text: Seq<char>, v: ValueModel, float_text: Option<Seq<char>>) -> ValueModel {
    if text == "null"@ {
        ValueModel::Null
    } else {
        match v {
            ValueModel::Str(style, _) => ValueModel::Str(style, text),
            ValueModel::Int(_) | ValueModel::Float(_) => match parse_i64_spec(text) {
                Some(i) => ValueModel::Int(i),
                None => ValueModel::Float(float_text->0),
            },
            ValueModel::Bool(_) => ValueModel::Bool(text == "true"@),
            ValueModel::Alias(_) => ValueModel::Alias(text.skip(1)),
            _ => ValueModel::Null,
        }
    }
}

/// The text the value editor opens with for `v` (see `start_text`).
fn opening_text(v: &YamlValue) -> (r: Option<String>)
    ensures
        match start_text(v@) {
            Some(t) => r matches Some(s) && s@ == t,
            None => r is None,
        },
{
    proof {
        crate::document::node::reveal_views(v);
    }
    match v {
        YamlValue::String(s) => {
            let r = str_to_string(s.as_str());
            assert(v@ == ValueModel::Str(s.style(), s.text()));
            Some(r)
        },
        YamlValue::Number(YamlNumber::Integer(i)) => Some(format_i64(*i)),
        YamlValue::Number(YamlNumber::Float(t)) => Some(t.clone()),
        YamlValue::Boolean(b) => Some(format_bool(*b)),
        YamlValue::Null => {
            let r = str_to_string("null");
            proof {
                reveal_strlit("null");
            }
            Some(r)
        },
        YamlValue::Alias(name) => {
            let mut t = str_to_string("*");
            crate::text::push_str(&mut t, name.as_str());
            proof {
                reveal_strlit("*");
            }
            assert(t@ =~= seq!['*'] + name@);
            Some(t)
        },
        _ => None,
    }
}

/// What committing the value editor does (see
/// `EditorState::commit_editing`).
pub open spec fn edit_commit(s0: EditorState, s1: EditorState, float_text: Option<String>, r: Result<(), EditError>) -> bool {
    &&& s1.cursor_at() == s0.cursor_at()
    &&& s1.expanded() == s0.expanded()
    &&& match s0.edit_text() {
            None => r matches Err(EditError::NoEditBuffer) && s1.doc() == s0.doc(),
            Some(t) => match node_at(s0.doc().root, s0.cursor_at()) {
                None => r matches Err(EditError::NoNodeAtCursor) && s1.doc() == s0.doc(),
                Some(n) => {
                    let c = edit_check(t, n.value, float_text is Some);
                    if !(c is Valid) {
                        check_result(r, c, t) && s1.doc() == s0.doc()
                    } else {
                        &&& r is Ok
                        &&& s1.doc() == (TreeModel {
                            root: update_at(
                                s0.doc().root,
                                s0.cursor_at(),
                                NodeModel {
                                    value: edited_value(t, n.value, crate::document::parser::opt_view(float_text)),
                                    metadata: NodeMetadata { modified: true, ..n.metadata },
                                    ..n
                                },
                            ),
                            ..s0.doc()
                        })
                        &&& s1.edit_text() is None
                        &&& s1.dirty_flag()
                        &&& s1.view_current()
                        &&& s0.history_len() + 2 < u64::MAX ==> s1.history_current()
                            && s1.undo_target() == Some(s0.history_doc())
                    }
                },
            },
        }
}

impl EditorState {
    /// Opens the value editor on the scalar under the cursor, with the
    /// scalar's text and the cursor at its end; on a container or where no
    /// node is, nothing happens.
    pub fn start_editing(&mut self)
        requires
            old(self).wf(),
        ensures
            final(self).wf(),
            match node_at(old(self).doc().root, old(self).cursor_at()) {
                Some(n) => match start_text(n.value) {
                    Some(t) => final(self).edit_text() == Some(t) && final(self).edit_pos() == t.len()
                        && final(self).blink() == (true, 0u8),
                    None => final(self).edit_text() == old(self).edit_text() && final(self).edit_pos() == old(
                        self,
                    ).edit_pos(),
                },
                None => final(self).edit_text() == old(self).edit_text() && final(self).edit_pos() == old(
                    self,
                ).edit_pos(),
            },
            final(self).same_document(old(self)),
            final(self).msg() == old(self).msg(),
            final(self).mode_value() == old(self).mode_value(),
            final(self).add_stage() == old(self).add_stage(),
    {
        let text = match self.tree.get_node(self.cursor.path()) {
            Some(node) => {
                proof {
                    crate::document::node::lemma_node_value_view(*node);
                }
                opening_text(node.value())
            },
            None => None,
        };
        match text {
            Some(t) => {
                let n = char_count(t.as_str());
                self.edit_buffer = Some(t);
                self.edit_cursor = n;
                self.reset_cursor_blink();
            },
            None => {},
        }
    }

    /// Checks `buffer` as a replacement for `original_value` (see
    /// `edit_check`); `float_text` is the display text of `buffer` read as
    /// a floating-point number, when it reads as one.
    pub fn validate_edit_input(buffer: &str, original_value: &YamlValue, float_text: Option<String>) -> (r: Result<(), EditError>)
        ensures
            check_result(r, edit_check(buffer@, original_value@, float_text is Some), buffer@),
    {
        proof {
            reveal_strlit("null");
            reveal_strlit("true");
            reveal_strlit("false");
            crate::document::node::reveal_views(original_value);
        }
        if str_eq(buffer, "null") {
            return Ok(());
        }
        match original_value {
            YamlValue::Number(_) => {
                if parse_i64(buffer).is_none() && float_text.is_none() {
                    return Err(EditError::InvalidNumber(str_to_string(buffer)));
                }
                Ok(())
            },
            YamlValue::Boolean(_) => {
                if !str_eq(buffer, "true") && !str_eq(buffer, "false") {
                    return Err(EditError::InvalidBoolean(str_to_string(buffer)));
                }
                Ok(())
            },
            YamlValue::Alias(_) => {
                let chars = crate::text::chars_of(buffer);
                if chars.len() < 2 || chars[0] != '*' {
                    return Err(EditError::AliasFormat);
                }
                Ok(())
            },
            YamlValue::String(_) | YamlValue::Null => Ok(()),
            _ => Err(EditError::CannotEditContainer),
        }
    }

    /// Closes the value editor without writing anything.
    pub fn cancel_editing(&mut self)
        requires
            old(self).wf(),
        ensures
            final(self).wf(),
            final(self).edit_text() is None,
            final(self).edit_pos() == 0,
            final(self).same_document(old(self)),
            final(self).msg() == old(self).msg(),
            final(self).mode_value() == old(self).mode_value(),
            final(self).add_stage() == old(self).add_stage(),
            final(self).key_text() == old(self).key_text(),
    {
        self.edit_buffer = None;
        self.edit_cursor = 0;
    }

    /// Writes the typed value into the scalar under the cursor, after
    /// checking it (see `edit_check`, `edited_value`); `float_text` is the
    /// display text of the typed value read as a floating-point number, when
    /// it reads as one. The node is marked modified, the value editor
    /// closes, the document is marked changed and an undo checkpoint is
    /// recorded.
    pub fn commit_editing(&mut self, float_text: Option<String>) -> (r: Result<(), EditError>)
        requires
            old(self).wf(),
        ensures
            final(self).wf(),
            edit_commit(*old(self), *final(self), float_text, r),
    {
        let text = match &self.edit_buffer {
            Some(b) => b.clone(),
            None => return Err(EditError::NoEditBuffer),
        };
        let path = crate::paths::path_to_vec(self.cursor.path());
        let new_value = match self.tree.get_node(path.as_slice()) {
            Some(node) => {
                proof {
                    crate::document::node::lemma_node_value_view(*node);
                }
                let float_ok = float_text.is_some();
                match EditorState::validate_edit_input(text.as_str(), node.value(), float_text.clone()) {
                    Err(e) => return Err(e),
                    Ok(()) => {},
                }
                edited(text.as_str(), node.value(), float_text)
            },
            None => return Err(EditError::NoNodeAtCursor),
        };
        let ghost n0 = node_at(self.doc().root, path@)->0;
        let ghost nv = new_value@;
        let ghost t = text@;
        assert(old(self).edit_text() == Some(t));
        assert(edit_check(t, n0.value, float_text is Some) is Valid);
        assert(nv == edited_value(t, n0.value, crate::document::parser::opt_view(float_text)));
        match self.tree.get_node_mut(path.as_slice()) {
            Some(n) => {
                *n.value_mut() = new_value;
            },
            None => {
                proof {
                    assert(false);
                }
            },
        }
        assert(self.doc() == (TreeModel {
            root: update_at(
                old(self).doc().root,
                old(self).cursor_at(),
                NodeModel { value: nv, metadata: NodeMetadata { modified: true, ..n0.metadata }, ..n0 },
            ),
            ..old(self).doc()
        }));
        self.tree_view.rebuild(&self.tree);
        self.checkpoint();
        self.edit_buffer = None;
        self.dirty = true;
        Ok(())
    }
}

/// The value written for `text` in place of `v` (see `edited_value`).
fn edited(text: &str, v: &YamlValue, float_text: Option<String>) -> (r: YamlValue)
    requires
        edit_check(text@, v@, float_text is Some) is Valid,
    ensures
        r@ == edited_value(text@, v@, crate::document::parser::opt_view(float_text)),
{
    proof {
        reveal_strlit("null");
        reveal_strlit("true");
        crate::document::node::reveal_views(v);
    }
    if str_eq(text, "null") {
        return YamlValue::Null;
    }
    match v {
        YamlValue::String(s) => {
            let t = str_to_string(text);
            match s {
                YamlString::Plain(_) => YamlValue::String(YamlString::Plain(t)),
                YamlString::Literal(_) => YamlValue::String(YamlString::Literal(t)),
                YamlString::Folded(_) => YamlValue::String(YamlString::Folded(t)),
            }
        },
        YamlValue::Number(_) => match parse_i64(text) {
            Some(i) => YamlValue::Number(YamlNumber::Integer(i)),
            None => match float_text {
                Some(f) => YamlValue::Number(YamlNumber::Float(f)),
                None => YamlValue::Null,
            },
        },
        YamlValue::Boolean(_) => YamlValue::Boolean(str_eq(text, "true")),
        YamlValue::Alias(_) => YamlValue::Alias(skip_chars(text, 1)),
        _ => YamlValue::Null,
    }
}

} // verus!
