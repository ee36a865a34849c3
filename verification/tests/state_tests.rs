use yamlquill::document::node::{YamlNode, YamlNumber, YamlString, YamlValue};
use yamlquill::document::tree::YamlTree;
use yamlquill::editor::mode::EditorMode;
use yamlquill::editor::registers::RegisterContent;
use yamlquill::editor::state::{AddModeStage, EditError, EditorState, MessageLevel, SearchType};

fn plain(s: &str) -> YamlNode {
    YamlNode::new(YamlValue::String(YamlString::Plain(s.to_string())))
}

fn int_node(i: i64) -> YamlNode {
    YamlNode::new(YamlValue::Number(YamlNumber::Integer(i)))
}

fn float_node(t: &str) -> YamlNode {
    YamlNode::new(YamlValue::Number(YamlNumber::Float(t.to_string())))
}

fn object(entries: Vec<(&str, YamlNode)>) -> YamlNode {
    YamlNode::new(YamlValue::Object(entries.into_iter().map(|(k, v)| (k.to_string(), v)).collect()))
}

fn array(items: Vec<YamlNode>) -> YamlNode {
    YamlNode::new(YamlValue::Array(items))
}

fn float_text(s: &str) -> Option<String> {
    s.trim().parse::<f64>().ok().map(|f| f.to_string())
}

fn state_of(root: YamlNode) -> EditorState {
    EditorState::new_with_default_theme(YamlTree::new(root))
}

#[test]
fn test_get_current_path_dot_notation() {
    let tree = object(vec![("users", array(vec![object(vec![("name", plain("Alice"))])]))]);
    let mut state = state_of(tree);
    assert_eq!(state.get_current_path(), "users");
    state.move_cursor_down();
    assert_eq!(state.get_current_path(), "users[0]");
    state.move_cursor_down();
    assert_eq!(state.get_current_path(), "users[0].name");
    state.cursor_mut().set_path(vec![]);
    assert_eq!(state.get_current_path(), "");
}

#[test]
fn test_get_current_path_jsonl() {
    let obj1 = object(vec![("id", float_node(&1.0f64.to_string()))]);
    let obj2 = object(vec![("id", float_node(&2.0f64.to_string()))]);
    let tree = YamlNode::new(YamlValue::MultiDoc(vec![obj1, obj2]));
    let mut state = state_of(tree);
    assert_eq!(state.get_current_path(), "[0]");
    state.toggle_expand_at_cursor();
    state.move_cursor_down();
    assert_eq!(state.get_current_path(), "[0].id");
    state.move_cursor_down();
    assert_eq!(state.get_current_path(), "[1]");
    state.toggle_expand_at_cursor();
    state.move_cursor_down();
    assert_eq!(state.get_current_path(), "[1].id");
}

#[test]
fn test_editor_state_has_registers() {
    let state = state_of(YamlNode::new(YamlValue::Null));
    assert!(state.get_unnamed_register().is_empty());
    assert_eq!(state.get_pending_register(), None);
    assert!(!state.get_append_mode());
}

#[test]
fn test_yank_to_named_register() {
    let mut state = state_of(object(vec![("key", plain("value"))]));
    state.set_pending_register('a', false);
    let result = state.yank_nodes(1);
    assert!(result);
    let reg_a = state.registers().get_named('a').unwrap();
    assert_eq!(reg_a.nodes.len(), 1);
}

#[test]
fn test_paste_from_named_register() {
    let mut state = state_of(array(vec![plain("existing")]));
    state.toggle_expand_at_cursor();
    state.move_cursor_down();
    let content = RegisterContent::new(vec![plain("test")], vec![None]);
    state.registers_mut().set_named('a', content);
    state.set_pending_register('a', false);
    let result = state.paste_nodes_at_cursor();
    assert!(result.is_ok());
}

#[test]
fn test_paste_from_numbered_register() {
    let mut state = state_of(array(vec![plain("existing")]));
    state.toggle_expand_at_cursor();
    state.move_cursor_down();
    let content = RegisterContent::new(vec![float_node(&42.0f64.to_string())], vec![None]);
    state.registers_mut().set_numbered(0, content);
    state.set_pending_register('0', false);
    let result = state.paste_nodes_at_cursor();
    assert!(result.is_ok());
}

#[test]
fn test_delete_pushes_to_history() {
    let mut state = state_of(array(vec![float_node(&1.0f64.to_string()), float_node(&2.0f64.to_string())]));
    state.toggle_expand_at_cursor();
    state.move_cursor_down();
    let _ = state.delete_node_at_cursor();
    let reg_1 = state.registers().get_numbered(1);
    assert_eq!(reg_1.nodes.len(), 1);
}

#[test]
fn test_validation_invalid_number() {
    let node = int_node(42);
    let result = EditorState::validate_edit_input("abc", node.value(), float_text("abc"));
    assert!(result.is_err());
    assert!(result.unwrap_err().message().contains("Invalid number"));
    assert!(EditorState::validate_edit_input("123", node.value(), float_text("123")).is_ok());
    assert!(EditorState::validate_edit_input("45.67", node.value(), float_text("45.67")).is_ok());
}

#[test]
fn test_validation_invalid_boolean() {
    let node = YamlNode::new(YamlValue::Boolean(true));
    let result = EditorState::validate_edit_input("maybe", node.value(), None);
    assert!(result.is_err());
    assert!(result.unwrap_err().message().contains("Invalid boolean"));
    assert!(EditorState::validate_edit_input("true", node.value(), None).is_ok());
    assert!(EditorState::validate_edit_input("false", node.value(), None).is_ok());
}

#[test]
fn validation_alias_and_containers() {
    let alias = YamlNode::new(YamlValue::Alias("a".to_string()));
    assert_eq!(EditorState::validate_edit_input("*", alias.value(), None), Err(EditError::AliasFormat));
    assert_eq!(EditorState::validate_edit_input("x", alias.value(), None), Err(EditError::AliasFormat));
    assert!(EditorState::validate_edit_input("*b", alias.value(), None).is_ok());
    let obj = object(vec![]);
    assert_eq!(EditorState::validate_edit_input("x", obj.value(), None), Err(EditError::CannotEditContainer));
    assert!(EditorState::validate_edit_input("null", obj.value(), None).is_ok());
}

#[test]
fn editing_a_number_keeps_integer_and_float() {
    let mut state = state_of(object(vec![("n", int_node(5))]));
    state.start_editing();
    assert_eq!(state.edit_buffer(), Some("5"));
    state.push_to_edit_buffer('0');
    assert_eq!(state.edit_buffer(), Some("50"));
    assert_eq!(state.commit_editing(float_text("50")), Ok(()));
    assert_eq!(state.tree().get_node(&[0]).unwrap().value(), &YamlValue::Number(YamlNumber::Integer(50)));
    assert!(state.is_dirty());
    assert_eq!(state.edit_buffer(), None);
    state.start_editing();
    state.clear_edit_buffer();
    for c in "2.5".chars() {
        state.push_to_edit_buffer(c);
    }
    assert_eq!(state.commit_editing(float_text("2.5")), Ok(()));
    assert_eq!(
        state.tree().get_node(&[0]).unwrap().value(),
        &YamlValue::Number(YamlNumber::Float("2.5".to_string()))
    );
    assert!(state.undo());
    assert_eq!(state.tree().get_node(&[0]).unwrap().value(), &YamlValue::Number(YamlNumber::Integer(50)));
}

#[test]
fn editing_refuses_bad_text_and_keeps_string_style() {
    let mut state = state_of(object(vec![
        ("b", YamlNode::new(YamlValue::Boolean(true))),
        ("s", YamlNode::new(YamlValue::String(YamlString::Literal("x".to_string())))),
    ]));
    state.start_editing();
    assert_eq!(state.edit_buffer(), Some("true"));
    state.clear_edit_buffer();
    state.push_to_edit_buffer('y');
    match state.commit_editing(None) {
        Err(EditError::InvalidBoolean(t)) => assert_eq!(t, "y"),
        other => panic!("unexpected {:?}", other),
    }
    state.cancel_editing();
    assert_eq!(state.commit_editing(None), Err(EditError::NoEditBuffer));
    state.move_cursor_down();
    state.start_editing();
    state.push_to_edit_buffer('y');
    assert_eq!(state.commit_editing(None), Ok(()));
    assert_eq!(
        state.tree().get_node(&[1]).unwrap().value(),
        &YamlValue::String(YamlString::Literal("xy".to_string()))
    );
    assert!(state.tree().get_node(&[1]).unwrap().is_modified());
}

#[test]
fn edit_buffer_cursor_moves_by_characters() {
    let mut state = state_of(object(vec![("s", plain("aé"))]));
    state.start_editing();
    assert_eq!(state.edit_cursor_position(), 3);
    state.edit_cursor_left();
    assert_eq!(state.edit_cursor_position(), 1);
    state.push_to_edit_buffer('b');
    assert_eq!(state.edit_buffer(), Some("abé"));
    state.edit_cursor_home();
    state.edit_delete_at_cursor();
    assert_eq!(state.edit_buffer(), Some("bé"));
    state.edit_cursor_right();
    state.edit_kill_to_end();
    assert_eq!(state.edit_buffer(), Some("b"));
    state.edit_cursor_end();
    state.pop_from_edit_buffer();
    assert_eq!(state.edit_buffer(), Some(""));
    assert_eq!(state.edit_cursor_position(), 0);
}

#[test]
fn add_value_to_sequence_after_cursor() {
    let mut state = state_of(array(vec![int_node(1), int_node(2)]));
    assert_eq!(state.cursor().path(), &[0]);
    state.start_add_operation();
    assert_eq!(state.add_mode_stage(), &AddModeStage::AwaitingValue);
    assert_eq!(state.mode(), &EditorMode::Insert);
    assert_eq!(state.message().unwrap().text, "-- INSERT --");
    for c in "7".chars() {
        state.push_to_edit_buffer(c);
    }
    assert_eq!(state.commit_add_operation(float_text("7")), Ok(()));
    assert_eq!(state.tree().get_node(&[1]).unwrap().value(), &YamlValue::Number(YamlNumber::Integer(7)));
    assert_eq!(state.cursor().path(), &[1]);
    assert_eq!(state.message().unwrap().text, "Added element");
    assert_eq!(state.add_mode_stage(), &AddModeStage::Inactive);
    assert!(state.is_dirty());
}

#[test]
fn add_entry_to_mapping_asks_for_a_key() {
    let mut state = state_of(object(vec![("a", int_node(1))]));
    state.start_add_operation();
    assert_eq!(state.add_mode_stage(), &AddModeStage::AwaitingKey);
    state.transition_add_to_value();
    assert_eq!(state.message().unwrap().text, "Key cannot be empty");
    for c in "b".chars() {
        state.push_to_add_key_buffer(c);
    }
    assert_eq!(state.add_key_buffer(), "b");
    assert_eq!(state.add_key_cursor_position(), 1);
    state.transition_add_to_value();
    assert_eq!(state.add_mode_stage(), &AddModeStage::AwaitingValue);
    for c in "hello".chars() {
        state.push_to_edit_buffer(c);
    }
    assert_eq!(state.commit_add_operation(None), Ok(()));
    assert_eq!(state.message().unwrap().text, "Added field 'b'");
    assert_eq!(state.get_current_path(), "b");
    assert_eq!(state.tree().get_node(&[1]).unwrap().value(), &YamlValue::String(YamlString::Plain("hello".to_string())));
}

#[test]
fn add_to_scalar_root_is_refused() {
    let mut state = state_of(int_node(3));
    state.cursor_mut().set_path(vec![]);
    state.start_add_operation();
    assert_eq!(state.message().unwrap().text, "Cannot add sibling to root node");
    assert_eq!(state.message().unwrap().level, MessageLevel::Error);
    assert_eq!(state.commit_add_operation(None), Err(EditError::NotAwaitingValue));
}

#[test]
fn add_into_multidoc_root_is_refused_at_commit() {
    let mut state = state_of(YamlNode::new(YamlValue::MultiDoc(vec![object(vec![])])));
    state.cursor_mut().set_path(vec![]);
    state.start_add_operation();
    assert_eq!(state.add_mode_stage(), &AddModeStage::AwaitingValue);
    state.push_to_edit_buffer('1');
    assert_eq!(state.commit_add_operation(float_text("1")), Err(EditError::ParentNotContainer));
}

#[test]
fn add_container_inserts_at_once_in_sequences() {
    let mut state = state_of(array(vec![int_node(1)]));
    state.move_cursor_down();
    state.start_add_container_operation(true);
    assert_eq!(state.message().unwrap().text, "Added empty object");
    assert_eq!(state.tree().get_node(&[1]).unwrap().value(), &YamlValue::Object(vec![]));
    assert_eq!(state.cursor().path(), &[1]);
    state.start_add_container_operation(false);
    assert_eq!(state.add_mode_stage(), &AddModeStage::AwaitingKey);
    assert!(state.has_temp_container());
    state.push_to_add_key_buffer('k');
    assert_eq!(state.commit_container_add(), Ok(()));
    assert_eq!(state.tree().get_node(&[1, 0]).unwrap().value(), &YamlValue::Array(vec![]));
    assert_eq!(state.message().unwrap().text, "Added empty array 'k'");
    assert_eq!(state.cursor().path(), &[1, 0]);
}

#[test]
fn add_container_in_mapping_waits_for_key() {
    let mut state = state_of(object(vec![("a", int_node(1))]));
    state.start_add_container_operation(false);
    assert!(state.has_temp_container());
    assert_eq!(state.commit_container_add(), Err(EditError::EmptyKey));
    assert!(!state.has_temp_container());
    assert_eq!(state.commit_container_add(), Err(EditError::NoContainer));
    state.start_add_container_operation(false);
    state.push_to_add_key_buffer('l');
    assert_eq!(state.commit_container_add(), Ok(()));
    assert_eq!(state.message().unwrap().text, "Added empty array 'l'");
    assert_eq!(state.tree().get_node(&[1]).unwrap().value(), &YamlValue::Array(vec![]));
}

#[test]
fn rename_changes_the_key_in_place() {
    let mut state = state_of(object(vec![("a", int_node(1)), ("b", int_node(2))]));
    state.start_rename_operation();
    assert!(state.is_renaming_key());
    assert_eq!(state.edit_buffer(), Some("a"));
    assert_eq!(state.message().unwrap().text, "-- RENAME --");
    state.clear_edit_buffer();
    state.push_to_edit_buffer('b');
    match state.commit_rename() {
        Err(EditError::KeyExists(k)) => assert_eq!(k, "b"),
        other => panic!("unexpected {:?}", other),
    }
    state.clear_edit_buffer();
    state.push_to_edit_buffer('z');
    assert_eq!(state.commit_rename(), Ok(()));
    assert_eq!(state.message().unwrap().text, "Renamed 'a' to 'z'");
    assert_eq!(state.get_current_path(), "z");
    assert!(!state.is_renaming_key());
    state.move_cursor_down();
    state.cursor_mut().set_path(vec![]);
    state.start_rename_operation();
    assert_eq!(state.message().unwrap().text, "Cannot rename root node");
}

#[test]
fn rename_in_sequence_is_refused() {
    let mut state = state_of(array(vec![int_node(1)]));
    state.move_cursor_down();
    state.start_rename_operation();
    assert_eq!(state.message().unwrap().text, "Can only rename object keys, not array elements");
    assert!(!state.is_renaming_key());
}

#[test]
fn search_is_smart_case_and_wraps() {
    let mut state = state_of(object(vec![
        ("Name", plain("alice")),
        ("other", plain("NAME here")),
        ("n", int_node(3)),
    ]));
    for c in "name".chars() {
        state.push_to_search_buffer(c);
    }
    state.set_search_forward(true);
    state.execute_search();
    assert_eq!(state.search_results_info(), Some((1, 2)));
    assert_eq!(state.cursor().path(), &[0]);
    assert!(matches!(state.search_type(), Some(SearchType::Text)));
    assert_eq!(state.next_search_result(), (true, false));
    assert_eq!(state.cursor().path(), &[1]);
    assert_eq!(state.next_search_result(), (true, true));
    assert_eq!(state.cursor().path(), &[0]);
    state.clear_search_buffer();
    for c in "Name".chars() {
        state.push_to_search_buffer(c);
    }
    state.execute_search();
    assert_eq!(state.search_results_info(), Some((1, 1)));
    state.clear_search_results();
    assert_eq!(state.search_results_info(), None);
    assert_eq!(state.next_search_result(), (false, false));
}

#[test]
fn key_search_finds_the_cursor_key() {
    let mut state = state_of(object(vec![("id", int_node(1)), ("inner", object(vec![("id", int_node(2))]))]));
    assert!(state.execute_key_search(false));
    assert_eq!(state.search_buffer(), "id");
    assert_eq!(state.cursor().path(), &[1, 0]);
    state.cursor_mut().set_path(vec![9]);
    assert!(!state.execute_key_search(true));
    assert_eq!(state.message().unwrap().text, "Not on an object key");
}

#[test]
fn path_strings_in_each_format() {
    let mut state = state_of(object(vec![("a\"b", array(vec![int_node(1)]))]));
    state.cursor_mut().set_path(vec![0, 0]);
    assert_eq!(state.compute_path_string("dot"), Some(".a\"b[0]".to_string()));
    assert_eq!(state.compute_path_string("jq"), Some(".a\"b[0]".to_string()));
    assert_eq!(state.compute_path_string("bracket"), Some("$[\"a\\\"b\"][0]".to_string()));
    assert_eq!(state.compute_path_string("other"), Some("[0]".to_string()));
    assert_eq!(state.yank_path_dot(), Some(".a\"b[0]".to_string()));
    state.set_pending_register('a', false);
    assert_eq!(state.yank_path_bracket(), None);
    state.cursor_mut().set_path(vec![]);
    assert_eq!(state.compute_path_string("bracket"), Some("$".to_string()));
    assert_eq!(state.compute_path_string("dot"), Some(".".to_string()));
    assert_eq!(state.compute_path_string("x"), None);
    state.cursor_mut().set_path(vec![5]);
    assert_eq!(state.compute_path_string("dot"), None);
    assert_eq!(state.get_current_path(), "");
}

#[test]
fn yank_with_count_collects_lines_below() {
    let mut state = state_of(array(vec![int_node(1), int_node(2), int_node(3)]));
    assert!(state.yank_nodes(2));
    assert_eq!(state.cursor().path(), &[0]);
    assert_eq!(state.get_unnamed_register().nodes.len(), 2);
    assert_eq!(state.registers().get_numbered(0).nodes.len(), 2);
    assert!(state.take_pending_clipboard().is_some());
    assert!(state.has_clipboard());
    state.cursor_mut().set_path(vec![7]);
    assert!(!state.yank_nodes(3));
}

#[test]
fn visual_selection_keeps_top_level_paths() {
    let mut state = state_of(object(vec![("a", object(vec![("b", int_node(1))])), ("c", int_node(2))]));
    state.enter_visual_mode();
    assert_eq!(state.mode(), &EditorMode::Visual);
    state.move_cursor_down();
    state.move_cursor_down();
    state.update_visual_selection();
    assert_eq!(state.visual_selection(), &[vec![0], vec![1]]);
    assert_eq!(state.yank_visual_selection(), 2);
    assert_eq!(state.get_unnamed_register().nodes.len(), 2);
    state.exit_visual_mode();
    assert_eq!(state.mode(), &EditorMode::Normal);
    assert!(state.visual_selection().is_empty());
    assert_eq!(state.yank_visual_selection(), 0);
}

#[test]
fn marks_ranges_and_jumps() {
    let mut state = state_of(array(vec![int_node(1), int_node(2), int_node(3)]));
    state.set_mark('a');
    state.record_jump();
    state.jump_to_bottom();
    state.record_jump();
    assert_eq!(state.calculate_range_to_mark(&[0]), Ok(vec![vec![0], vec![1], vec![2]]));
    assert_eq!(state.calculate_range_to_mark(&[9]), Err(EditError::MarkNotShown));
    state.set_pending_register('q', false);
    assert_eq!(state.yank_to_mark(&[0], 1), Ok(()));
    assert_eq!(state.registers().get_named('q').unwrap().nodes.len(), 3);
    assert!(state.jump_backward());
    assert_eq!(state.cursor().path(), &[0]);
    assert!(!state.jump_backward());
    assert!(state.jump_forward());
    assert_eq!(state.cursor().path(), &[2]);
    assert!(state.jump_to_mark('a'));
    assert_eq!(state.cursor().path(), &[0]);
    assert!(!state.jump_to_mark('z'));
}

#[test]
fn tab_completion_cycles_through_candidates() {
    let mut state = state_of(object(vec![]));
    for c in "set re".chars() {
        state.push_to_command_buffer(c);
    }
    state.handle_tab_completion();
    assert_eq!(state.command_buffer(), "set relativenumber");
    state.handle_tab_completion();
    assert_eq!(state.command_buffer(), "set relativenumber");
    state.clear_command_buffer();
    for c in "theme so".chars() {
        state.push_to_command_buffer(c);
    }
    state.handle_tab_completion();
    assert_eq!(state.command_buffer(), "theme solarized-dark");
    state.handle_tab_completion();
    assert_eq!(state.command_buffer(), "theme solarized-light");
    state.handle_tab_completion();
    assert_eq!(state.command_buffer(), "theme solarized-dark");
    state.pop_from_command_buffer();
    assert_eq!(state.command_buffer(), "theme solarized-dar");
    state.set_command_buffer("quit".to_string());
    state.reset_completion();
    state.handle_tab_completion();
    assert_eq!(state.command_buffer(), "quit");
}

#[test]
fn counts_and_pending_state() {
    let mut state = state_of(object(vec![]));
    assert_eq!(state.get_count(), 1);
    state.push_count_digit(4);
    state.push_count_digit(2);
    assert_eq!(state.pending_count(), Some(42));
    for _ in 0..12 {
        state.push_count_digit(9);
    }
    assert_eq!(state.pending_count(), Some(u32::MAX));
    state.set_pending_command('d');
    state.set_pending_register('x', true);
    assert!(state.get_append_mode());
    state.clear_pending();
    assert_eq!(state.pending_command(), None);
    assert_eq!(state.pending_count(), None);
    assert_eq!(state.get_pending_register(), None);
    assert!(!state.get_append_mode());
}

#[test]
fn help_theme_picker_and_settings() {
    let mut state = state_of(object(vec![]));
    state.scroll_help_up();
    assert_eq!(state.help_scroll(), 0);
    state.toggle_help();
    assert!(state.show_help());
    state.scroll_help_down();
    assert_eq!(state.help_scroll(), 1);
    state.open_theme_picker();
    assert!(state.show_theme_picker());
    let start = state.theme_picker_state().unwrap().selected_index;
    assert_eq!(state.theme_picker_state().unwrap().themes[start], "default-dark");
    state.theme_picker_next();
    assert_eq!(state.take_pending_theme(), Some("default-light".to_string()));
    state.theme_picker_cancel();
    assert!(!state.show_theme_picker());
    assert_eq!(state.take_pending_theme(), Some("default-dark".to_string()));
    state.set_show_line_numbers(false);
    state.set_create_backup(true);
    let config = state.to_config();
    assert!(!config.show_line_numbers);
    assert!(config.create_backup);
    assert_eq!(config.theme, "default-dark");
    assert_eq!(config.indent_size, 2);
}

#[test]
fn cursor_blinks_every_fifth_tick() {
    let mut state = state_of(object(vec![]));
    assert!(state.cursor_visible());
    for _ in 0..5 {
        state.update_cursor_blink();
    }
    assert!(!state.cursor_visible());
    state.reset_cursor_blink();
    assert!(state.cursor_visible());
}
