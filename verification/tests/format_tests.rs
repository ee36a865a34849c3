use yamlquill::config::Config;
use yamlquill::document::node::{NodeMetadata, TextSpan, YamlNode, YamlNumber, YamlValue};
use yamlquill::document::tree::YamlTree;
use yamlquill::editor::repeat::RepeatableCommand;
use yamlquill::editor::state::EditorState;
use yamlquill::file::saver::{document_text, serialize_preserving_format};

fn int_node(i: i64) -> YamlNode {
    YamlNode::new(YamlValue::Number(YamlNumber::Integer(i)))
}

fn object(entries: Vec<(&str, YamlNode)>) -> YamlNode {
    YamlNode::new(YamlValue::Object(entries.into_iter().map(|(k, v)| (k.to_string(), v)).collect()))
}

fn array(items: Vec<YamlNode>) -> YamlNode {
    YamlNode::new(YamlValue::Array(items))
}

fn loaded(node: YamlNode, start: usize, end: usize) -> YamlNode {
    let mut n = node;
    n.metadata = NodeMetadata { text_span: Some(TextSpan { start, end }), modified: false };
    n
}

fn state_of(root: YamlNode) -> EditorState {
    EditorState::new_with_default_theme(YamlTree::new(root))
}

fn root_items(state: &EditorState) -> Vec<i64> {
    match state.tree().root().value() {
        YamlValue::Array(v) => v
            .iter()
            .map(|n| match n.value() {
                YamlValue::Number(YamlNumber::Integer(i)) => *i,
                _ => panic!("not an integer"),
            })
            .collect(),
        _ => panic!("root is not a sequence"),
    }
}

#[test]
fn test_formatted_text_is_jq_style_with_final_newline() {
    let state = state_of(object(vec![("a", array(vec![int_node(1), int_node(2)]))]));
    assert_eq!(state.formatted_text(), Some("{\n  \"a\": [\n    1,\n    2\n  ]\n}\n".to_string()));
}

#[test]
fn test_formatted_text_of_stream_is_one_line_per_document() {
    let root = YamlNode::new(YamlValue::MultiDoc(vec![
        object(vec![("a", int_node(1))]),
        object(vec![("b", int_node(2))]),
    ]));
    let state = state_of(root);
    assert_eq!(state.formatted_text(), Some("{\"a\":1}\n{\"b\":2}\n".to_string()));
    let empty = state_of(YamlNode::new(YamlValue::MultiDoc(vec![])));
    assert_eq!(empty.formatted_text(), Some("\n".to_string()));
}

#[test]
fn test_reload_tree_resets_state() {
    let mut state = state_of(array(vec![int_node(1), int_node(2)]));
    let _ = state.delete_node_at_cursor();
    assert!(state.is_dirty());
    state.reload_tree(YamlTree::new(array(vec![int_node(7), int_node(8), int_node(9)])));
    assert!(!state.is_dirty());
    assert_eq!(root_items(&state), vec![7, 8, 9]);
    assert_eq!(state.cursor().path(), &[0usize][..]);
}

#[test]
fn test_document_text_stream() {
    let tree = YamlTree::new(YamlNode::new(YamlValue::MultiDoc(vec![
        object(vec![("a", int_node(1))]),
        object(vec![("b", int_node(2))]),
    ])));
    assert_eq!(document_text(&tree, &Config::default()), "{\"a\":1}\n{\"b\":2}\n");
}

#[test]
fn test_document_text_without_source() {
    let tree = YamlTree::new(object(vec![("a", int_node(1))]));
    assert_eq!(document_text(&tree, &Config::default()), "{\"a\": 1}");
}

#[test]
fn test_document_text_keeps_unmodified_source() {
    let original = "a: 1\n";
    let root = loaded(object(vec![("a", loaded(int_node(1), 3, 4))]), 0, 4);
    let tree = YamlTree::with_source(root, Some(original.to_string()));
    assert_eq!(document_text(&tree, &Config::default()), "a: 1\n");
}

#[test]
fn test_preserving_rewrites_only_modified_nodes() {
    let original = "a: 1\n";
    let root = object(vec![("a", loaded(int_node(1), 3, 4)), ("b", YamlNode::new(YamlValue::Boolean(true)))]);
    let config = Config::default();
    assert_eq!(serialize_preserving_format(&root, original, &config, 0), "{\n  \"a\": 1,\n  \"b\": true\n}");
    let tree = YamlTree::with_source(root, Some(original.to_string()));
    assert_eq!(document_text(&tree, &config), "{\n  \"a\": 1,\n  \"b\": true\n}\n");
}

#[test]
fn test_preserving_ignores_a_span_outside_the_source() {
    let node = loaded(int_node(5), 0, 100);
    assert_eq!(serialize_preserving_format(&node, "x", &Config::default(), 0), "5");
}

#[test]
fn test_preserving_slices_by_utf8_offsets() {
    let original = "k: \u{e9}t\u{e9}\n";
    let node = loaded(int_node(5), 3, 8);
    assert_eq!(serialize_preserving_format(&node, original, &Config::default(), 0), "\u{e9}t\u{e9}");
}

#[test]
fn test_preserving_ignores_a_span_inside_a_character() {
    let original = "k: \u{e9}t\u{e9}\n";
    let node = loaded(int_node(5), 4, 8);
    assert_eq!(serialize_preserving_format(&node, original, &Config::default(), 0), "5");
}

#[test]
fn test_preserving_switched_off_serializes() {
    let mut config = Config::default();
    config.preserve_formatting = false;
    let node = loaded(int_node(5), 0, 1);
    assert_eq!(serialize_preserving_format(&node, "x", &config, 0), "5");
}

#[test]
fn test_delete_visual_selection_removes_selected_lines() {
    let mut state = state_of(array(vec![int_node(1), int_node(2), int_node(3)]));
    state.enter_visual_mode();
    state.move_cursor_down();
    state.update_visual_selection();
    assert_eq!(state.visual_selection().len(), 2);
    assert_eq!(state.delete_visual_selection(), Ok(2));
    assert_eq!(root_items(&state), vec![3]);
    assert_eq!(state.cursor().path(), &[0usize][..]);
    assert_eq!(state.get_unnamed_register().nodes.len(), 2);
}

#[test]
fn test_delete_visual_selection_without_selection() {
    let mut state = state_of(array(vec![int_node(1)]));
    assert_eq!(state.delete_visual_selection(), Ok(0));
    assert_eq!(root_items(&state), vec![1]);
}

#[test]
fn test_delete_to_mark_removes_range() {
    let mut state = state_of(array(vec![int_node(1), int_node(2), int_node(3), int_node(4)]));
    assert!(state.delete_to_mark(&[2], 1).is_ok());
    assert_eq!(root_items(&state), vec![4]);
    assert_eq!(state.get_unnamed_register().nodes.len(), 3);
}

#[test]
fn test_repeat_last_command_messages() {
    let mut state = state_of(array(vec![int_node(1), int_node(2), int_node(3)]));
    assert_eq!(state.repeat_last_command(), Err("No command to repeat".to_string()));
    state.set_last_command(RepeatableCommand::Yank { count: 1 });
    assert_eq!(state.repeat_last_command(), Ok("Node yanked".to_string()));
    state.set_last_command(RepeatableCommand::Delete { count: 2 });
    assert_eq!(state.repeat_last_command(), Ok("2 nodes deleted (yanked)".to_string()));
    assert_eq!(root_items(&state), vec![3]);
    state.set_last_command(RepeatableCommand::Rename { new_key: "k".to_string() });
    assert_eq!(state.repeat_last_command(), Err("Cannot repeat rename operation yet".to_string()));
    assert_eq!(root_items(&state), vec![3]);
}
