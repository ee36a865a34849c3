use yamlquill::document::node::{YamlNode, YamlNumber, YamlString, YamlValue};
use yamlquill::document::tree::YamlTree;
use yamlquill::ui::tree_view::{format_collapsed_preview, TreeViewState, ValueType};

#[test]
fn test_value_type_from_json() {
    assert_eq!(
        ValueType::from_yaml_value(&YamlValue::Object(Vec::new())),
        ValueType::Object
    );
    assert_eq!(
        ValueType::from_yaml_value(&YamlValue::Array(vec![])),
        ValueType::Array
    );
    assert_eq!(
        ValueType::from_yaml_value(&YamlValue::String(YamlString::Plain("x".to_string()))),
        ValueType::String
    );
    assert_eq!(
        ValueType::from_yaml_value(&YamlValue::Number(YamlNumber::Integer(42))),
        ValueType::Number
    );
    assert_eq!(
        ValueType::from_yaml_value(&YamlValue::Boolean(true)),
        ValueType::Boolean
    );
    assert_eq!(
        ValueType::from_yaml_value(&YamlValue::Null),
        ValueType::Null
    );
}

#[test]
fn test_tree_view_state_creation() {
    let state = TreeViewState::new();
    assert_eq!(state.lines().len(), 0);
}

#[test]
fn test_rebuild_with_flat_object() {
    let tree = YamlTree::new(YamlNode::new(YamlValue::Object(
        vec![
            (
                "name".to_string(),
                YamlNode::new(YamlValue::String(YamlString::Plain("Alice".to_string()))),
            ),
            (
                "age".to_string(),
                YamlNode::new(YamlValue::Number(YamlNumber::Integer(30))),
            ),
        ]
        .into_iter()
        .collect(),
    )));

    let mut state = TreeViewState::new();
    state.rebuild(&tree);

    assert_eq!(state.lines().len(), 2);
    assert_eq!(state.lines()[0].key, Some("name".to_string()));
    assert_eq!(state.lines()[0].depth, 0);
    assert_eq!(state.lines()[1].key, Some("age".to_string()));
}

#[test]
fn test_rebuild_with_array() {
    let tree = YamlTree::new(YamlNode::new(YamlValue::Array(vec![
        YamlNode::new(YamlValue::Number(YamlNumber::Integer(1))),
        YamlNode::new(YamlValue::Number(YamlNumber::Integer(2))),
    ])));

    let mut state = TreeViewState::new();
    state.rebuild(&tree);

    assert_eq!(state.lines().len(), 2);
    assert_eq!(state.lines()[0].key, Some("[0]".to_string()));
    assert_eq!(state.lines()[0].value_preview, "1");
    assert_eq!(state.lines()[1].key, Some("[1]".to_string()));
    assert_eq!(state.lines()[1].value_preview, "2");
}

#[test]
fn test_toggle_expand() {
    let mut state = TreeViewState::new();
    let path = vec![0];

    assert!(!state.is_expanded(&path));
    state.toggle_expand(&path);
    assert!(state.is_expanded(&path));
    state.toggle_expand(&path);
    assert!(!state.is_expanded(&path));
}

#[test]
fn test_nested_object_collapsed() {
    let tree = YamlTree::new(YamlNode::new(YamlValue::Object(
        vec![(
            "user".to_string(),
            YamlNode::new(YamlValue::Object(
                vec![(
                    "name".to_string(),
                    YamlNode::new(YamlValue::String(YamlString::Plain("Bob".to_string()))),
                )]
                .into_iter()
                .collect(),
            )),
        )]
        .into_iter()
        .collect(),
    )));

    let mut state = TreeViewState::new();
    state.rebuild(&tree);

    // Should only show the "user" field, not its children (not expanded)
    assert_eq!(state.lines().len(), 1);
    assert_eq!(state.lines()[0].key, Some("user".to_string()));
    assert!(state.lines()[0].expandable);
}

#[test]
fn test_nested_object_expanded() {
    let tree = YamlTree::new(YamlNode::new(YamlValue::Object(
        vec![(
            "user".to_string(),
            YamlNode::new(YamlValue::Object(
                vec![(
                    "name".to_string(),
                    YamlNode::new(YamlValue::String(YamlString::Plain("Bob".to_string()))),
                )]
                .into_iter()
                .collect(),
            )),
        )]
        .into_iter()
        .collect(),
    )));

    let mut state = TreeViewState::new();
    state.toggle_expand(&[0]); // Expand "user"
    state.rebuild(&tree);

    // Should show both "user" and "user.name"
    assert_eq!(state.lines().len(), 2);
    assert_eq!(state.lines()[0].key, Some("user".to_string()));
    assert_eq!(state.lines()[0].depth, 0);
    assert_eq!(state.lines()[1].key, Some("name".to_string()));
    assert_eq!(state.lines()[1].depth, 1);
}

#[test]
fn test_value_preview() {
    let state = TreeViewState::new();

    // Scalars still use simple format
    assert_eq!(
        state.get_value_preview(&YamlValue::String(YamlString::Plain("test".to_string()))),
        "\"test\""
    );
    assert_eq!(
        state.get_value_preview(&YamlValue::Number(YamlNumber::Float(std::f64::consts::PI.to_string()))),
        std::f64::consts::PI.to_string()
    );
    assert_eq!(state.get_value_preview(&YamlValue::Boolean(true)), "true");
    assert_eq!(state.get_value_preview(&YamlValue::Null), "null");

    // Containers are now handled by format_collapsed_preview in build_lines
    // so get_value_preview is only used for expanded containers (which show nothing)
    // or for scalars
}

#[test]
fn test_format_collapsed_preview_simple_object() {

    let obj = YamlNode::new(YamlValue::Object(
        vec![
            (
                "id".to_string(),
                YamlNode::new(YamlValue::Number(YamlNumber::Integer(1))),
            ),
            (
                "name".to_string(),
                YamlNode::new(YamlValue::String(YamlString::Plain("Alice".to_string()))),
            ),
        ]
        .into_iter()
        .collect(),
    ));

    let preview = format_collapsed_preview(&obj, 100);
    assert_eq!(preview, "(2) {id: 1, name: \"Alice\"}");
}

#[test]
fn test_format_collapsed_preview_nested_object() {

    let obj = YamlNode::new(YamlValue::Object(
        vec![
            (
                "id".to_string(),
                YamlNode::new(YamlValue::Number(YamlNumber::Integer(1))),
            ),
            (
                "user".to_string(),
                YamlNode::new(YamlValue::Object(
                    vec![(
                        "name".to_string(),
                        YamlNode::new(YamlValue::String(YamlString::Plain(
                            "Alice".to_string(),
                        ))),
                    )]
                    .into_iter()
                    .collect(),
                )),
            ),
        ]
        .into_iter()
        .collect(),
    ));

    let preview = format_collapsed_preview(&obj, 100);
    assert_eq!(preview, "(2) {id: 1, user: {…}}");
}

#[test]
fn test_format_collapsed_preview_array() {

    let arr = YamlNode::new(YamlValue::Array(vec![
        YamlNode::new(YamlValue::Number(YamlNumber::Integer(1))),
        YamlNode::new(YamlValue::Number(YamlNumber::Integer(2))),
        YamlNode::new(YamlValue::Number(YamlNumber::Integer(3))),
    ]));

    let preview = format_collapsed_preview(&arr, 100);
    assert_eq!(preview, "(3) [1, 2, 3]");
}

#[test]
fn test_format_collapsed_preview_truncation() {

    let obj = YamlNode::new(YamlValue::Object(
        vec![
            (
                "id".to_string(),
                YamlNode::new(YamlValue::Number(YamlNumber::Integer(1))),
            ),
            (
                "name".to_string(),
                YamlNode::new(YamlValue::String(YamlString::Plain("Alice".to_string()))),
            ),
            (
                "email".to_string(),
                YamlNode::new(YamlValue::String(YamlString::Plain(
                    "alice@example.com".to_string(),
                ))),
            ),
            (
                "active".to_string(),
                YamlNode::new(YamlValue::Boolean(true)),
            ),
        ]
        .into_iter()
        .collect(),
    ));

    let preview = format_collapsed_preview(&obj, 40);
    assert!(preview.len() <= 43); // Allow a bit of overflow for "..."
    assert!(preview.contains("..."));
}

#[test]
fn test_format_collapsed_preview_utf8_truncation() {

    // Test with multi-byte UTF-8 characters (emoji, Chinese, etc.)
    let obj = YamlNode::new(YamlValue::Object(
        vec![
            (
                "emoji".to_string(),
                YamlNode::new(YamlValue::String(YamlString::Plain(
                    "🌟✨🎉🎊🎈".to_string(),
                ))),
            ),
            (
                "chinese".to_string(),
                YamlNode::new(YamlValue::String(YamlString::Plain(
                    "你好世界这是一个很长的字符串".to_string(),
                ))),
            ),
        ]
        .into_iter()
        .collect(),
    ));

    // This should not panic even with multi-byte characters
    let preview = format_collapsed_preview(&obj, 40);
    assert!(preview.contains("..."));

    // Test array with UTF-8 strings
    let arr = YamlNode::new(YamlValue::Array(vec![
        YamlNode::new(YamlValue::String(YamlString::Plain(
            "🌟✨🎉🎊🎈🎁🎀🎂".to_string(),
        ))),
        YamlNode::new(YamlValue::String(YamlString::Plain(
            "你好世界这是一个很长的字符串".to_string(),
        ))),
    ]));

    // This should also not panic
    let preview = format_collapsed_preview(&arr, 40);
    assert!(preview.contains("..."));
}

#[test]
fn test_render_multidoc_root() {

    let lines = vec![
        YamlNode::new(YamlValue::Object(
            vec![(
                "id".to_string(),
                YamlNode::new(YamlValue::Number(YamlNumber::Integer(1))),
            )]
            .into_iter()
            .collect(),
        )),
        YamlNode::new(YamlValue::Object(
            vec![(
                "id".to_string(),
                YamlNode::new(YamlValue::Number(YamlNumber::Integer(2))),
            )]
            .into_iter()
            .collect(),
        )),
    ];

    let tree = YamlTree::new(YamlNode::new(YamlValue::MultiDoc(lines)));
    let mut state = TreeViewState::new();
    state.rebuild(&tree);

    // Should have 2 lines, both collapsed
    assert_eq!(state.lines().len(), 2);
    assert!(state.lines()[0].value_preview.contains("id: 1"));
    assert_eq!(state.lines()[0].depth, 0);
    assert!(state.lines()[0].expandable);
    assert!(!state.lines()[0].expanded);
}

#[test]
fn test_expand_jsonl_line() {

    let lines = vec![YamlNode::new(YamlValue::Object(
        vec![
            (
                "id".to_string(),
                YamlNode::new(YamlValue::Number(YamlNumber::Integer(1))),
            ),
            (
                "name".to_string(),
                YamlNode::new(YamlValue::String(YamlString::Plain("Alice".to_string()))),
            ),
        ]
        .into_iter()
        .collect(),
    ))];

    let tree = YamlTree::new(YamlNode::new(YamlValue::MultiDoc(lines)));
    let mut state = TreeViewState::new();
    state.rebuild(&tree);

    // Initially collapsed
    assert_eq!(state.lines().len(), 1);

    // Expand first line
    state.toggle_expand(&[0]);
    state.rebuild(&tree);

    // Should now show 3 lines: object + 2 fields
    assert!(state.lines().len() > 1);
    assert_eq!(state.lines()[0].depth, 0); // The multi-document YAML line itself
    assert!(state.lines()[0].expanded);
}

#[test]
fn test_update_paths_after_deletion() {

    // Create array with 4 objects
    let _tree = YamlTree::new(YamlNode::new(YamlValue::Array(vec![
        YamlNode::new(YamlValue::Object(
            vec![(
                "name".to_string(),
                YamlNode::new(YamlValue::String(YamlString::Plain("Alice".to_string()))),
            )]
            .into_iter()
            .collect(),
        )),
        YamlNode::new(YamlValue::Object(
            vec![(
                "name".to_string(),
                YamlNode::new(YamlValue::String(YamlString::Plain("Bob".to_string()))),
            )]
            .into_iter()
            .collect(),
        )),
        YamlNode::new(YamlValue::Object(
            vec![(
                "name".to_string(),
                YamlNode::new(YamlValue::String(YamlString::Plain("Charlie".to_string()))),
            )]
            .into_iter()
            .collect(),
        )),
        YamlNode::new(YamlValue::Object(
            vec![(
                "name".to_string(),
                YamlNode::new(YamlValue::String(YamlString::Plain("Dave".to_string()))),
            )]
            .into_iter()
            .collect(),
        )),
    ])));

    let mut state = TreeViewState::new();

    // Expand objects at [0, 1], [0, 2], and [0, 3]
    state.toggle_expand(&[0, 1]);
    state.toggle_expand(&[0, 2]);
    state.toggle_expand(&[0, 3]);

    assert!(state.is_expanded(&[0, 1]));
    assert!(state.is_expanded(&[0, 2]));
    assert!(state.is_expanded(&[0, 3]));

    // Delete node at [0, 1] (Bob)
    state.update_paths_after_deletion(&[0, 1]);

    // [0, 2] (Charlie) should now be at [0, 1] and still expanded
    assert!(state.is_expanded(&[0, 1]));

    // [0, 3] should now be at [0, 2] (Dave shifted down)
    assert!(state.is_expanded(&[0, 2]));

    // Old paths should not exist
    assert!(!state.is_expanded(&[0, 3]));
}

#[test]
fn test_deletion_preserves_sibling_expansion() {

    // Create nested structure where we'll delete one object but others should stay expanded
    let mut tree = YamlTree::new(YamlNode::new(YamlValue::Object(
        vec![
            (
                "item1".to_string(),
                YamlNode::new(YamlValue::Object(
                    vec![(
                        "nested".to_string(),
                        YamlNode::new(YamlValue::Number(YamlNumber::Integer(1))),
                    )]
                    .into_iter()
                    .collect(),
                )),
            ),
            (
                "item2".to_string(),
                YamlNode::new(YamlValue::Object(
                    vec![(
                        "nested".to_string(),
                        YamlNode::new(YamlValue::Number(YamlNumber::Integer(2))),
                    )]
                    .into_iter()
                    .collect(),
                )),
            ),
            (
                "item3".to_string(),
                YamlNode::new(YamlValue::Object(
                    vec![(
                        "nested".to_string(),
                        YamlNode::new(YamlValue::Number(YamlNumber::Integer(3))),
                    )]
                    .into_iter()
                    .collect(),
                )),
            ),
        ]
        .into_iter()
        .collect(),
    )));

    let mut state = TreeViewState::new();

    // Expand root and all items
    state.toggle_expand(&[]);
    state.toggle_expand(&[0]);
    state.toggle_expand(&[1]);
    state.toggle_expand(&[2]);
    state.rebuild(&tree);

    // Verify all are expanded
    assert!(state.is_expanded(&[]));
    assert!(state.is_expanded(&[0]));
    assert!(state.is_expanded(&[1]));
    assert!(state.is_expanded(&[2]));

    // Delete item2 at index [1]
    tree.delete_node(&[1]).unwrap();
    state.update_paths_after_deletion(&[1]);
    state.rebuild(&tree);

    // Root should still be expanded
    assert!(state.is_expanded(&[]));

    // item1 at [0] should still be expanded (unaffected)
    assert!(state.is_expanded(&[0]));

    // item3 was at [2], now should be at [1] and still expanded
    assert!(state.is_expanded(&[1]));

    // Old path [2] should not be expanded
    assert!(!state.is_expanded(&[2]));
}

fn int_node(i: i64) -> YamlNode {
    YamlNode::new(YamlValue::Number(YamlNumber::Integer(i)))
}

fn obj(entries: Vec<(&str, YamlNode)>) -> YamlNode {
    YamlNode::new(YamlValue::Object(
        entries.into_iter().map(|(k, v)| (k.to_string(), v)).collect(),
    ))
}

#[test]
fn test_expand_all_and_collapse_descendants() {
    let tree = YamlTree::new(obj(vec![
        ("a", obj(vec![("b", YamlNode::new(YamlValue::Array(vec![int_node(1)])))])),
        ("c", int_node(2)),
    ]));
    let mut state = TreeViewState::new();
    state.expand_all(&tree);
    assert!(state.is_expanded(&[0]));
    assert!(state.is_expanded(&[0, 0]));
    assert!(!state.is_expanded(&[1]));
    assert!(!state.is_expanded(&[]));
    state.rebuild(&tree);
    let keys: Vec<Option<String>> = state.lines().iter().map(|l| l.key.clone()).collect();
    assert_eq!(
        keys,
        vec![
            Some("a".to_string()),
            Some("b".to_string()),
            Some("[0]".to_string()),
            Some("c".to_string())
        ]
    );
    assert_eq!(state.lines()[2].depth, 2);
    assert_eq!(state.lines()[2].path, vec![0, 0, 0]);

    state.collapse_node_and_descendants(&tree, &[0]);
    assert!(!state.is_expanded(&[0]));
    assert!(!state.is_expanded(&[0, 0]));

    state.expand_node_and_descendants(&tree, &[0]);
    assert!(state.is_expanded(&[0]));
    assert!(state.is_expanded(&[0, 0]));
}

#[test]
fn test_insertion_then_deletion_restores_expanded_paths() {
    let mut state = TreeViewState::new();
    state.toggle_expand(&[0, 1]);
    state.toggle_expand(&[0, 3, 2]);
    state.toggle_expand(&[1]);
    state.update_paths_after_insertion(&[0, 1]);
    assert!(state.is_expanded(&[0, 2]));
    assert!(state.is_expanded(&[0, 4, 2]));
    assert!(state.is_expanded(&[1]));
    assert!(!state.is_expanded(&[0, 1]));
    state.update_paths_after_deletion(&[0, 1]);
    assert!(state.is_expanded(&[0, 1]));
    assert!(state.is_expanded(&[0, 3, 2]));
    assert!(state.is_expanded(&[1]));
    assert!(!state.is_expanded(&[0, 2]));
}

#[test]
fn test_deletion_forgets_the_deleted_subtree() {
    let mut state = TreeViewState::new();
    state.toggle_expand(&[2]);
    state.toggle_expand(&[2, 0]);
    state.toggle_expand(&[3]);
    state.update_paths_after_deletion(&[2]);
    assert!(state.is_expanded(&[2]));
    assert!(!state.is_expanded(&[2, 0]));
    assert!(!state.is_expanded(&[3]));
}

#[test]
fn test_block_string_previews() {
    let state = TreeViewState::new();
    assert_eq!(
        state.get_value_preview(&YamlValue::String(YamlString::Literal("one\r\ntwo".to_string()))),
        "| one..."
    );
    assert_eq!(
        state.get_value_preview(&YamlValue::String(YamlString::Folded("only\n".to_string()))),
        "> only"
    );
    assert_eq!(
        state.get_value_preview(&YamlValue::String(YamlString::Literal(String::new()))),
        "| "
    );
    assert_eq!(state.get_value_preview(&YamlValue::Alias("base".to_string())), "*base");
    assert_eq!(state.get_value_preview(&YamlValue::Array(vec![int_node(1), int_node(2)])), "[ 2 items ]");
    assert_eq!(state.get_value_preview(&YamlValue::Object(vec![])), "{ 0 fields }");
    assert_eq!(state.get_value_preview(&YamlValue::Number(YamlNumber::Integer(-7))), "-7");
}

#[test]
fn test_collapsed_preview_exact_truncation() {
    let node = obj(vec![
        ("id", int_node(1)),
        ("name", YamlNode::new(YamlValue::String(YamlString::Plain("Alice".to_string())))),
        ("email", YamlNode::new(YamlValue::String(YamlString::Plain("alice@example.com".to_string())))),
        ("active", YamlNode::new(YamlValue::Boolean(true))),
    ]);
    assert_eq!(
        format_collapsed_preview(&node, 40),
        "(4) {id: 1, name: \"Alice\", ..."
    );
    let long = YamlNode::new(YamlValue::Array(vec![YamlNode::new(YamlValue::String(
        YamlString::Plain("abcdefghijklmnopqrstuvwxyz".to_string()),
    ))]));
    assert_eq!(format_collapsed_preview(&long, 20), "(1) [\"abcdefghij...\"]");
    assert_eq!(format_collapsed_preview(&YamlNode::new(YamlValue::Array(vec![])), 40), "[…]");
    assert_eq!(format_collapsed_preview(&obj(vec![]), 40), "{…}");
}
