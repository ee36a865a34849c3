use yamlquill::document::node::{YamlNode, YamlNumber, YamlString, YamlValue};
use yamlquill::file::saver::{
    escape_yaml_string, serialize_node, serialize_node_compact, serialize_node_jq_style,
};

#[test]
fn test_serialize_null() {
    let node = YamlNode::new(YamlValue::Null);
    let result = serialize_node(&node, 2, 0);
    assert_eq!(result, "null");
}

#[test]
fn test_serialize_boolean() {
    let node = YamlNode::new(YamlValue::Boolean(true));
    let result = serialize_node(&node, 2, 0);
    assert_eq!(result, "true");

    let node = YamlNode::new(YamlValue::Boolean(false));
    let result = serialize_node(&node, 2, 0);
    assert_eq!(result, "false");
}

#[test]
fn test_serialize_number() {
    let node = YamlNode::new(YamlValue::Number(YamlNumber::Float(42.0f64.to_string())));
    let result = serialize_node(&node, 2, 0);
    assert_eq!(result, "42");

    let node = YamlNode::new(YamlValue::Number(YamlNumber::Float(2.5f64.to_string())));
    let result = serialize_node(&node, 2, 0);
    assert_eq!(result, "2.5");
}

#[test]
fn test_serialize_string() {
    let node = YamlNode::new(YamlValue::String(YamlString::Plain("hello".to_string())));
    let result = serialize_node(&node, 2, 0);
    assert_eq!(result, "\"hello\"");
}

#[test]
fn test_serialize_empty_object() {
    let node = YamlNode::new(YamlValue::Object(vec![]));
    let result = serialize_node(&node, 2, 0);
    assert_eq!(result, "{}");
}

#[test]
fn test_serialize_empty_array() {
    let node = YamlNode::new(YamlValue::Array(vec![]));
    let result = serialize_node(&node, 2, 0);
    assert_eq!(result, "[]");
}

#[test]
fn test_serialize_simple_object() {
    let obj = vec![(
        "name".to_string(),
        YamlNode::new(YamlValue::String(YamlString::Plain("Alice".to_string()))),
    )];
    let node = YamlNode::new(YamlValue::Object(obj));
    let result = serialize_node(&node, 2, 0);
    // Small scalar objects use compact formatting
    assert_eq!(result, "{\"name\": \"Alice\"}");
}

#[test]
fn test_serialize_simple_array() {
    let arr = vec![
        YamlNode::new(YamlValue::Number(YamlNumber::Float(1.0f64.to_string()))),
        YamlNode::new(YamlValue::Number(YamlNumber::Float(2.0f64.to_string()))),
        YamlNode::new(YamlValue::Number(YamlNumber::Float(3.0f64.to_string()))),
    ];
    let node = YamlNode::new(YamlValue::Array(arr));
    let result = serialize_node(&node, 2, 0);
    // Small scalar arrays use compact formatting
    assert_eq!(result, "[1, 2, 3]");
}

#[test]
fn test_serialize_nested_object() {
    let inner = vec![("age".to_string(), YamlNode::new(YamlValue::Number(YamlNumber::Float(30.0f64.to_string()))))];
    let outer = vec![("user".to_string(), YamlNode::new(YamlValue::Object(inner)))];
    let node = YamlNode::new(YamlValue::Object(outer));
    let result = serialize_node(&node, 2, 0);
    // Inner object with single scalar value uses compact formatting
    assert_eq!(result, "{\n  \"user\": {\"age\": 30}\n}");
}

#[test]
fn test_escape_yaml_string() {
    assert_eq!(escape_yaml_string("hello"), "hello");
    assert_eq!(escape_yaml_string("hello\"world"), "hello\\\"world");
    assert_eq!(escape_yaml_string("hello\\world"), "hello\\\\world");
    assert_eq!(escape_yaml_string("hello\nworld"), "hello\\nworld");
    assert_eq!(escape_yaml_string("hello\tworld"), "hello\\tworld");
    assert_eq!(escape_yaml_string("hello\rworld"), "hello\\rworld");
}

#[test]
fn test_compact_array_with_scalars() {
    let arr = vec![
        YamlNode::new(YamlValue::Number(YamlNumber::Float(1.0f64.to_string()))),
        YamlNode::new(YamlValue::String(YamlString::Plain("test".to_string()))),
        YamlNode::new(YamlValue::Boolean(true)),
        YamlNode::new(YamlValue::Null),
    ];
    let node = YamlNode::new(YamlValue::Array(arr));
    let result = serialize_node(&node, 2, 0);
    assert_eq!(result, "[1, \"test\", true, null]");
}

#[test]
fn test_compact_object_with_scalars() {
    let obj = vec![
        ("a".to_string(), YamlNode::new(YamlValue::Number(YamlNumber::Float(1.0f64.to_string())))),
        (
            "b".to_string(),
            YamlNode::new(YamlValue::String(YamlString::Plain("test".to_string()))),
        ),
        ("c".to_string(), YamlNode::new(YamlValue::Boolean(false))),
    ];
    let node = YamlNode::new(YamlValue::Object(obj));
    let result = serialize_node(&node, 2, 0);
    assert_eq!(result, "{\"a\": 1, \"b\": \"test\", \"c\": false}");
}

#[test]
fn test_nested_containers_use_multiline() {
    // Array containing an object should use multi-line formatting
    let inner = vec![(
        "key".to_string(),
        YamlNode::new(YamlValue::String(YamlString::Plain("value".to_string()))),
    )];
    let arr = vec![YamlNode::new(YamlValue::Object(inner))];
    let node = YamlNode::new(YamlValue::Array(arr));
    let result = serialize_node(&node, 2, 0);
    assert!(
        result.contains('\n'),
        "Nested containers should use multi-line formatting"
    );
}

#[test]
fn test_long_compact_array_uses_multiline() {
    // Create an array that would exceed 80 characters in compact format
    let arr: Vec<YamlNode> = (0..30)
        .map(|i| YamlNode::new(YamlValue::Number(YamlNumber::Float((i as f64).to_string()))))
        .collect();
    let node = YamlNode::new(YamlValue::Array(arr));
    let result = serialize_node(&node, 2, 0);
    // Should fall back to multi-line because compact would be > 80 chars
    assert!(
        result.contains('\n'),
        "Long arrays should use multi-line formatting"
    );
}


fn int_node(i: i64) -> YamlNode {
    YamlNode::new(YamlValue::Number(YamlNumber::Integer(i)))
}

#[test]
fn test_escape_control_characters() {
    assert_eq!(escape_yaml_string("a\u{8}b\u{c}c"), "a\\bb\\fc");
    assert_eq!(escape_yaml_string("\u{1}"), "\\u0001");
    assert_eq!(escape_yaml_string("\u{9f}x"), "\\u009fx");
    assert_eq!(escape_yaml_string("é✓"), "é✓");
}

#[test]
fn test_jq_style_is_always_multiline() {
    let node = YamlNode::new(YamlValue::Array(vec![int_node(1), int_node(2)]));
    assert_eq!(serialize_node_jq_style(&node, 2, 0), "[\n  1,\n  2\n]");
    let empty = YamlNode::new(YamlValue::Object(vec![]));
    assert_eq!(serialize_node_jq_style(&empty, 2, 0), "{}");
}

#[test]
fn test_compact_serialization() {
    let node = YamlNode::new(YamlValue::Object(vec![
        ("a".to_string(), YamlNode::new(YamlValue::Array(vec![int_node(1), int_node(2)]))),
        ("b".to_string(), YamlNode::new(YamlValue::String(YamlString::Plain("x\"y".to_string())))),
        ("c".to_string(), YamlNode::new(YamlValue::Null)),
    ]));
    assert_eq!(serialize_node_compact(&node), "{\"a\":[1,2],\"b\":\"x\\\"y\",\"c\":null}");
}

#[test]
fn test_nested_indentation_depth() {
    let inner = YamlNode::new(YamlValue::Array(vec![YamlNode::new(YamlValue::Object(vec![]))]));
    let node = YamlNode::new(YamlValue::Object(vec![("k".to_string(), inner)]));
    assert_eq!(serialize_node(&node, 4, 0), "{\n    \"k\": [\n        {}\n    ]\n}");
}

#[test]
fn test_compact_limit_is_eighty_bytes() {
    // 26 elements "1, " style: "[0, 1, ..., 25]" is 90 bytes: over the limit
    let arr: Vec<YamlNode> = (0..26).map(int_node).collect();
    assert!(serialize_node(&YamlNode::new(YamlValue::Array(arr)), 2, 0).contains('\n'));
    let arr: Vec<YamlNode> = (0..20).map(int_node).collect();
    let out = serialize_node(&YamlNode::new(YamlValue::Array(arr)), 2, 0);
    assert!(!out.contains('\n'));
    assert!(out.len() <= 80);
}
