use yamlquill::document::node::{NodeMetadata, TextSpan, YamlNode, YamlNumber, YamlString, YamlValue};
use yamlquill::document::tree::YamlTree;

#[test]
fn test_text_span_creation() {
    let span = TextSpan { start: 10, end: 25 };
    assert_eq!(span.start, 10);
    assert_eq!(span.end, 25);
}

#[test]
fn test_text_span_equality() {
    let span1 = TextSpan { start: 5, end: 10 };
    let span2 = TextSpan { start: 5, end: 10 };
    let span3 = TextSpan { start: 5, end: 11 };

    assert_eq!(span1, span2);
    assert_ne!(span1, span3);
}

#[test]
fn test_text_span_clone() {
    let span1 = TextSpan { start: 0, end: 100 };
    let span2 = span1;

    assert_eq!(span1, span2);
}

#[test]
fn test_node_metadata_with_text_span() {
    let metadata = NodeMetadata {
        text_span: Some(TextSpan { start: 0, end: 10 }),
        modified: false,
    };

    assert!(metadata.text_span.is_some());
    assert_eq!(metadata.text_span.unwrap().start, 0);
    assert_eq!(metadata.text_span.unwrap().end, 10);
    assert!(!metadata.modified);
}

#[test]
fn test_node_metadata_without_text_span() {
    let metadata = NodeMetadata {
        text_span: None,
        modified: true,
    };

    assert!(metadata.text_span.is_none());
    assert!(metadata.modified);
}

#[test]
fn test_tree_with_original_source() {
    let root = YamlNode::new(YamlValue::String(YamlString::Plain("test".to_string())));
    let tree = YamlTree::with_source(root.clone(), Some("\"test\"".to_string()));

    assert_eq!(tree.original_source(), Some("\"test\""));
}

#[test]
fn test_tree_without_original_source() {
    let root = YamlNode::new(YamlValue::Null);
    let tree = YamlTree::new(root);

    assert_eq!(tree.original_source(), None);
}

#[test]
fn test_get_parent_path() {
    let tree = YamlTree::new(YamlNode::new(YamlValue::Null));

    assert_eq!(tree.get_parent_path("$"), None);
    assert_eq!(tree.get_parent_path("name"), None);
    assert_eq!(
        tree.get_parent_path("config.timeout"),
        Some("config".to_string())
    );
    assert_eq!(tree.get_parent_path("users[0]"), Some("users".to_string()));
    assert_eq!(
        tree.get_parent_path("users[0].name"),
        Some("users[0]".to_string())
    );
}

#[test]
fn test_get_depth() {
    let tree = YamlTree::new(YamlNode::new(YamlValue::Null));

    assert_eq!(tree.get_depth("$"), 0);
    assert_eq!(tree.get_depth("name"), 0);
    assert_eq!(tree.get_depth("config.timeout"), 1);
    assert_eq!(tree.get_depth("users[0].name"), 2);
}

fn int_node(i: i64) -> YamlNode {
    YamlNode::new(YamlValue::Number(YamlNumber::Integer(i)))
}

fn plain(s: &str) -> YamlNode {
    YamlNode::new(YamlValue::String(YamlString::Plain(s.to_string())))
}

#[test]
fn test_get_node_mut_changes_the_node_in_place() {
    let mut tree = YamlTree::new(YamlNode::new(YamlValue::Object(vec![
        ("a".to_string(), YamlNode::new(YamlValue::Array(vec![int_node(1), int_node(2)]))),
        ("b".to_string(), plain("x")),
    ])));
    {
        let node = tree.get_node_mut(&[0, 1]).expect("node at [0, 1]");
        node.value = YamlValue::Boolean(true);
    }
    assert_eq!(tree.get_node(&[0, 1]).unwrap().value, YamlValue::Boolean(true));
    assert_eq!(tree.get_node(&[0, 0]).unwrap().value, YamlValue::Number(YamlNumber::Integer(1)));
    assert!(tree.get_node_mut(&[2]).is_none());
    assert!(tree.get_node_mut(&[1, 0]).is_none());
}

#[test]
fn test_delete_then_insert_restores_the_array() {
    let mut tree = YamlTree::new(YamlNode::new(YamlValue::Array(vec![int_node(1), int_node(2), int_node(3)])));
    tree.delete_node(&[1]).unwrap();
    assert_eq!(tree.root().value.child_count(), 2);
    tree.insert_node_in_array(&[1], int_node(2)).unwrap();
    for (i, v) in [1, 2, 3].iter().enumerate() {
        assert_eq!(tree.get_node(&[i]).unwrap().value, YamlValue::Number(YamlNumber::Integer(*v)));
    }
}

#[test]
fn test_delete_root_is_refused() {
    let mut tree = YamlTree::new(YamlNode::new(YamlValue::Null));
    let err = tree.delete_node(&[]).unwrap_err();
    assert_eq!(err.message(), "Cannot delete root node");
}

#[test]
fn test_parent_path_drops_last_segment() {
    let tree = YamlTree::new(YamlNode::new(YamlValue::Null));
    assert_eq!(tree.get_parent_path("config.items[0]"), Some("config.items".to_string()));
    assert_eq!(tree.get_parent_path("[0]"), None);
}

#[test]
fn test_get_node_mut_marks_node_modified() {
    let mut child = YamlNode::new(YamlValue::Boolean(true));
    child.metadata = NodeMetadata { text_span: None, modified: false };
    let mut tree = YamlTree::new(YamlNode::new(YamlValue::Array(vec![child])));
    assert!(!tree.get_node(&[0]).unwrap().is_modified());
    assert!(tree.get_node_mut(&[0]).is_some());
    assert!(tree.get_node(&[0]).unwrap().is_modified());
    assert!(matches!(tree.get_node(&[0]).unwrap().value(), YamlValue::Boolean(true)));
}
