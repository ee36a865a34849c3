use yamlquill::document::node::{YamlNode, YamlNumber, YamlString, YamlValue};
use yamlquill::editor::registers::{RegisterContent, RegisterSet};

#[test]
fn test_register_content_new() {
    let node = YamlNode::new(YamlValue::String(YamlString::Plain("test".to_string())));
    let content = RegisterContent::new(vec![node.clone()], vec![None]);

    assert_eq!(content.nodes.len(), 1);
    assert_eq!(content.keys.len(), 1);
}

#[test]
fn test_register_set_new() {
    let regs = RegisterSet::new();
    assert!(regs.get_unnamed().is_empty());
    assert_eq!(regs.get_named('a'), None);
    assert!(regs.get_numbered(0).is_empty());
}

#[test]
fn test_register_set_named() {
    let mut regs = RegisterSet::new();
    let node = YamlNode::new(YamlValue::Number(YamlNumber::Float(42.0f64.to_string())));
    let content = RegisterContent::new(vec![node.clone()], vec![None]);

    regs.set_named('a', content.clone());

    let retrieved = regs.get_named('a').unwrap();
    assert_eq!(retrieved.nodes.len(), 1);
}

#[test]
fn test_register_set_unnamed() {
    let mut regs = RegisterSet::new();
    let node = YamlNode::new(YamlValue::Boolean(true));
    let content = RegisterContent::new(vec![node.clone()], vec![None]);

    regs.set_unnamed(content.clone());

    let retrieved = regs.get_unnamed();
    assert_eq!(retrieved.nodes.len(), 1);
}

#[test]
fn test_register_set_numbered() {
    let mut regs = RegisterSet::new();
    let node = YamlNode::new(YamlValue::Null);
    let content = RegisterContent::new(vec![node.clone()], vec![None]);

    regs.set_numbered(5, content.clone());

    let retrieved = regs.get_numbered(5);
    assert_eq!(retrieved.nodes.len(), 1);
}

#[test]
fn test_register_numbered_valid_range() {
    let mut regs = RegisterSet::new();
    let node = YamlNode::new(YamlValue::String(YamlString::Plain("test".to_string())));
    let content = RegisterContent::new(vec![node.clone()], vec![None]);

    // Test all valid indices 0-9
    for i in 0..10 {
        regs.set_numbered(i, content.clone());
        let retrieved = regs.get_numbered(i);
        assert_eq!(retrieved.nodes.len(), 1);
    }
}

#[test]
fn test_register_append_named() {
    let mut regs = RegisterSet::new();
    let node1 = YamlNode::new(YamlValue::Number(YamlNumber::Float(1.0f64.to_string())));
    let node2 = YamlNode::new(YamlValue::Number(YamlNumber::Float(2.0f64.to_string())));

    regs.set_named('a', RegisterContent::new(vec![node1.clone()], vec![None]));
    regs.append_named('a', RegisterContent::new(vec![node2.clone()], vec![None]));

    let retrieved = regs.get_named('a').unwrap();
    assert_eq!(retrieved.nodes.len(), 2);
}

#[test]
fn test_register_push_delete_history() {
    let mut regs = RegisterSet::new();
    let node1 = YamlNode::new(YamlValue::Number(YamlNumber::Float(1.0f64.to_string())));
    let node2 = YamlNode::new(YamlValue::Number(YamlNumber::Float(2.0f64.to_string())));
    let node3 = YamlNode::new(YamlValue::Number(YamlNumber::Float(3.0f64.to_string())));

    regs.push_delete_history(RegisterContent::new(vec![node1.clone()], vec![None]));
    regs.push_delete_history(RegisterContent::new(vec![node2.clone()], vec![None]));
    regs.push_delete_history(RegisterContent::new(vec![node3.clone()], vec![None]));

    // "1 should have most recent (node3)
    assert_eq!(regs.get_numbered(1).nodes.len(), 1);
    // "2 should have node2
    assert_eq!(regs.get_numbered(2).nodes.len(), 1);
}

#[test]
fn test_register_update_yank_register() {
    let mut regs = RegisterSet::new();
    let node = YamlNode::new(YamlValue::Boolean(true));
    let content = RegisterContent::new(vec![node.clone()], vec![None]);

    regs.update_yank_register(content.clone());

    // "0 should have the yanked content
    assert_eq!(regs.get_numbered(0).nodes.len(), 1);
}

#[test]
fn test_register_get_unified() {
    let mut regs = RegisterSet::new();
    let node1 = YamlNode::new(YamlValue::Number(YamlNumber::Float(1.0f64.to_string())));
    let node2 = YamlNode::new(YamlValue::Number(YamlNumber::Float(2.0f64.to_string())));

    // Set a named register
    regs.set_named('a', RegisterContent::new(vec![node1.clone()], vec![None]));

    // Set a numbered register
    regs.set_numbered(5, RegisterContent::new(vec![node2.clone()], vec![None]));

    // Test get() for named register
    let retrieved_a = regs.get('a').unwrap();
    assert_eq!(retrieved_a.nodes.len(), 1);

    // Test get() for numbered register
    let retrieved_5 = regs.get('5').unwrap();
    assert_eq!(retrieved_5.nodes.len(), 1);

    // Test get() for non-existent named register
    assert!(regs.get('z').is_none());
}

#[test]
fn test_register_delete_history_shifts_contents() {
    let mut regs = RegisterSet::new();
    for i in 1..=10i64 {
        let node = YamlNode::new(YamlValue::Number(YamlNumber::Integer(i)));
        regs.push_delete_history(RegisterContent::new(vec![node], vec![None]));
    }
    // "1 holds the newest delete, "9 the oldest still kept
    assert_eq!(
        regs.get_numbered(1).nodes[0].value,
        YamlValue::Number(YamlNumber::Integer(10))
    );
    assert_eq!(
        regs.get_numbered(9).nodes[0].value,
        YamlValue::Number(YamlNumber::Integer(2))
    );
    assert!(regs.get_numbered(0).is_empty());
}

#[test]
fn test_register_append_keeps_order() {
    let mut regs = RegisterSet::new();
    let a = YamlNode::new(YamlValue::Boolean(true));
    let b = YamlNode::new(YamlValue::Null);
    regs.append_named('q', RegisterContent::new(vec![a], vec![Some("k".to_string())]));
    regs.append_named('q', RegisterContent::new(vec![b], vec![None]));
    let r = regs.get_named('q').unwrap();
    assert_eq!(r.nodes[0].value, YamlValue::Boolean(true));
    assert_eq!(r.nodes[1].value, YamlValue::Null);
    assert_eq!(r.keys, vec![Some("k".to_string()), None]);
}
