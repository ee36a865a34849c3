use yamlquill::document::node::{YamlNumber, YamlString, YamlValue};
use yamlquill::document::plain::{convert_value, parse_value, ConvertError, PlainValue};
use yamlquill::document::tree::YamlTree;

fn text(s: &str) -> PlainValue {
    PlainValue::String(s.to_string())
}

fn int_value(i: i64) -> PlainValue {
    PlainValue::Number(Some(i), i.to_string(), format!("{}", i))
}

#[test]
fn test_convert_value_scalars() {
    let n = convert_value(&PlainValue::Null).unwrap();
    assert!(matches!(n.value(), YamlValue::Null));
    assert!(!n.is_modified());
    let n = convert_value(&int_value(7)).unwrap();
    assert!(matches!(n.value(), YamlValue::Number(YamlNumber::Integer(7))));
    let f = PlainValue::Number(None, "2.5".to_string(), "2.5".to_string());
    match convert_value(&f).unwrap().value() {
        YamlValue::Number(YamlNumber::Float(t)) => assert_eq!(t, "2.5"),
        _ => panic!("expected a float"),
    }
    match convert_value(&text("hi")).unwrap().value() {
        YamlValue::String(YamlString::Plain(s)) => assert_eq!(s, "hi"),
        _ => panic!("expected a string"),
    }
}

#[test]
fn test_convert_value_keys_read_as_text() {
    let m = PlainValue::Mapping(vec![
        (PlainValue::Null, int_value(1)),
        (PlainValue::Bool(true), int_value(2)),
        (PlainValue::Number(Some(3), "3".to_string(), "3".to_string()), int_value(3)),
        (text("k"), int_value(4)),
    ]);
    match convert_value(&m).unwrap().value() {
        YamlValue::Object(entries) => {
            let keys: Vec<&str> = entries.iter().map(|(k, _)| k.as_str()).collect();
            assert_eq!(keys, vec!["null", "true", "3", "k"]);
        }
        _ => panic!("expected a mapping"),
    }
}

#[test]
fn test_convert_value_repeated_key_keeps_place_and_last_value() {
    let m = PlainValue::Mapping(vec![(text("a"), int_value(1)), (text("b"), int_value(2)), (text("a"), int_value(3))]);
    match convert_value(&m).unwrap().value() {
        YamlValue::Object(entries) => {
            assert_eq!(entries.len(), 2);
            assert_eq!(entries[0].0, "a");
            assert!(matches!(entries[0].1.value(), YamlValue::Number(YamlNumber::Integer(3))));
            assert_eq!(entries[1].0, "b");
        }
        _ => panic!("expected a mapping"),
    }
}

#[test]
fn test_convert_value_refuses_complex_keys_and_tags() {
    let m = PlainValue::Mapping(vec![(PlainValue::Sequence(vec![int_value(1)]), int_value(2))]);
    assert_eq!(convert_value(&m).err(), Some(ConvertError::ComplexKey));
    let t = PlainValue::Sequence(vec![int_value(1), PlainValue::Tagged("x".to_string())]);
    let e = convert_value(&t).err().unwrap();
    assert_eq!(e, ConvertError::Tagged("x".to_string()));
    assert_eq!(e.message(), "Tagged values are not supported in v1: !x");
    assert_eq!(ConvertError::ComplexKey.message(), "Complex mapping keys are not supported");
}

#[test]
fn test_parse_value_gives_null_when_refused() {
    let n = parse_value(&PlainValue::Tagged("x".to_string()));
    assert!(matches!(n.value(), YamlValue::Null));
    let n = parse_value(&PlainValue::Sequence(vec![int_value(1), int_value(2)]));
    match n.value() {
        YamlValue::Array(items) => assert_eq!(items.len(), 2),
        _ => panic!("expected a sequence"),
    }
}

#[test]
fn test_delete_after_insert_gives_back_the_document() {
    let items = vec![int_value(1), int_value(2)];
    let root = convert_value(&PlainValue::Sequence(items)).unwrap();
    let mut tree = YamlTree::new(root);
    let node = convert_value(&int_value(9)).unwrap();
    assert!(tree.insert_node_in_array(&[1], node).is_ok());
    assert!(tree.delete_node(&[1]).is_ok());
    match tree.root().value() {
        YamlValue::Array(v) => {
            assert_eq!(v.len(), 2);
            assert!(matches!(v[0].value(), YamlValue::Number(YamlNumber::Integer(1))));
            assert!(matches!(v[1].value(), YamlValue::Number(YamlNumber::Integer(2))));
        }
        _ => panic!("expected a sequence"),
    }
}
