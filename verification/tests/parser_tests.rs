use yamlquill::document::node::{YamlNumber, YamlString, YamlValue};
use yamlquill::document::parser::{build_documents, documents_to_root, ParseError, ParseEvent, ScalarStyle, TreeBuilder};

fn scalar(s: &str) -> ParseEvent {
    let float_text = s.parse::<f64>().ok().map(|f| f.to_string());
    ParseEvent::Scalar(s.to_string(), ScalarStyle::Plain, 0, float_text)
}

#[test]
fn test_builder_mapping_with_alias_and_anchor() {
    // defaults: &config {timeout: 30}
    // api: *config
    let events = vec![
        ParseEvent::StreamStart,
        ParseEvent::DocumentStart,
        ParseEvent::MappingStart(0),
        scalar("defaults"),
        ParseEvent::MappingStart(1),
        scalar("timeout"),
        scalar("30"),
        ParseEvent::MappingEnd,
        scalar("api"),
        ParseEvent::Alias(1),
        ParseEvent::MappingEnd,
        ParseEvent::DocumentEnd,
        ParseEvent::StreamEnd,
    ];
    let docs = build_documents(&events, vec!["config".to_string()]);
    assert_eq!(docs.len(), 1);
    let root = documents_to_root(docs).unwrap();
    assert!(!root.is_modified());
    match &root.value {
        YamlValue::Object(entries) => {
            assert_eq!(entries.len(), 2);
            assert_eq!(entries[0].0, "defaults");
            assert_eq!(entries[0].1.anchor, Some("config".to_string()));
            assert_eq!(entries[1].0, "api");
            assert_eq!(entries[1].1.value, YamlValue::Alias("config".to_string()));
            assert_eq!(entries[1].1.alias_target, Some("config".to_string()));
            match &entries[0].1.value {
                YamlValue::Object(inner) => {
                    assert_eq!(inner[0].0, "timeout");
                    assert_eq!(inner[0].1.value, YamlValue::Number(YamlNumber::Integer(30)));
                }
                _ => panic!("expected a mapping"),
            }
        }
        _ => panic!("expected a mapping"),
    }
}

#[test]
fn test_builder_scalars_and_duplicate_keys() {
    let events = vec![
        ParseEvent::DocumentStart,
        ParseEvent::MappingStart(0),
        scalar("a"),
        scalar("1.5"),
        scalar("b"),
        scalar(""),
        scalar("a"),
        scalar("hello"),
        ParseEvent::MappingEnd,
    ];
    let docs = build_documents(&events, vec![]);
    match &docs[0].value {
        YamlValue::Object(entries) => {
            assert_eq!(entries.len(), 2);
            assert_eq!(entries[0].0, "a");
            assert_eq!(
                entries[0].1.value,
                YamlValue::String(YamlString::Plain("hello".to_string()))
            );
            assert_eq!(entries[1].1.value, YamlValue::Null);
        }
        _ => panic!("expected a mapping"),
    }
}

#[test]
fn test_builder_multiple_documents_and_unknown_alias() {
    let events = vec![
        ParseEvent::DocumentStart,
        ParseEvent::SequenceStart(0),
        scalar("true"),
        scalar("2.5"),
        ParseEvent::SequenceEnd,
        ParseEvent::DocumentEnd,
        ParseEvent::DocumentStart,
        ParseEvent::Alias(7),
        ParseEvent::DocumentEnd,
    ];
    let docs = build_documents(&events, vec![]);
    assert_eq!(docs.len(), 2);
    assert_eq!(docs[1].value, YamlValue::Alias("unknown_7".to_string()));
    match &docs[0].value {
        YamlValue::Array(v) => {
            assert_eq!(v[0].value, YamlValue::Boolean(true));
            assert_eq!(v[1].value, YamlValue::Number(YamlNumber::Float("2.5".to_string())));
        }
        _ => panic!("expected a sequence"),
    }
    let root = documents_to_root(docs).unwrap();
    assert!(matches!(root.value, YamlValue::MultiDoc(ref d) if d.len() == 2));
}

#[test]
fn test_no_documents_is_an_error() {
    let docs = build_documents(&vec![ParseEvent::StreamStart, ParseEvent::StreamEnd], vec![]);
    let err = documents_to_root(docs).unwrap_err();
    assert_eq!(err, ParseError::NoDocuments);
    assert_eq!(err.message(), "No YAML documents found");
}

#[test]
fn test_builder_anchor_lookup() {
    let b = TreeBuilder::new(vec!["x".to_string(), "y".to_string()]);
    assert_eq!(b.get_anchor_name(0), None);
    assert_eq!(b.get_anchor_name(2), Some("y".to_string()));
    assert_eq!(b.get_anchor_name(3), None);
}
