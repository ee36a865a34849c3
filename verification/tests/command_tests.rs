use yamlquill::document::node::{YamlNumber, YamlValue};
use yamlquill::document::parser::{aliases_in_own_document, anchor_names_of, parse_events, parse_yaml_auto, ParseError, ParseEvent};
use yamlquill::input::commands::{command_action, is_builtin_theme, CommandAction, Setting};

#[test]
fn test_command_theme_and_settings() {
    assert_eq!(command_action("theme", false, false), CommandAction::OpenThemePicker);
    assert_eq!(command_action(" theme nord ", false, false), CommandAction::SwitchTheme("nord".to_string()));
    assert_eq!(command_action("theme plaid", false, false), CommandAction::UnknownTheme("plaid".to_string()));
    assert_eq!(command_action("set", false, false), CommandAction::ShowSettings);
    assert_eq!(command_action("set save", false, false), CommandAction::SaveSettings);
    assert_eq!(command_action("set rnu?", false, false), CommandAction::QuerySetting(Setting::RelativeNumber));
    assert_eq!(command_action("set nonu", false, false), CommandAction::ChangeSetting(Setting::Number, false));
    assert_eq!(command_action("set bogus", false, false), CommandAction::UnknownSetting("bogus".to_string()));
}

#[test]
fn test_command_files_and_quit() {
    assert_eq!(command_action("q", true, true), CommandAction::QuitRefused);
    assert_eq!(command_action("q", false, true), CommandAction::Quit);
    assert_eq!(command_action("q!", true, true), CommandAction::Quit);
    assert_eq!(command_action("w", false, false), CommandAction::NoFileToWrite);
    assert_eq!(command_action("w out.yaml", false, false), CommandAction::WriteAs("out.yaml".to_string()));
    assert_eq!(command_action("x", false, true), CommandAction::WriteAndQuit);
    assert_eq!(command_action("e other.yaml", true, true), CommandAction::OpenRefused);
    assert_eq!(command_action("e! other.yaml", true, true), CommandAction::Open("other.yaml".to_string()));
    assert_eq!(command_action("e!", false, false), CommandAction::NoFileToReload);
    assert_eq!(command_action("find  key ", false, false), CommandAction::Find("key".to_string()));
    assert_eq!(command_action("", false, false), CommandAction::Nothing);
    assert_eq!(command_action("zap", false, false), CommandAction::Unknown("zap".to_string()));
}

#[test]
fn test_parse_events_builds_documents() {
    let (events, names) = parse_events("a: &x 1\nb: *x\n").expect("valid YAML");
    assert_eq!(names, vec!["x".to_string()]);
    assert!(events.iter().any(|e| matches!(e, ParseEvent::Alias(1))));
    let root = parse_yaml_auto(&events, names).expect("one document");
    match root.value() {
        YamlValue::Object(entries) => {
            assert_eq!(entries.len(), 2);
            assert!(matches!(entries[0].1.value(), YamlValue::Number(YamlNumber::Integer(1))));
            assert_eq!(entries[0].1.anchor(), Some("x"));
            assert!(matches!(entries[1].1.value(), YamlValue::Alias(n) if n == "x"));
        }
        _ => panic!("root is not a mapping"),
    }
}

#[test]
fn test_parse_events_refuses_bad_yaml() {
    assert_eq!(parse_events("a: [1, 2").err(), Some(ParseError::Syntax));
}

#[test]
fn test_anchor_names_keep_only_anchor_tokens() {
    let toks = vec![None, Some("a".to_string()), None, Some("b".to_string()), None];
    assert_eq!(anchor_names_of(toks), vec!["a".to_string(), "b".to_string()]);
    assert_eq!(anchor_names_of(vec![None, None]), Vec::<String>::new());
}

#[test]
fn test_parse_events_names_anchors_in_order() {
    let (_events, names) = parse_events("a: &first 1\nb: &second 2\nc: *first\n").expect("valid YAML");
    assert_eq!(names, vec!["first".to_string(), "second".to_string()]);
}

#[test]
fn test_alias_to_an_earlier_document_is_refused() {
    assert_eq!(parse_events("a: &x 1\n---\nb: *x\n").err(), Some(ParseError::Syntax));
    let (events, names) = parse_events("a: &x 1\nb: *x\n---\nc: &x 2\nd: *x\n").expect("valid YAML");
    assert_eq!(names.len(), 2);
    assert!(parse_yaml_auto(&events, names).is_ok());
}

#[test]
fn test_aliases_in_own_document_by_numbers() {
    let ok = vec![
        ParseEvent::DocumentStart,
        ParseEvent::SequenceStart(1),
        ParseEvent::Alias(1),
        ParseEvent::SequenceEnd,
        ParseEvent::DocumentEnd,
        ParseEvent::DocumentStart,
        ParseEvent::MappingStart(2),
        ParseEvent::Alias(2),
        ParseEvent::MappingEnd,
    ];
    assert!(aliases_in_own_document(&ok));
    let bad = vec![
        ParseEvent::DocumentStart,
        ParseEvent::SequenceStart(1),
        ParseEvent::SequenceEnd,
        ParseEvent::DocumentEnd,
        ParseEvent::DocumentStart,
        ParseEvent::Alias(1),
    ];
    assert!(!aliases_in_own_document(&bad));
}

#[test]
fn test_builtin_theme_names_are_recognised() {
    assert!(is_builtin_theme("default-dark"));
    assert!(is_builtin_theme("nord"));
    assert!(!is_builtin_theme("plaid"));
}
