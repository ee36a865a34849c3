use yamlquill::document::node::{YamlNumber, YamlString, YamlValue};
use yamlquill::editor::scalar::{parse_i64, parse_scalar_value, parse_scalar_value_for_test, trim_text};
use yamlquill::editor::state::{AddModeStage, MessageLevel, SearchType, ThemePickerState};

fn float_text(s: &str) -> Option<String> {
    s.trim().parse::<f64>().ok().map(|f| f.to_string())
}

#[test]
fn test_parse_scalar_keywords() {
    assert_eq!(parse_scalar_value(" true ", float_text(" true ")), YamlValue::Boolean(true));
    assert_eq!(parse_scalar_value("false", float_text("false")), YamlValue::Boolean(false));
    assert_eq!(parse_scalar_value("null", float_text("null")), YamlValue::Null);
}

#[test]
fn test_parse_scalar_numbers() {
    assert_eq!(
        parse_scalar_value("42", float_text("42")),
        YamlValue::Number(YamlNumber::Integer(42))
    );
    assert_eq!(
        parse_scalar_value(" -17\t", float_text(" -17\t")),
        YamlValue::Number(YamlNumber::Integer(-17))
    );
    assert_eq!(
        parse_scalar_value("3.14", float_text("3.14")),
        YamlValue::Number(YamlNumber::Float("3.14".to_string()))
    );
    assert_eq!(
        parse_scalar_value_for_test("1e3", float_text("1e3")),
        YamlValue::Number(YamlNumber::Float("1000".to_string()))
    );
}

#[test]
fn test_parse_scalar_strings_keep_the_input() {
    assert_eq!(
        parse_scalar_value(" hello ", float_text(" hello ")),
        YamlValue::String(YamlString::Plain(" hello ".to_string()))
    );
    assert_eq!(
        parse_scalar_value("", float_text("")),
        YamlValue::String(YamlString::Plain("".to_string()))
    );
}

#[test]
fn test_parse_i64_edges() {
    assert_eq!(parse_i64("9223372036854775807"), Some(i64::MAX));
    assert_eq!(parse_i64("-9223372036854775808"), Some(i64::MIN));
    assert_eq!(parse_i64("9223372036854775808"), None);
    assert_eq!(parse_i64("-9223372036854775809"), None);
    assert_eq!(parse_i64("+5"), Some(5));
    assert_eq!(parse_i64("-"), None);
    assert_eq!(parse_i64("+"), None);
    assert_eq!(parse_i64(""), None);
    assert_eq!(parse_i64("12a"), None);
    assert_eq!(parse_i64("0000000000000000000000000042"), Some(42));
    assert_eq!(parse_i64(" 1"), None);
    for s in ["0", "-0", "123456789", "-98765", "+00"] {
        assert_eq!(parse_i64(s), s.parse::<i64>().ok());
    }
}

#[test]
fn test_trim_text_matches_str_trim() {
    for s in ["  a b  ", "\u{3000}x\u{a0}", "\n\t", "", "none"] {
        assert_eq!(trim_text(s), s.trim());
    }
}

#[test]
fn test_theme_picker_state_selects_current_theme() {
    let picker = ThemePickerState::new("nord".to_string());
    assert_eq!(picker.themes[picker.selected_index], "nord");
    assert_eq!(picker.original_theme, "nord");
    assert_eq!(picker.current_theme, "nord");
    let unknown = ThemePickerState::new("no-such-theme".to_string());
    assert_eq!(unknown.selected_index, 0);
    assert_eq!(unknown.themes.len(), 15);
}

#[test]
fn test_state_enums() {
    assert_ne!(MessageLevel::Info, MessageLevel::Error);
    assert_ne!(AddModeStage::Inactive, AddModeStage::AwaitingKey);
    assert_eq!(SearchType::YamlPath("$.a".to_string()), SearchType::YamlPath("$.a".to_string()));
    assert_ne!(SearchType::Text, SearchType::YamlPath(String::new()));
}
