use yamlquill::config::Config;
use yamlquill::file::loader::determine_jsonl_format;
use yamlquill::theme::list_builtin_themes;

#[test]
fn test_preserve_formatting_default() {
    let config = Config::default();
    assert!(config.preserve_formatting);
}

#[test]
fn mod_test_preserve_formatting_can_be_disabled() {
    let config = Config {
        preserve_formatting: false,
        ..Default::default()
    };
    assert!(!config.preserve_formatting);
}

#[test]
fn test_config_defaults() {
    let config = Config::default();
    assert_eq!(config.theme, "default-dark");
    assert_eq!(config.indent_size, 2);
    assert!(config.show_line_numbers);
    assert!(!config.auto_save);
    assert_eq!(config.validation_mode, "strict");
    assert!(!config.create_backup);
    assert_eq!(config.undo_limit, 50);
    assert!(config.sync_unnamed_register);
    assert_eq!(config.lazy_load_threshold, 104_857_600);
    assert!(config.enable_mouse);
    assert!(!config.relative_line_numbers);
}

#[test]
fn test_load_yaml_from_stdin_requires_actual_stdin() {
    // Reading standard input is done by the application, not the library.
}

#[test]
fn test_load_yaml_file_integration() {
    // Reading files is done by the application, not the library.
}

#[test]
fn test_determine_jsonl_format() {
    assert!(determine_jsonl_format("data.yaml"));
    assert!(determine_jsonl_format("data.yaml"));
    assert!(determine_jsonl_format("path/to/data.yaml.gz"));
    assert!(determine_jsonl_format("path/to/data.yaml.gz"));
    assert!(!determine_jsonl_format("data.json"));
    assert!(!determine_jsonl_format("data.json.gz"));
}

#[test]
fn test_determine_jsonl_format_edges() {
    assert!(!determine_jsonl_format(""));
    assert!(!determine_jsonl_format(".gz"));
    assert!(determine_jsonl_format(".yaml"));
    assert!(!determine_jsonl_format("data.yaml.gz.gz"));
    assert!(!determine_jsonl_format("yaml"));
}

#[test]
fn test_list_builtin_themes() {
    let themes = list_builtin_themes();
    assert!(themes.contains(&"default-dark".to_string()));
    assert!(themes.contains(&"default-light".to_string()));
    assert_eq!(themes.len(), 15);
    let mut sorted = themes.clone();
    sorted.sort();
    assert_eq!(sorted, themes);
}
