use yamlquill::editor::history::InputHistory;

#[test]
fn test_new_history_is_empty() {
    let history = InputHistory::new(10);
    assert_eq!(history.entries().len(), 0);
    assert_eq!(history.browse_index(), None);
}

#[test]
fn test_push_adds_entries() {
    let mut history = InputHistory::new(10);
    history.push("first".to_string());
    history.push("second".to_string());
    assert_eq!(*history.entries(), vec!["first", "second"]);
}

#[test]
fn test_push_skips_empty() {
    let mut history = InputHistory::new(10);
    history.push("".to_string());
    assert_eq!(history.entries().len(), 0);
}

#[test]
fn test_push_skips_consecutive_duplicates() {
    let mut history = InputHistory::new(10);
    history.push("cmd".to_string());
    history.push("cmd".to_string());
    assert_eq!(history.entries().len(), 1);
}

#[test]
fn test_push_allows_non_consecutive_duplicates() {
    let mut history = InputHistory::new(10);
    history.push("a".to_string());
    history.push("b".to_string());
    history.push("a".to_string());
    assert_eq!(*history.entries(), vec!["a", "b", "a"]);
}

#[test]
fn test_push_enforces_max_size() {
    let mut history = InputHistory::new(3);
    history.push("a".to_string());
    history.push("b".to_string());
    history.push("c".to_string());
    history.push("d".to_string());
    assert_eq!(*history.entries(), vec!["b", "c", "d"]);
}

#[test]
fn test_browse_up_empty_history() {
    let mut history = InputHistory::new(10);
    assert_eq!(history.browse_up("draft"), None);
}

#[test]
fn test_browse_up_returns_newest_first() {
    let mut history = InputHistory::new(10);
    history.push("first".to_string());
    history.push("second".to_string());
    assert_eq!(history.browse_up("current"), Some("second"));
}

#[test]
fn test_browse_up_saves_draft() {
    let mut history = InputHistory::new(10);
    history.push("entry".to_string());
    history.browse_up("my draft");
    assert_eq!(history.draft(), "my draft");
}

#[test]
fn test_browse_up_walks_through_history() {
    let mut history = InputHistory::new(10);
    history.push("first".to_string());
    history.push("second".to_string());
    history.push("third".to_string());
    assert_eq!(history.browse_up(""), Some("third"));
    assert_eq!(history.browse_up(""), Some("second"));
    assert_eq!(history.browse_up(""), Some("first"));
    assert_eq!(history.browse_up(""), None); // at oldest
}

#[test]
fn test_browse_down_returns_none_when_not_browsing() {
    let mut history = InputHistory::new(10);
    history.push("entry".to_string());
    assert_eq!(history.browse_down(), None);
}

#[test]
fn test_browse_down_walks_forward() {
    let mut history = InputHistory::new(10);
    history.push("first".to_string());
    history.push("second".to_string());
    history.push("third".to_string());

    // Browse up to oldest
    history.browse_up("");
    history.browse_up("");
    history.browse_up("");

    // Browse back down
    assert_eq!(history.browse_down(), Some("second"));
    assert_eq!(history.browse_down(), Some("third"));
}

#[test]
fn test_browse_down_past_newest_returns_draft() {
    let mut history = InputHistory::new(10);
    history.push("entry".to_string());

    history.browse_up("my draft");
    assert_eq!(history.browse_down(), Some("my draft"));
    // Now browse_index should be None
    assert_eq!(history.browse_index(), None);
}

#[test]
fn test_browse_up_then_down_round_trip() {
    let mut history = InputHistory::new(10);
    history.push("a".to_string());
    history.push("b".to_string());

    assert_eq!(history.browse_up("draft"), Some("b"));
    assert_eq!(history.browse_up("draft"), Some("a"));
    assert_eq!(history.browse_down(), Some("b"));
    assert_eq!(history.browse_down(), Some("draft"));
}

#[test]
fn test_reset_browse() {
    let mut history = InputHistory::new(10);
    history.push("entry".to_string());
    history.browse_up("draft");
    assert!(history.browse_index().is_some());

    history.reset_browse();
    assert_eq!(history.browse_index(), None);
    assert_eq!(history.draft(), "");
}

#[test]
fn test_push_resets_browse() {
    let mut history = InputHistory::new(10);
    history.push("first".to_string());
    history.browse_up("draft");
    assert!(history.browse_index().is_some());

    history.push("second".to_string());
    assert_eq!(history.browse_index(), None);
}

#[test]
fn test_default() {
    let history = InputHistory::default();
    assert_eq!(history.max_size(), 50);
    assert_eq!(history.entries().len(), 0);
}
