use yamlquill::document::node::{YamlNode, YamlNumber, YamlValue};
use yamlquill::document::tree::YamlTree;
use yamlquill::editor::mode::EditorMode;
use yamlquill::editor::state::dispatch::HandlerAction;
use yamlquill::editor::state::EditorState;
use yamlquill::input::backend::{BackendEvent, BackendKey};

fn int_node(i: i64) -> YamlNode {
    YamlNode::new(YamlValue::Number(YamlNumber::Integer(i)))
}

fn state_of(items: Vec<i64>) -> EditorState {
    EditorState::new_with_default_theme(YamlTree::new(YamlNode::new(YamlValue::Array(
        items.into_iter().map(int_node).collect(),
    ))))
}

fn press(state: &mut EditorState, waiting: &mut bool, key: BackendKey) -> HandlerAction {
    state.handle_event(BackendEvent::Key(key), waiting, None, None)
}

#[test]
fn test_dispatch_quit_when_clean() {
    let mut state = state_of(vec![1]);
    let mut waiting = false;
    assert_eq!(press(&mut state, &mut waiting, BackendKey::Char('q')), HandlerAction::Quit);
}

#[test]
fn test_dispatch_command_line_is_handed_back() {
    let mut state = state_of(vec![1]);
    let mut waiting = false;
    assert_eq!(press(&mut state, &mut waiting, BackendKey::Char(':')), HandlerAction::Continue);
    assert_eq!(*state.mode(), EditorMode::Command);
    press(&mut state, &mut waiting, BackendKey::Char('w'));
    assert_eq!(press(&mut state, &mut waiting, BackendKey::Char('\n')), HandlerAction::RunCommand("w".to_string()));
    assert_eq!(*state.mode(), EditorMode::Normal);
}

#[test]
fn test_dispatch_dd_deletes_and_quit_refused_when_dirty() {
    let mut state = state_of(vec![1, 2, 3]);
    let mut waiting = false;
    press(&mut state, &mut waiting, BackendKey::Char('d'));
    press(&mut state, &mut waiting, BackendKey::Char('d'));
    match state.tree().root().value() {
        YamlValue::Array(v) => assert_eq!(v.len(), 2),
        _ => panic!("root is not a sequence"),
    }
    assert_eq!(press(&mut state, &mut waiting, BackendKey::Char('q')), HandlerAction::Continue);
    assert!(state.message().unwrap().text.contains("No write since last change"));
}

#[test]
fn test_dispatch_register_prefix_then_yy() {
    let mut state = state_of(vec![7, 8]);
    let mut waiting = false;
    press(&mut state, &mut waiting, BackendKey::Char('"'));
    assert!(waiting);
    press(&mut state, &mut waiting, BackendKey::Char('a'));
    assert!(!waiting);
    press(&mut state, &mut waiting, BackendKey::Char('y'));
    press(&mut state, &mut waiting, BackendKey::Char('y'));
    // `yy` clears the pending register before yanking, so the yank goes
    // to the unnamed register.
    assert!(state.registers().get_named('a').is_none());
    assert_eq!(state.get_unnamed_register().nodes.len(), 1);
}

#[test]
fn test_dispatch_mark_set_and_jump() {
    let mut state = state_of(vec![1, 2, 3]);
    let mut waiting = false;
    press(&mut state, &mut waiting, BackendKey::Char('m'));
    press(&mut state, &mut waiting, BackendKey::Char('a'));
    assert_eq!(state.message().unwrap().text, "Mark a set");
    press(&mut state, &mut waiting, BackendKey::Char('j'));
    press(&mut state, &mut waiting, BackendKey::Char('j'));
    assert_eq!(state.cursor().path(), &[2usize][..]);
    press(&mut state, &mut waiting, BackendKey::Char('\''));
    press(&mut state, &mut waiting, BackendKey::Char('a'));
    assert_eq!(state.cursor().path(), &[0usize][..]);
}

fn null_state() -> EditorState {
    EditorState::new_with_default_theme(YamlTree::new(YamlNode::new(YamlValue::Null)))
}

#[test]
fn test_quit_blocked_when_dirty() {
    let mut state = null_state();
    let mut waiting = false;
    state.mark_dirty();
    let should_quit = press(&mut state, &mut waiting, BackendKey::Char('q')) == HandlerAction::Quit;
    assert!(!should_quit);
    match state.message() {
        Some(msg) => assert!(msg.text.contains("No write since last change")),
        None => panic!("Expected error message when trying to quit with unsaved changes"),
    }
    assert!(state.is_dirty());
}

#[test]
fn test_enter_insert_mode() {
    let mut state = null_state();
    let mut waiting = false;
    assert_eq!(*state.mode(), EditorMode::Normal);
    let should_quit = press(&mut state, &mut waiting, BackendKey::Char('e')) == HandlerAction::Quit;
    assert!(!should_quit);
    assert_eq!(*state.mode(), EditorMode::Insert);
}

#[test]
fn test_exit_mode() {
    let mut state = null_state();
    let mut waiting = false;
    state.set_mode(EditorMode::Insert);
    press(&mut state, &mut waiting, BackendKey::Esc);
    assert_eq!(*state.mode(), EditorMode::Normal);
}

#[test]
fn test_movement_keys_dont_quit() {
    let mut state = null_state();
    let mut waiting = false;
    let should_quit = press(&mut state, &mut waiting, BackendKey::Char('j')) == HandlerAction::Quit;
    assert!(!should_quit);
}

fn root_len(state: &EditorState) -> usize {
    match state.tree().root().value() {
        YamlValue::Array(v) => v.len(),
        _ => panic!("root is not a sequence"),
    }
}

#[test]
fn test_dispatch_repeat_deletes_again() {
    let mut state = state_of(vec![1, 2, 3, 4]);
    let mut waiting = false;
    press(&mut state, &mut waiting, BackendKey::Char('2'));
    press(&mut state, &mut waiting, BackendKey::Char('d'));
    press(&mut state, &mut waiting, BackendKey::Char('d'));
    assert_eq!(root_len(&state), 2);
    press(&mut state, &mut waiting, BackendKey::Char('.'));
    assert_eq!(root_len(&state), 0);
    assert_eq!(state.message().unwrap().text, "2 nodes deleted (yanked)");
}

#[test]
fn test_dispatch_visual_mode_message_and_count_prefix() {
    let mut state = state_of(vec![1, 2, 3]);
    let mut waiting = false;
    press(&mut state, &mut waiting, BackendKey::Char('v'));
    assert_eq!(*state.mode(), EditorMode::Visual);
    assert_eq!(state.message().unwrap().text, "-- VISUAL --");
    press(&mut state, &mut waiting, BackendKey::Esc);
    assert_eq!(*state.mode(), EditorMode::Normal);
    assert_eq!(press(&mut state, &mut waiting, BackendKey::Char('1')), HandlerAction::Continue);
    assert_eq!(press(&mut state, &mut waiting, BackendKey::Char('2')), HandlerAction::Continue);
    assert_eq!(press(&mut state, &mut waiting, BackendKey::Char('q')), HandlerAction::Quit);
}
