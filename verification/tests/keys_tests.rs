use yamlquill::editor::mode::EditorMode;
use yamlquill::input::backend::{BackendEvent, BackendKey, BackendMouse};
use yamlquill::input::keys::{map_key_event, InputEvent};

#[test]
fn test_normal_mode_quit() {
    let event = BackendEvent::Key(BackendKey::Char('q'));
    assert_eq!(map_key_event(event, &EditorMode::Normal), InputEvent::Quit);
}

#[test]
fn test_normal_mode_movement_vim_keys() {
    assert_eq!(
        map_key_event(
            BackendEvent::Key(BackendKey::Char('j')),
            &EditorMode::Normal
        ),
        InputEvent::MoveDown
    );
    assert_eq!(
        map_key_event(
            BackendEvent::Key(BackendKey::Char('k')),
            &EditorMode::Normal
        ),
        InputEvent::MoveUp
    );
    assert_eq!(
        map_key_event(
            BackendEvent::Key(BackendKey::Char('h')),
            &EditorMode::Normal
        ),
        InputEvent::MoveLeft
    );
    assert_eq!(
        map_key_event(
            BackendEvent::Key(BackendKey::Char('l')),
            &EditorMode::Normal
        ),
        InputEvent::MoveRight
    );
}

#[test]
fn test_normal_mode_movement_arrow_keys() {
    assert_eq!(
        map_key_event(BackendEvent::Key(BackendKey::Down), &EditorMode::Normal),
        InputEvent::MoveDown
    );
    assert_eq!(
        map_key_event(BackendEvent::Key(BackendKey::Up), &EditorMode::Normal),
        InputEvent::MoveUp
    );
}

#[test]
fn test_normal_mode_enter_modes() {
    assert_eq!(
        map_key_event(
            BackendEvent::Key(BackendKey::Char('e')),
            &EditorMode::Normal
        ),
        InputEvent::EnterInsertMode
    );
    assert_eq!(
        map_key_event(
            BackendEvent::Key(BackendKey::Char(':')),
            &EditorMode::Normal
        ),
        InputEvent::EnterCommandMode
    );
}

#[test]
fn test_insert_mode_exit() {
    assert_eq!(
        map_key_event(BackendEvent::Key(BackendKey::Esc), &EditorMode::Insert),
        InputEvent::ExitMode
    );
}

#[test]
fn test_command_mode_exit() {
    assert_eq!(
        map_key_event(BackendEvent::Key(BackendKey::Esc), &EditorMode::Command),
        InputEvent::ExitMode
    );
}

#[test]
fn test_unknown_key() {
    assert_eq!(
        map_key_event(
            BackendEvent::Key(BackendKey::Char('x')),
            &EditorMode::Normal
        ),
        InputEvent::Unknown
    );
}

#[test]
fn test_mouse_events_are_unknown() {
    assert_eq!(
        map_key_event(BackendEvent::Mouse(BackendMouse::WheelUp), &EditorMode::Normal),
        InputEvent::Unknown
    );
}

#[test]
fn test_insert_mode_types_characters() {
    assert_eq!(
        map_key_event(BackendEvent::Key(BackendKey::Char('x')), &EditorMode::Insert),
        InputEvent::InsertCharacter('x')
    );
    assert_eq!(
        map_key_event(BackendEvent::Key(BackendKey::Char('\n')), &EditorMode::Insert),
        InputEvent::InsertEnter
    );
    assert_eq!(
        map_key_event(BackendEvent::Key(BackendKey::Backspace), &EditorMode::Insert),
        InputEvent::InsertBackspace
    );
}

#[test]
fn test_visual_and_search_modes() {
    assert_eq!(
        map_key_event(BackendEvent::Key(BackendKey::Char('d')), &EditorMode::Visual),
        InputEvent::Delete
    );
    assert_eq!(
        map_key_event(BackendEvent::Key(BackendKey::Esc), &EditorMode::Search),
        InputEvent::ExitMode
    );
    assert_eq!(
        map_key_event(BackendEvent::Key(BackendKey::Char('j')), &EditorMode::Search),
        InputEvent::Unknown
    );
    assert_eq!(
        map_key_event(BackendEvent::Key(BackendKey::F(1)), &EditorMode::Normal),
        InputEvent::Help
    );
    assert_eq!(
        map_key_event(BackendEvent::Key(BackendKey::Ctrl('d')), &EditorMode::Normal),
        InputEvent::HalfPageDown
    );
}
