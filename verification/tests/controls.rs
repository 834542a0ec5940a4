use orrery::controls::{updates_key_state, Controls, InputEventResult, KeyEvent, LogicalKey, MouseButton};

fn key(text: &str, pressed: bool) -> KeyEvent {
    KeyEvent { logical_key: LogicalKey::Character(text.to_string()), pressed }
}

fn named(text: Option<&str>, pressed: bool) -> KeyEvent {
    KeyEvent { logical_key: LogicalKey::Named(text.map(|t| t.to_string())), pressed }
}

#[test]
fn escape_requests_close() {
    let mut c = Controls::new();
    let r = c.handle_key_input(KeyEvent { logical_key: LogicalKey::Escape, pressed: true });
    assert_eq!(r, InputEventResult::RequestClose);
    assert_eq!(c, Controls::new());
}

#[test]
fn movement_keys_set_flags() {
    let mut c = Controls::new();
    assert_eq!(c.handle_key_input(key("E", true)), InputEventResult::Handled);
    assert!(c.right_pressed);
    c.handle_key_input(key("A", true));
    assert!(c.left_pressed);
    c.handle_key_input(key("O", true));
    assert!(c.back_pressed);
    c.handle_key_input(key("J", true));
    assert!(c.down_pressed);
    c.handle_key_input(key("E", false));
    assert!(!c.right_pressed);
    assert!(c.left_pressed);
}

#[test]
fn lower_case_keys_are_upper_cased() {
    let mut c = Controls::new();
    c.handle_key_input(key("e", true));
    assert!(c.right_pressed);
    // "ä" upper-cases to "Ä", the forward key.
    c.handle_key_input(key("ä", true));
    assert!(c.forward_pressed);
}

#[test]
fn other_characters_do_nothing() {
    let mut c = Controls::new();
    assert_eq!(c.handle_key_input(key("x", true)), InputEventResult::Handled);
    assert_eq!(c.handle_key_input(key("EA", true)), InputEventResult::Handled);
    // A space as a character key is not listened to (only as the named key).
    c.handle_key_input(key(" ", true));
    assert_eq!(c, Controls::new());
}

#[test]
fn space_bar_moves_up() {
    let mut c = Controls::new();
    assert_eq!(c.handle_key_input(named(Some(" "), true)), InputEventResult::Handled);
    assert!(c.up_pressed);
    c.handle_key_input(named(Some(" "), false));
    assert!(!c.up_pressed);
}

#[test]
fn f1_and_textless_named_keys_change_nothing() {
    let mut c = Controls::new();
    c.handle_key_input(named(Some("F1"), true));
    c.handle_key_input(named(None, true));
    c.handle_key_input(named(Some("\t"), true));
    c.handle_key_input(KeyEvent { logical_key: LogicalKey::Unidentified, pressed: true });
    assert_eq!(c, Controls::new());
}

#[test]
fn left_click_toggles_cursor_lock() {
    let mut c = Controls::new();
    assert_eq!(c.handle_mouse_input(MouseButton::Left), InputEventResult::RequestLockCursor);
    assert!(c.camera_controlled);
    assert_eq!(c.handle_mouse_input(MouseButton::Left), InputEventResult::RequestUnlockCursor);
    assert_eq!(c, Controls::new());
}

#[test]
fn other_buttons_do_nothing() {
    let mut c = Controls::new();
    assert_eq!(c.handle_mouse_input(MouseButton::Right), InputEventResult::Handled);
    assert_eq!(c.handle_mouse_input(MouseButton::Other(7)), InputEventResult::Handled);
    assert_eq!(c, Controls::new());
}

#[test]
fn mouse_move_turns_camera_only_when_controlled() {
    let mut c = Controls::new();
    assert_eq!(c.handle_mouse_move(), InputEventResult::Handled);
    c.handle_mouse_input(MouseButton::Left);
    assert_eq!(c.handle_mouse_move(), InputEventResult::CameraMoved);
}

#[test]
fn local_acceleration_cancels_opposites() {
    let mut c = Controls::new();
    assert_eq!(c.local_acceleration(), (0, 0, 0));
    c.update_key_state("E", true);
    c.update_key_state("Ä", true);
    c.update_key_state("J", true);
    assert_eq!(c.local_acceleration(), (1, 1, -1));
    c.update_key_state("A", true);
    assert_eq!(c.local_acceleration(), (0, 1, -1));
}

#[test]
fn only_listened_keys_update_key_state() {
    assert!(updates_key_state(&key("e", true)));
    assert!(updates_key_state(&key("Ä", false)));
    assert!(!updates_key_state(&key("x", true)));
    assert!(updates_key_state(&named(Some(" "), true)));
    assert!(updates_key_state(&named(Some("F1"), true)));
    assert!(!updates_key_state(&named(Some("F2"), true)));
    assert!(!updates_key_state(&named(None, true)));
    let escape = KeyEvent { logical_key: LogicalKey::Escape, pressed: true };
    assert!(!updates_key_state(&escape));
}
