use terrarium::input::{mouse_button_to_usize, InputState, MouseButton};

#[test]
fn mouse_button_slots() {
    assert_eq!(mouse_button_to_usize(&MouseButton::Left), 0);
    assert_eq!(mouse_button_to_usize(&MouseButton::Right), 1);
    assert_eq!(mouse_button_to_usize(&MouseButton::Middle), 2);
    assert_eq!(mouse_button_to_usize(&MouseButton::Back), 3);
    assert_eq!(mouse_button_to_usize(&MouseButton::Forward), 4);
    assert_eq!(mouse_button_to_usize(&MouseButton::Other(3)), 7);
}

#[test]
fn keyboard_events_set_keys() {
    let mut s = InputState::new();
    assert!(!s.keyboard_key(40));
    s.apply_keyboard_input(Some(40), true, false);
    assert!(s.keyboard_key(40));
    s.apply_keyboard_input(Some(40), false, true);
    assert!(s.keyboard_key(40));
    s.apply_keyboard_input(None, false, false);
    assert!(s.keyboard_key(40));
    s.apply_keyboard_input(Some(40), false, false);
    assert!(!s.keyboard_key(40));
}

#[test]
fn mouse_events_set_buttons() {
    let mut s = InputState::default();
    s.apply_mouse_input(MouseButton::Right, true);
    assert!(s.mouse_button(MouseButton::Right));
    assert!(!s.mouse_button(MouseButton::Left));
    s.apply_mouse_input(MouseButton::Other(27), true);
    assert!(s.mouse_button(MouseButton::Other(27)));
    let prev = s.clone();
    s.apply_mouse_input(MouseButton::Right, false);
    assert!(prev.mouse_button(MouseButton::Right));
    assert!(!s.mouse_button(MouseButton::Right));
}
