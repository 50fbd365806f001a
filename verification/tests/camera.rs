use gcode_viewer::camera::{DragMode, MouseButtonKind, OrbitButtons};

#[test]
fn new_buttons_are_released() {
    let b = OrbitButtons::new();
    assert_eq!(
        b,
        OrbitButtons { pressed: false, just_pressed: false, middle_pressed: false, middle_just_pressed: false }
    );
    assert_eq!(b.drag_mode(), DragMode::Idle);
}

#[test]
fn left_drag_rotates() {
    let mut b = OrbitButtons::new();
    b.button_input(MouseButtonKind::Left, true);
    assert!(b.pressed && b.just_pressed);
    assert_eq!(b.drag_mode(), DragMode::Rotate);
}

#[test]
fn middle_drag_pans_unless_left_is_held() {
    let mut b = OrbitButtons::new();
    b.button_input(MouseButtonKind::Middle, true);
    assert_eq!(b.drag_mode(), DragMode::Pan);
    b.button_input(MouseButtonKind::Left, true);
    assert_eq!(b.drag_mode(), DragMode::Rotate);
    b.button_input(MouseButtonKind::Left, false);
    assert_eq!(b.drag_mode(), DragMode::Pan);
    b.button_input(MouseButtonKind::Middle, false);
    assert_eq!(b.drag_mode(), DragMode::Idle);
}

#[test]
fn anchor_resets_once_after_a_press() {
    let mut b = OrbitButtons::new();
    b.button_input(MouseButtonKind::Left, true);
    assert!(b.cursor_moved());
    assert!(!b.cursor_moved());
    assert!(!b.just_pressed);
    assert!(b.pressed);
}

#[test]
fn release_clears_pending_anchor_reset() {
    let mut b = OrbitButtons::new();
    b.button_input(MouseButtonKind::Left, true);
    b.button_input(MouseButtonKind::Left, false);
    assert!(!b.cursor_moved());
    assert_eq!(b.drag_mode(), DragMode::Idle);
}

#[test]
fn other_buttons_change_nothing() {
    let mut b = OrbitButtons::new();
    b.button_input(MouseButtonKind::Left, true);
    let before = b;
    b.button_input(MouseButtonKind::Other, false);
    assert_eq!(b, before);
}

#[test]
fn middle_just_pressed_is_never_set() {
    let mut b = OrbitButtons::new();
    b.button_input(MouseButtonKind::Middle, true);
    b.cursor_moved();
    assert!(!b.middle_just_pressed);
}

#[test]
fn cursor_move_keeps_the_drag() {
    let mut b = OrbitButtons::new();
    b.button_input(MouseButtonKind::Middle, true);
    let before = b.drag_mode();
    b.cursor_moved();
    assert_eq!(b.drag_mode(), before);
}

#[test]
fn middle_press_also_requests_an_anchor_jump() {
    let mut b = OrbitButtons::new();
    b.button_input(MouseButtonKind::Middle, true);
    assert!(b.cursor_moved());
    assert!(!b.cursor_moved());
}
