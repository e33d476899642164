use game_gem::input::{InputAction, InputState, KeyCode, KeyboardState, MouseButton, MouseState};

#[test]
fn keyboard_edges_per_frame() {
    let mut k = KeyboardState::default();
    assert!(!k.is_down(KeyCode::Space));
    k.key_down(KeyCode::Space);
    assert!(k.is_down(KeyCode::Space));
    assert!(k.is_pressed(KeyCode::Space));
    k.clear_frame_edges();
    assert!(k.is_down(KeyCode::Space));
    assert!(!k.is_pressed(KeyCode::Space));
    k.key_down(KeyCode::Space);
    assert!(!k.is_pressed(KeyCode::Space));
    k.key_up(KeyCode::Space);
    assert!(!k.is_down(KeyCode::Space));
    assert!(k.is_released(KeyCode::Space));
    k.clear_frame_edges();
    assert!(!k.is_released(KeyCode::Space));
    k.key_up(KeyCode::A);
    assert!(!k.is_released(KeyCode::A));
}

#[test]
fn keyboard_chords() {
    let mut k = KeyboardState::default();
    assert!(k.are_all_down(&[]));
    assert!(!k.is_any_down(&[]));
    k.key_down(KeyCode::LeftCtrl);
    k.key_down(KeyCode::C);
    assert!(k.are_all_down(&[KeyCode::LeftCtrl, KeyCode::C]));
    assert!(!k.are_all_down(&[KeyCode::LeftCtrl, KeyCode::V]));
    assert!(k.is_any_down(&[KeyCode::V, KeyCode::C]));
    assert!(!k.is_any_down(&[KeyCode::V, KeyCode::X]));
}

#[test]
fn keyboard_text_buffer() {
    let mut k = KeyboardState::default();
    assert_eq!(k.text(), "");
    k.push_text("hé");
    k.push_text("llo");
    assert_eq!(k.text(), "héllo");
    assert_eq!(k.take_text(), "héllo");
    assert_eq!(k.text(), "");
    assert_eq!(k.take_text(), "");
}

#[test]
fn mouse_buttons_and_drag() {
    let mut m = MouseState::default();
    assert!(!m.is_any_down());
    assert!(m.cursor_visible);
    assert!(!m.cursor_grabbed);
    m.held.push(MouseButton::Left);
    m.pressed_this_frame.push(MouseButton::Left);
    assert!(m.is_down(MouseButton::Left));
    assert!(m.is_pressed(MouseButton::Left));
    assert!(!m.is_released(MouseButton::Left));
    assert!(m.is_any_down());
    assert!(!m.is_dragging());
    m.drag_start = Some(glam::Vec2::new(1.0, 2.0));
    assert!(m.is_dragging());
    m.clear_frame_edges();
    assert!(!m.is_pressed(MouseButton::Left));
    assert!(m.is_dragging());
    assert_eq!(m.scroll, glam::Vec2::ZERO);
    m.set_cursor_visible(false);
    m.set_cursor_grabbed(true);
    assert!(!m.cursor_visible);
    assert!(m.cursor_grabbed);
    let copy = m.clone();
    assert_eq!(copy.drag_start, Some(glam::Vec2::new(1.0, 2.0)));
}

#[test]
fn actions_by_name() {
    let mut input = InputState::default();
    let mut jump = InputAction::new("jump");
    jump.bind_key(KeyCode::Space).bind_key(KeyCode::Up);
    jump.bind_mouse(MouseButton::Left);
    assert_eq!(jump.keys, vec![KeyCode::Space, KeyCode::Up]);
    input.register_action(jump);
    input.register_action(InputAction::new("fire"));
    assert!(input.action("jump").is_some());
    assert_eq!(input.action("jump").unwrap().keys.len(), 2);
    assert!(input.action("run").is_none());
    assert!(!input.is_action_down("jump"));
    input.keyboard.key_down(KeyCode::Up);
    assert!(input.is_action_down("jump"));
    assert!(input.is_action_pressed("jump"));
    assert!(!input.is_action_down("fire"));
    assert!(!input.is_action_down("run"));
    input.keyboard.clear_frame_edges();
    assert!(!input.is_action_pressed("jump"));
    input.keyboard.key_up(KeyCode::Up);
    assert!(!input.is_action_down("jump"));
    input.mouse.held.push(MouseButton::Left);
    assert!(input.is_action_down("jump"));
}

#[test]
fn action_first_of_same_name() {
    let mut input = InputState::default();
    let mut a = InputAction::new("x");
    a.bind_key(KeyCode::A);
    let mut b = InputAction::new("x");
    b.bind_key(KeyCode::B);
    input.register_action(a);
    input.register_action(b);
    assert_eq!(input.action("x").unwrap().keys, vec![KeyCode::A]);
    input.keyboard.key_down(KeyCode::B);
    assert!(input.is_action_down("x"));
}

#[test]
fn drag_vector_from_start_to_position() {
    let mut m = MouseState::default();
    assert_eq!(m.drag_vector(), None);
    m.position = glam::Vec2::new(10.0, 5.0);
    m.drag_start = Some(glam::Vec2::new(4.0, 1.0));
    // A drag start without the left button held is not a drag.
    assert_eq!(m.drag_vector(), None);
    m.held.push(MouseButton::Right);
    assert_eq!(m.drag_vector(), None);
    m.held.push(MouseButton::Left);
    assert_eq!(m.drag_vector(), Some(glam::Vec2::new(6.0, 4.0)));
}
