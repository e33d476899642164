use game_gem::input::KeyCode;
use game_gem::ui::{KeyModifiers, TextInputState};

fn none() -> KeyModifiers {
    KeyModifiers::default()
}

fn shift() -> KeyModifiers {
    KeyModifiers { shift: true, ..KeyModifiers::default() }
}

fn ctrl() -> KeyModifiers {
    KeyModifiers { ctrl: true, ..KeyModifiers::default() }
}

#[test]
fn new_puts_cursor_at_byte_end() {
    let s = TextInputState::new("héllo");
    assert_eq!(s.text, "héllo");
    assert_eq!(s.cursor, 6);
    assert_eq!(s.selection_start, None);
    assert!(s.cursor_visible);
}

#[test]
fn default_is_empty() {
    let s = TextInputState::default();
    assert_eq!(s.text, "");
    assert_eq!(s.cursor, 0);
    assert_eq!(s.selection_start, None);
}

#[test]
fn typing_inserts_at_cursor() {
    let mut s = TextInputState::new("held");
    s.cursor = 3;
    s.handle_text_input("lo wor");
    assert_eq!(s.text, "hello word");
    assert_eq!(s.cursor, 9);
}

#[test]
fn typing_replaces_selection() {
    let mut s = TextInputState::new("hello world");
    s.cursor = 5;
    s.selection_start = Some(11);
    s.handle_text_input("!");
    assert_eq!(s.text, "hello!");
    assert_eq!(s.cursor, 6);
    assert_eq!(s.selection_start, None);
}

#[test]
fn backspace_removes_whole_multibyte_char() {
    let mut s = TextInputState::new("héllo");
    s.cursor = 3;
    s.handle_key(KeyCode::Backspace, none());
    assert_eq!(s.text, "hllo");
    assert_eq!(s.cursor, 1);
}

#[test]
fn backspace_at_start_does_nothing() {
    let mut s = TextInputState::new("abc");
    s.cursor = 0;
    s.handle_key(KeyCode::Backspace, none());
    assert_eq!(s.text, "abc");
    assert_eq!(s.cursor, 0);
}

#[test]
fn delete_removes_char_after_cursor() {
    let mut s = TextInputState::new("a€b");
    s.cursor = 1;
    s.handle_key(KeyCode::Delete, none());
    assert_eq!(s.text, "ab");
    assert_eq!(s.cursor, 1);
    s.cursor = 2;
    s.handle_key(KeyCode::Delete, none());
    assert_eq!(s.text, "ab");
}

#[test]
fn delete_and_backspace_remove_selection() {
    let mut s = TextInputState::new("abcdef");
    s.cursor = 4;
    s.selection_start = Some(1);
    s.handle_key(KeyCode::Delete, none());
    assert_eq!(s.text, "aef");
    assert_eq!(s.cursor, 1);
    assert_eq!(s.selection_start, None);

    let mut t = TextInputState::new("abcdef");
    t.cursor = 2;
    t.selection_start = Some(5);
    t.handle_key(KeyCode::Backspace, none());
    assert_eq!(t.text, "abf");
    assert_eq!(t.cursor, 2);
}

#[test]
fn arrows_step_over_characters() {
    let mut s = TextInputState::new("a😀b");
    assert_eq!(s.cursor, 6);
    s.handle_key(KeyCode::Left, none());
    assert_eq!(s.cursor, 5);
    s.handle_key(KeyCode::Left, none());
    assert_eq!(s.cursor, 1);
    s.handle_key(KeyCode::Left, none());
    assert_eq!(s.cursor, 0);
    s.handle_key(KeyCode::Left, none());
    assert_eq!(s.cursor, 0);
    s.handle_key(KeyCode::Right, none());
    s.handle_key(KeyCode::Right, none());
    assert_eq!(s.cursor, 5);
    s.handle_key(KeyCode::Right, none());
    s.handle_key(KeyCode::Right, none());
    assert_eq!(s.cursor, 6);
}

#[test]
fn shift_arrows_anchor_selection() {
    let mut s = TextInputState::new("abcd");
    s.handle_key(KeyCode::Left, shift());
    s.handle_key(KeyCode::Left, shift());
    assert_eq!(s.selection_start, Some(4));
    assert_eq!(s.cursor, 2);
    s.handle_key(KeyCode::Right, none());
    assert_eq!(s.selection_start, None);
    assert_eq!(s.cursor, 3);
}

#[test]
fn home_end_and_select_all() {
    let mut s = TextInputState::new("abc");
    s.selection_start = Some(1);
    s.handle_key(KeyCode::Home, none());
    assert_eq!((s.cursor, s.selection_start), (0, None));
    s.handle_key(KeyCode::End, none());
    assert_eq!((s.cursor, s.selection_start), (3, None));
    s.handle_key(KeyCode::A, none());
    assert_eq!((s.cursor, s.selection_start), (3, None));
    s.handle_key(KeyCode::A, ctrl());
    assert_eq!((s.cursor, s.selection_start), (3, Some(0)));
    s.handle_text_input("x");
    assert_eq!(s.text, "x");
    assert_eq!(s.cursor, 1);
}

#[test]
fn other_keys_change_nothing() {
    let mut s = TextInputState::new("abc");
    s.cursor = 1;
    for key in [KeyCode::Enter, KeyCode::C, KeyCode::V, KeyCode::X, KeyCode::Space] {
        s.handle_key(key, ctrl());
    }
    assert_eq!(s.text, "abc");
    assert_eq!(s.cursor, 1);
    assert_eq!(s.selection_start, None);
}

#[test]
fn left_then_right_returns_to_boundary() {
    let mut s = TextInputState::new("xé€😀y");
    let starts = [1usize, 3, 6, 10, 11];
    for &c in &starts {
        s.cursor = c;
        s.handle_key(KeyCode::Left, none());
        s.handle_key(KeyCode::Right, none());
        assert_eq!(s.cursor, c);
        assert_eq!(s.text, "xé€😀y");
        assert_eq!(s.selection_start, None);
    }
}

#[test]
fn typing_a_char_then_backspace_restores() {
    for ch in ["a", "é", "€", "😀"] {
        let mut s = TextInputState::new("q€z");
        s.cursor = 4;
        s.handle_text_input(ch);
        assert_eq!(s.cursor, 4 + ch.len());
        s.handle_key(KeyCode::Backspace, none());
        assert_eq!(s.text, "q€z");
        assert_eq!(s.cursor, 4);
    }
}

#[test]
fn right_then_left_returns_to_boundary() {
    let mut s = TextInputState::new("xé€😀y");
    for &c in &[0usize, 1, 3, 6, 10] {
        s.cursor = c;
        s.handle_key(KeyCode::Right, none());
        assert!(s.cursor > c);
        s.handle_key(KeyCode::Left, none());
        assert_eq!(s.cursor, c);
        assert_eq!(s.selection_start, None);
    }
}

#[test]
fn keys_keep_cursor_and_selection_on_boundaries() {
    let keys = [
        (KeyCode::Left, shift()),
        (KeyCode::Left, none()),
        (KeyCode::Right, shift()),
        (KeyCode::Right, shift()),
        (KeyCode::Backspace, none()),
        (KeyCode::Left, none()),
        (KeyCode::Delete, none()),
        (KeyCode::A, ctrl()),
        (KeyCode::Left, shift()),
        (KeyCode::Delete, none()),
        (KeyCode::Home, none()),
        (KeyCode::Right, shift()),
        (KeyCode::Backspace, none()),
        (KeyCode::End, none()),
        (KeyCode::Backspace, none()),
    ];
    let mut s = TextInputState::new("a€😀é b");
    for (key, m) in keys {
        s.handle_key(key, m);
        assert!(s.text.is_char_boundary(s.cursor));
        if let Some(start) = s.selection_start {
            assert!(s.text.is_char_boundary(start));
        }
    }
}
