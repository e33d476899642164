//! Input handling: keyboard and mouse state with per-frame pressed/released
//! edges, buffered text input, and remappable named actions.

use vstd::prelude::*;
use glam::Vec2;

verus! {

broadcast use vstd::seq_lib::lemma_seq_contains_after_push;

/// The 2D vector type used for mouse positions and movement.
#[verifier::external_type_specification]
#[verifier::external_body]
pub struct ExVec2(Vec2);

/// `Vec2::clone`: glam derives `Clone` on this `Copy` type, so a clone is
/// a bitwise copy of the original.
pub assume_specification[ <Vec2 as Clone>::clone ](v: &Vec2) -> (r: Vec2)
    ensures
        r == *v,
;

/// The zero vector `(0, 0)`.
#[verifier::external_body]
fn vec2_zero() -> Vec2 {
    Vec2::ZERO
}

/// `Vec2 - Vec2` (glam's `Sub` impl): the component-wise `f32` difference.
/// Nothing is stated of the result: its components are floats, and a NaN
/// result's sign and payload are not fixed by the inputs.
#[verifier::external_body]
fn vec2_sub(a: Vec2, b: Vec2) -> Vec2 {
    a - b
}

// ─────────────────────────────────────────────
// Key definitions
// ─────────────────────────────────────────────

/// Physical keyboard key.
///
/// Covers the common keyboard layout. For full coverage, use `KeyCode` from the
/// underlying windowing layer.
#[derive(Debug, Clone, Copy, PartialEq, Eq, Hash, Structural)]
pub enum KeyCode {
    // Letters
    A, B, C, D, E, F, G, H, I, J, K, L, M,
    N, O, P, Q, R, S, T, U, V, W, X, Y, Z,
    // Numbers
    Key1, Key2, Key3, Key4, Key5, Key6, Key7, Key8, Key9, Key0,
    // Function keys
    F1, F2, F3, F4, F5, F6, F7, F8, F9, F10, F11, F12,
    // Special
    Space, Enter, Escape, Tab, Backspace, Delete, Insert,
    Home, End, PageUp, PageDown,
    // Arrows
    Up, Down, Left, Right,
    // Modifiers
    LeftShift, RightShift, LeftCtrl, RightCtrl,
    LeftAlt, RightAlt, LeftSuper, RightSuper,
    // Punctuation
    Semicolon, Comma, Period, Slash, Backslash,
    LeftBracket, RightBracket, Equals, Minus,
    Apostrophe, Backquote,
    // Other
    CapsLock, ScrollLock, NumLock, PrintScreen,
    Pause, ContextMenu,
    /// Unknown / unmapped key.
    Unknown,
}

// ─────────────────────────────────────────────
// Membership helpers
// ─────────────────────────────────────────────

/// Whether `key` occurs in `keys`.
fn keys_contain(keys: &Vec<KeyCode>, key: KeyCode) -> (r: bool)
    ensures
        r == keys@.contains(key),
{
    let mut i: usize = 0;
    while i < keys.len()
        invariant
            i <= keys@.len(),
            forall|j: int| 0 <= j < i ==> keys@[j] != key,
        decreases keys@.len() - i,
    {
        if keys[i] == key {
            return true;
        }
        i += 1;
    }
    false
}

/// Whether `button` occurs in `buttons`.
fn buttons_contain(buttons: &Vec<MouseButton>, button: MouseButton) -> (r: bool)
    ensures
        r == buttons@.contains(button),
{
    let mut i: usize = 0;
    while i < buttons.len()
        invariant
            i <= buttons@.len(),
            forall|j: int| 0 <= j < i ==> buttons@[j] != button,
        decreases buttons@.len() - i,
    {
        if buttons[i] == button {
            return true;
        }
        i += 1;
    }
    false
}

// ─────────────────────────────────────────────
// Mouse
// ─────────────────────────────────────────────

/// Mouse button.
#[derive(Debug, Clone, Copy, PartialEq, Eq, Hash, Structural)]
pub enum MouseButton {
    Left,
    Right,
    Middle,
    Button4,
    Button5,
}

/// Mouse state for the current frame.
#[derive(Debug, Clone)]
pub struct MouseState {
    /// Current pixel position.
    pub position: Vec2,
    /// Position at the start of the current drag (if any).
    pub drag_start: Option<Vec2>,
    /// Delta movement this frame.
    pub delta: Vec2,
    /// Scroll wheel delta this frame.
    pub scroll: Vec2,
    /// Which buttons are currently held down.
    pub held: Vec<MouseButton>,
    /// Buttons that were pressed this frame (down edge).
    pub pressed_this_frame: Vec<MouseButton>,
    /// Buttons that were released this frame (up edge).
    pub released_this_frame: Vec<MouseButton>,
    /// Whether the cursor is visible.
    pub cursor_visible: bool,
    /// Whether the cursor is locked (grabbed).
    pub cursor_grabbed: bool,
}

impl Default for MouseState {
    /// No button held or changed, no drag, cursor visible and free.
    fn default() -> (m: Self)
        ensures
            m.drag_start is None,
            m.held@ == Seq::<MouseButton>::empty(),
            m.pressed_this_frame@ == Seq::<MouseButton>::empty(),
            m.released_this_frame@ == Seq::<MouseButton>::empty(),
            m.cursor_visible,
            !m.cursor_grabbed,
    {
        MouseState {
            position: vec2_zero(),
            drag_start: None,
            delta: vec2_zero(),
            scroll: vec2_zero(),
            held: Vec::new(),
            pressed_this_frame: Vec::new(),
            released_this_frame: Vec::new(),
            cursor_visible: true,
            cursor_grabbed: false,
        }
    }
}

impl MouseState {
    /// Is the given button currently held?
    pub fn is_down(&self, button: MouseButton) -> (r: bool)
        ensures
            r == self.held@.contains(button),
    {
        buttons_contain(&self.held, button)
    }

    /// Was the button pressed this frame?
    pub fn is_pressed(&self, button: MouseButton) -> (r: bool)
        ensures
            r == self.pressed_this_frame@.contains(button),
    {
        buttons_contain(&self.pressed_this_frame, button)
    }

    /// Was the button released this frame?
    pub fn is_released(&self, button: MouseButton) -> (r: bool)
        ensures
            r == self.released_this_frame@.contains(button),
    {
        buttons_contain(&self.released_this_frame, button)
    }

    /// Is any mouse button held?
    pub fn is_any_down(&self) -> (r: bool)
        ensures
            r == (self.held@.len() > 0),
    {
        !self.held.is_empty()
    }

    /// Check if the user is dragging with the left button.
    pub fn is_dragging(&self) -> (r: bool)
        ensures
            r == (self.held@.contains(MouseButton::Left) && self.drag_start is Some),
    {
        buttons_contain(&self.held, MouseButton::Left) && self.drag_start.is_some()
    }

    /// Get the drag vector (from start to current position), or `None` if
    /// not dragging (see `is_dragging`). The vector is glam's `f32`
    /// difference of the two positions; its components are not stated.
    pub fn drag_vector(&self) -> (r: Option<Vec2>)
        ensures
            r is Some <==> (self.held@.contains(MouseButton::Left) && self.drag_start is Some),
    {
        if self.is_dragging() {
            match self.drag_start {
                Some(start) => Some(vec2_sub(self.position, start)),
                None => None,
            }
        } else {
            None
        }
    }

    /// Set cursor visibility.
    pub fn set_cursor_visible(&mut self, visible: bool)
        ensures
            final(self).cursor_visible == visible,
            final(self).cursor_grabbed == old(self).cursor_grabbed,
            final(self).held == old(self).held,
            final(self).pressed_this_frame == old(self).pressed_this_frame,
            final(self).released_this_frame == old(self).released_this_frame,
            final(self).drag_start == old(self).drag_start,
            final(self).position == old(self).position,
    {
        self.cursor_visible = visible;
    }

    /// Set cursor grab (locks cursor to window).
    pub fn set_cursor_grabbed(&mut self, grabbed: bool)
        ensures
            final(self).cursor_grabbed == grabbed,
            final(self).cursor_visible == old(self).cursor_visible,
            final(self).held == old(self).held,
            final(self).pressed_this_frame == old(self).pressed_this_frame,
            final(self).released_this_frame == old(self).released_this_frame,
            final(self).drag_start == old(self).drag_start,
            final(self).position == old(self).position,
    {
        self.cursor_grabbed = grabbed;
    }

    /// Clear the per-frame parts of the state (pressed and released edges,
    /// scroll and movement), as the engine does at the start of every frame.
    pub fn clear_frame_edges(&mut self)
        ensures
            final(self).pressed_this_frame@ == Seq::<MouseButton>::empty(),
            final(self).released_this_frame@ == Seq::<MouseButton>::empty(),
            final(self).held == old(self).held,
            final(self).drag_start == old(self).drag_start,
            final(self).position == old(self).position,
            final(self).cursor_visible == old(self).cursor_visible,
            final(self).cursor_grabbed == old(self).cursor_grabbed,
    {
        self.pressed_this_frame.clear();
        self.released_this_frame.clear();
        self.scroll = vec2_zero();
        self.delta = vec2_zero();
    }
}

// ─────────────────────────────────────────────
// Keyboard
// ─────────────────────────────────────────────

/// Keyboard state for the current frame.
#[derive(Debug, Clone)]
pub struct KeyboardState {
    /// Keys currently held down.
    held: Vec<KeyCode>,
    /// Keys pressed this frame.
    pressed_this_frame: Vec<KeyCode>,
    /// Keys released this frame.
    released_this_frame: Vec<KeyCode>,
    /// Currently buffered text input (from IME / key events).
    text_buffer: String,
}

/// `keys` without any occurrence of `key`.
fn keys_without(keys: &Vec<KeyCode>, key: KeyCode) -> (r: Vec<KeyCode>)
    ensures
        r@.to_set() == keys@.to_set().remove(key),
{
    let mut out: Vec<KeyCode> = Vec::new();
    let mut i: usize = 0;
    while i < keys.len()
        invariant
            i <= keys@.len(),
            forall|k: KeyCode|
                #[trigger] out@.contains(k) <==> (keys@.subrange(0, i as int).contains(k) && k
                    != key),
        decreases keys@.len() - i,
    {
        let k = keys[i];
        if k != key {
            out.push(k);
        }
        proof {
            assert(keys@.subrange(0, i + 1) =~= keys@.subrange(0, i as int).push(k));
        }
        i += 1;
    }
    proof {
        assert(keys@.subrange(0, keys@.len() as int) =~= keys@);
        assert(out@.to_set() =~= keys@.to_set().remove(key));
    }
    out
}

impl Default for KeyboardState {
    /// No key held or changed, no buffered text.
    fn default() -> (k: Self)
        ensures
            k.held_keys() == Set::<KeyCode>::empty(),
            k.pressed_keys() == Set::<KeyCode>::empty(),
            k.released_keys() == Set::<KeyCode>::empty(),
            k.text_view() == Seq::<char>::empty(),
    {
        let k = KeyboardState {
            held: Vec::new(),
            pressed_this_frame: Vec::new(),
            released_this_frame: Vec::new(),
            text_buffer: String::new(),
        };
        proof {
            assert(k.held@.to_set() =~= Set::<KeyCode>::empty());
            assert(k.pressed_this_frame@.to_set() =~= Set::<KeyCode>::empty());
            assert(k.released_this_frame@.to_set() =~= Set::<KeyCode>::empty());
        }
        k
    }
}

impl KeyboardState {
    /// Keys currently held down.
    pub closed spec fn held_keys(&self) -> Set<KeyCode> {
        self.held@.to_set()
    }

    /// Keys pressed this frame.
    pub closed spec fn pressed_keys(&self) -> Set<KeyCode> {
        self.pressed_this_frame@.to_set()
    }

    /// Keys released this frame.
    pub closed spec fn released_keys(&self) -> Set<KeyCode> {
        self.released_this_frame@.to_set()
    }

    /// The buffered text input.
    pub closed spec fn text_view(&self) -> Seq<char> {
        self.text_buffer@
    }

    /// Is the key currently held?
    pub fn is_down(&self, key: KeyCode) -> (r: bool)
        ensures
            r == self.held_keys().contains(key),
    {
        keys_contain(&self.held, key)
    }

    /// Was the key pressed this frame (down-edge)?
    pub fn is_pressed(&self, key: KeyCode) -> (r: bool)
        ensures
            r == self.pressed_keys().contains(key),
    {
        keys_contain(&self.pressed_this_frame, key)
    }

    /// Was the key released this frame (up-edge)?
    pub fn is_released(&self, key: KeyCode) -> (r: bool)
        ensures
            r == self.released_keys().contains(key),
    {
        keys_contain(&self.released_this_frame, key)
    }

    /// Are all given keys held down simultaneously? (True for no keys.)
    pub fn are_all_down(&self, keys: &[KeyCode]) -> (r: bool)
        ensures
            r == (forall|i: int| 0 <= i < keys@.len() ==> self.held_keys().contains(#[trigger] keys@[i])),
    {
        let mut i: usize = 0;
        while i < keys.len()
            invariant
                i <= keys@.len(),
                forall|j: int| 0 <= j < i ==> self.held_keys().contains(#[trigger] keys@[j]),
            decreases keys@.len() - i,
        {
            if !keys_contain(&self.held, keys[i]) {
                return false;
            }
            i += 1;
        }
        true
    }

    /// Is any of the given keys held down? (False for no keys.)
    pub fn is_any_down(&self, keys: &[KeyCode]) -> (r: bool)
        ensures
            r == (exists|i: int| 0 <= i < keys@.len() && self.held_keys().contains(#[trigger] keys@[i])),
    {
        let mut i: usize = 0;
        while i < keys.len()
            invariant
                i <= keys@.len(),
                forall|j: int| 0 <= j < i ==> !self.held_keys().contains(#[trigger] keys@[j]),
            decreases keys@.len() - i,
        {
            if keys_contain(&self.held, keys[i]) {
                return true;
            }
            i += 1;
        }
        false
    }

    /// Take the text input buffer (clears it).
    pub fn take_text(&mut self) -> (t: String)
        ensures
            t@ == old(self).text_view(),
            final(self).text_view() == Seq::<char>::empty(),
            final(self).held_keys() == old(self).held_keys(),
            final(self).pressed_keys() == old(self).pressed_keys(),
            final(self).released_keys() == old(self).released_keys(),
    {
        let mut t = String::new();
        std::mem::swap(&mut t, &mut self.text_buffer);
        t
    }

    /// Peek at the text buffer without clearing.
    pub fn text(&self) -> (t: &str)
        ensures
            t@ == self.text_view(),
    {
        self.text_buffer.as_str()
    }

    /// Record a key-down event from the windowing layer: the key becomes
    /// held, and counts as pressed this frame unless it was held already
    /// (a key-repeat event).
    pub fn key_down(&mut self, key: KeyCode)
        ensures
            final(self).held_keys() == old(self).held_keys().insert(key),
            final(self).pressed_keys() == if old(self).held_keys().contains(key) {
                old(self).pressed_keys()
            } else {
                old(self).pressed_keys().insert(key)
            },
            final(self).released_keys() == old(self).released_keys(),
            final(self).text_view() == old(self).text_view(),
    {
        if !keys_contain(&self.held, key) {
            self.held.push(key);
            self.pressed_this_frame.push(key);
            proof {
                assert(self.held@.to_set() =~= old(self).held@.to_set().insert(key));
                assert(self.pressed_this_frame@.to_set() =~= old(
                    self,
                ).pressed_this_frame@.to_set().insert(key));
            }
        } else {
            proof {
                assert(old(self).held@.to_set().insert(key) =~= old(self).held@.to_set());
            }
        }
    }

    /// Record a key-up event from the windowing layer: the key is no longer
    /// held, and counts as released this frame if it was held.
    pub fn key_up(&mut self, key: KeyCode)
        ensures
            final(self).held_keys() == old(self).held_keys().remove(key),
            final(self).released_keys() == if old(self).held_keys().contains(key) {
                old(self).released_keys().insert(key)
            } else {
                old(self).released_keys()
            },
            final(self).pressed_keys() == old(self).pressed_keys(),
            final(self).text_view() == old(self).text_view(),
    {
        if keys_contain(&self.held, key) {
            self.held = keys_without(&self.held, key);
            self.released_this_frame.push(key);
            proof {
                assert(self.released_this_frame@.to_set() =~= old(
                    self,
                ).released_this_frame@.to_set().insert(key));
            }
        } else {
            proof {
                assert(old(self).held@.to_set().remove(key) =~= old(self).held@.to_set());
            }
        }
    }

    /// Record text typed this frame (from IME / key events).
    pub fn push_text(&mut self, text: &str)
        ensures
            final(self).text_view() == old(self).text_view() + text@,
            final(self).held_keys() == old(self).held_keys(),
            final(self).pressed_keys() == old(self).pressed_keys(),
            final(self).released_keys() == old(self).released_keys(),
    {
        self.text_buffer.append(text);
    }

    /// Clear the pressed and released edges, as the engine does at the start
    /// of every frame; held keys and buffered text stay.
    pub fn clear_frame_edges(&mut self)
        ensures
            final(self).pressed_keys() == Set::<KeyCode>::empty(),
            final(self).released_keys() == Set::<KeyCode>::empty(),
            final(self).held_keys() == old(self).held_keys(),
            final(self).text_view() == old(self).text_view(),
    {
        self.pressed_this_frame.clear();
        self.released_this_frame.clear();
        proof {
            assert(self.pressed_this_frame@.to_set() =~= Set::<KeyCode>::empty());
            assert(self.released_this_frame@.to_set() =~= Set::<KeyCode>::empty());
        }
    }
}


// ─────────────────────────────────────────────
// Input Actions (remappable bindings)
// ─────────────────────────────────────────────

/// A named input action that can be bound to multiple keys/buttons.
#[derive(Debug, Clone)]
pub struct InputAction {
    /// Human-readable name.
    pub name: String,
    /// Bound keyboard keys.
    pub keys: Vec<KeyCode>,
    /// Bound mouse buttons.
    pub mouse_buttons: Vec<MouseButton>,
    /// Gamepad buttons.
    pub gamepad_buttons: Vec<u32>,
}

/// An action is held when one of its keys or one of its mouse buttons is
/// held.
pub open spec fn action_down(action: InputAction, keyboard: KeyboardState, mouse: MouseState) -> bool {
    ||| exists|i: int|
        0 <= i < action.keys@.len() && keyboard.held_keys().contains(
            #[trigger] action.keys@[i],
        )
    ||| exists|i: int|
        0 <= i < action.mouse_buttons@.len() && mouse.held@.contains(
            #[trigger] action.mouse_buttons@[i],
        )
}

/// An action was just activated when one of its keys or one of its mouse
/// buttons was pressed this frame.
pub open spec fn action_pressed(action: InputAction, keyboard: KeyboardState, mouse: MouseState) -> bool {
    ||| exists|i: int|
        0 <= i < action.keys@.len() && keyboard.pressed_keys().contains(
            #[trigger] action.keys@[i],
        )
    ||| exists|i: int|
        0 <= i < action.mouse_buttons@.len() && mouse.pressed_this_frame@.contains(
            #[trigger] action.mouse_buttons@[i],
        )
}

impl InputAction {
    /// Create a new named input action with no bindings.
    pub fn new(name: &str) -> (a: Self)
        ensures
            a.name@ == name@,
            a.keys@ == Seq::<KeyCode>::empty(),
            a.mouse_buttons@ == Seq::<MouseButton>::empty(),
            a.gamepad_buttons@ == Seq::<u32>::empty(),
    {
        InputAction {
            name: String::from_str(name),
            keys: Vec::new(),
            mouse_buttons: Vec::new(),
            gamepad_buttons: Vec::new(),
        }
    }

    /// Bind a keyboard key to this action.
    pub fn bind_key(&mut self, key: KeyCode) -> (r: &mut Self)
        ensures
            r.keys@ == old(self).keys@.push(key),
            r.name == old(self).name,
            r.mouse_buttons == old(self).mouse_buttons,
            r.gamepad_buttons == old(self).gamepad_buttons,
            *final(self) == *final(r),
    {
        self.keys.push(key);
        self
    }

    /// Bind a mouse button to this action.
    pub fn bind_mouse(&mut self, button: MouseButton) -> (r: &mut Self)
        ensures
            r.mouse_buttons@ == old(self).mouse_buttons@.push(button),
            r.name == old(self).name,
            r.keys == old(self).keys,
            r.gamepad_buttons == old(self).gamepad_buttons,
            *final(self) == *final(r),
    {
        self.mouse_buttons.push(button);
        self
    }

    /// Check if this action is currently active (held).
    pub fn is_down(&self, input: &InputState) -> (r: bool)
        ensures
            r == action_down(*self, input.keyboard_state(), input.mouse_state()),
    {
        let mut i: usize = 0;
        while i < self.keys.len()
            invariant
                i <= self.keys@.len(),
                forall|j: int|
                    0 <= j < i ==> !input.keyboard.held_keys().contains(#[trigger] self.keys@[j]),
            decreases self.keys@.len() - i,
        {
            if input.keyboard.is_down(self.keys[i]) {
                return true;
            }
            i += 1;
        }
        let mut i: usize = 0;
        while i < self.mouse_buttons.len()
            invariant
                i <= self.mouse_buttons@.len(),
                forall|j: int|
                    0 <= j < self.keys@.len() ==> !input.keyboard.held_keys().contains(
                        #[trigger] self.keys@[j],
                    ),
                forall|j: int|
                    0 <= j < i ==> !input.mouse.held@.contains(#[trigger] self.mouse_buttons@[j]),
            decreases self.mouse_buttons@.len() - i,
        {
            if input.mouse.is_down(self.mouse_buttons[i]) {
                return true;
            }
            i += 1;
        }
        false
    }

    /// Check if this action was just activated (pressed edge).
    pub fn is_pressed(&self, input: &InputState) -> (r: bool)
        ensures
            r == action_pressed(*self, input.keyboard_state(), input.mouse_state()),
    {
        let mut i: usize = 0;
        while i < self.keys.len()
            invariant
                i <= self.keys@.len(),
                forall|j: int|
                    0 <= j < i ==> !input.keyboard.pressed_keys().contains(
                        #[trigger] self.keys@[j],
                    ),
            decreases self.keys@.len() - i,
        {
            if input.keyboard.is_pressed(self.keys[i]) {
                return true;
            }
            i += 1;
        }
        let mut i: usize = 0;
        while i < self.mouse_buttons.len()
            invariant
                i <= self.mouse_buttons@.len(),
                forall|j: int|
                    0 <= j < self.keys@.len() ==> !input.keyboard.pressed_keys().contains(
                        #[trigger] self.keys@[j],
                    ),
                forall|j: int|
                    0 <= j < i ==> !input.mouse.pressed_this_frame@.contains(
                        #[trigger] self.mouse_buttons@[j],
                    ),
            decreases self.mouse_buttons@.len() - i,
        {
            if input.mouse.is_pressed(self.mouse_buttons[i]) {
                return true;
            }
            i += 1;
        }
        false
    }
}

// ─────────────────────────────────────────────
// Unified input state
// ─────────────────────────────────────────────

/// Unified input state.
#[derive(Debug, Clone)]
pub struct InputState {
    /// Keyboard state.
    pub keyboard: KeyboardState,
    /// Mouse state.
    pub mouse: MouseState,
    /// Registered input actions.
    actions: Vec<InputAction>,
}

impl Default for InputState {
    /// Default keyboard and mouse states and no registered actions.
    fn default() -> (s: Self)
        ensures
            s.keyboard_state().held_keys() == Set::<KeyCode>::empty(),
            s.keyboard_state().pressed_keys() == Set::<KeyCode>::empty(),
            s.keyboard_state().released_keys() == Set::<KeyCode>::empty(),
            s.keyboard_state().text_view() == Seq::<char>::empty(),
            s.mouse_state().drag_start is None,
            s.mouse_state().held@ == Seq::<MouseButton>::empty(),
            s.mouse_state().pressed_this_frame@ == Seq::<MouseButton>::empty(),
            s.mouse_state().released_this_frame@ == Seq::<MouseButton>::empty(),
            s.mouse_state().cursor_visible,
            !s.mouse_state().cursor_grabbed,
            s.registered() == Seq::<InputAction>::empty(),
    {
        InputState {
            keyboard: KeyboardState::default(),
            mouse: MouseState::default(),
            actions: Vec::new(),
        }
    }
}

impl InputState {
    /// The keyboard state (the `keyboard` field).
    pub closed spec fn keyboard_state(&self) -> KeyboardState {
        self.keyboard
    }

    /// The mouse state (the `mouse` field).
    pub closed spec fn mouse_state(&self) -> MouseState {
        self.mouse
    }

    /// The registered actions, in registration order.
    pub closed spec fn registered(&self) -> Seq<InputAction> {
        self.actions@
    }

    /// Register a new input action.
    pub fn register_action(&mut self, action: InputAction)
        ensures
            final(self).registered() == old(self).registered().push(action),
            final(self).keyboard_state() == old(self).keyboard_state(),
            final(self).mouse_state() == old(self).mouse_state(),
    {
        self.actions.push(action);
    }

    /// Index of the first registered action named `name`, if any.
    fn first_named(&self, name: &str) -> (r: Option<usize>)
        ensures
            match r {
                Some(i) => {
                    &&& i < self.registered().len()
                    &&& self.registered()[i as int].name@ == name@
                    &&& forall|j: int|
                        0 <= j < i ==> #[trigger] self.registered()[j].name@ != name@
                },
                None => forall|j: int|
                    0 <= j < self.registered().len() ==> #[trigger] self.registered()[j].name@
                        != name@,
            },
    {
        let key = String::from_str(name);
        let mut i: usize = 0;
        while i < self.actions.len()
            invariant
                i <= self.actions@.len(),
                key@ == name@,
                forall|j: int| 0 <= j < i ==> #[trigger] self.actions@[j].name@ != name@,
            decreases self.actions@.len() - i,
        {
            if self.actions[i].name == key {
                return Some(i);
            }
            i += 1;
        }
        None
    }

    /// Find the first registered action with the given name.
    pub fn action(&self, name: &str) -> (r: Option<&InputAction>)
        ensures
            match r {
                Some(a) => exists|i: int|
                    {
                        &&& 0 <= i < self.registered().len()
                        &&& self.registered()[i] == *a
                        &&& a.name@ == name@
                        &&& forall|j: int|
                            0 <= j < i ==> #[trigger] self.registered()[j].name@ != name@
                    },
                None => forall|j: int|
                    0 <= j < self.registered().len() ==> #[trigger] self.registered()[j].name@
                        != name@,
            },
    {
        match self.first_named(name) {
            Some(i) => Some(&self.actions[i]),
            None => None,
        }
    }

    /// Check if a named action is currently active: some registered action
    /// with that name is held.
    pub fn is_action_down(&self, name: &str) -> (r: bool)
        ensures
            r == exists|i: int|
                0 <= i < self.registered().len() && #[trigger] self.registered()[i].name@ == name@
                    && action_down(self.registered()[i], self.keyboard_state(), self.mouse_state()),
    {
        let key = String::from_str(name);
        let mut i: usize = 0;
        while i < self.actions.len()
            invariant
                i <= self.actions@.len(),
                key@ == name@,
                forall|j: int|
                    0 <= j < i ==> !(#[trigger] self.actions@[j].name@ == name@ && action_down(
                        self.actions@[j],
                        self.keyboard_state(),
                        self.mouse_state(),
                    )),
            decreases self.actions@.len() - i,
        {
            if self.actions[i].name == key && self.actions[i].is_down(self) {
                proof {
                    assert(self.registered()[i as int].name@ == name@);
                }
                return true;
            }
            i += 1;
        }
        false
    }

    /// Check if a named action was just pressed: some registered action with
    /// that name was activated this frame.
    pub fn is_action_pressed(&self, name: &str) -> (r: bool)
        ensures
            r == exists|i: int|
                0 <= i < self.registered().len() && #[trigger] self.registered()[i].name@ == name@
                    && action_pressed(self.registered()[i], self.keyboard_state(), self.mouse_state()),
    {
        let key = String::from_str(name);
        let mut i: usize = 0;
        while i < self.actions.len()
            invariant
                i <= self.actions@.len(),
                key@ == name@,
                forall|j: int|
                    0 <= j < i ==> !(#[trigger] self.actions@[j].name@ == name@ && action_pressed(
                        self.actions@[j],
                        self.keyboard_state(),
                        self.mouse_state(),
                    )),
            decreases self.actions@.len() - i,
        {
            if self.actions[i].name == key && self.actions[i].is_pressed(self) {
                proof {
                    assert(self.registered()[i as int].name@ == name@);
                }
                return true;
            }
            i += 1;
        }
        false
    }
}

/// An action counts as held exactly when one of its bound keys is held or
/// one of its bound mouse buttons is held.
pub proof fn law_action_down_bindings(action: InputAction, keyboard: KeyboardState, mouse: MouseState)
    ensures
        action_down(action, keyboard, mouse) <==> (exists|k: KeyCode|
            action.keys@.contains(k) && #[trigger] keyboard.held_keys().contains(k)) || (exists|
            b: MouseButton,
        | action.mouse_buttons@.contains(b) && #[trigger] mouse.held@.contains(b)),
{
    if exists|k: KeyCode| action.keys@.contains(k) && #[trigger] keyboard.held_keys().contains(k) {
        let k = choose|k: KeyCode| action.keys@.contains(k) && #[trigger] keyboard.held_keys().contains(k);
        let i = choose|i: int| 0 <= i < action.keys@.len() && action.keys@[i] == k;
        assert(keyboard.held_keys().contains(action.keys@[i]));
    }
    if exists|b: MouseButton| action.mouse_buttons@.contains(b) && #[trigger] mouse.held@.contains(b) {
        let b = choose|b: MouseButton| action.mouse_buttons@.contains(b) && #[trigger] mouse.held@.contains(b);
        let i = choose|i: int| 0 <= i < action.mouse_buttons@.len() && action.mouse_buttons@[i] == b;
        assert(mouse.held@.contains(action.mouse_buttons@[i]));
    }
    if exists|i: int| 0 <= i < action.keys@.len() && keyboard.held_keys().contains(#[trigger] action.keys@[i]) {
        let i = choose|i: int| 0 <= i < action.keys@.len() && keyboard.held_keys().contains(#[trigger] action.keys@[i]);
        assert(action.keys@.contains(action.keys@[i]));
    }
    if exists|i: int| 0 <= i < action.mouse_buttons@.len() && mouse.held@.contains(#[trigger] action.mouse_buttons@[i]) {
        let i = choose|i: int| 0 <= i < action.mouse_buttons@.len() && mouse.held@.contains(#[trigger] action.mouse_buttons@[i]);
        assert(action.mouse_buttons@.contains(action.mouse_buttons@[i]));
    }
}

/// An action counts as just pressed exactly when one of its bound keys was
/// pressed this frame or one of its bound mouse buttons was pressed this
/// frame.
pub proof fn law_action_pressed_bindings(action: InputAction, keyboard: KeyboardState, mouse: MouseState)
    ensures
        action_pressed(action, keyboard, mouse) <==> (exists|k: KeyCode|
            action.keys@.contains(k) && #[trigger] keyboard.pressed_keys().contains(k)) || (exists|
            b: MouseButton,
        | action.mouse_buttons@.contains(b) && #[trigger] mouse.pressed_this_frame@.contains(b)),
{
    if exists|k: KeyCode| action.keys@.contains(k) && #[trigger] keyboard.pressed_keys().contains(k) {
        let k = choose|k: KeyCode| action.keys@.contains(k) && #[trigger] keyboard.pressed_keys().contains(k);
        let i = choose|i: int| 0 <= i < action.keys@.len() && action.keys@[i] == k;
        assert(keyboard.pressed_keys().contains(action.keys@[i]));
    }
    if exists|b: MouseButton| action.mouse_buttons@.contains(b) && #[trigger] mouse.pressed_this_frame@.contains(b) {
        let b = choose|b: MouseButton| action.mouse_buttons@.contains(b) && #[trigger] mouse.pressed_this_frame@.contains(b);
        let i = choose|i: int| 0 <= i < action.mouse_buttons@.len() && action.mouse_buttons@[i] == b;
        assert(mouse.pressed_this_frame@.contains(action.mouse_buttons@[i]));
    }
    if exists|i: int| 0 <= i < action.keys@.len() && keyboard.pressed_keys().contains(#[trigger] action.keys@[i]) {
        let i = choose|i: int| 0 <= i < action.keys@.len() && keyboard.pressed_keys().contains(#[trigger] action.keys@[i]);
        assert(action.keys@.contains(action.keys@[i]));
    }
    if exists|i: int| 0 <= i < action.mouse_buttons@.len() && mouse.pressed_this_frame@.contains(#[trigger] action.mouse_buttons@[i]) {
        let i = choose|i: int| 0 <= i < action.mouse_buttons@.len() && mouse.pressed_this_frame@.contains(#[trigger] action.mouse_buttons@[i]);
        assert(action.mouse_buttons@.contains(action.mouse_buttons@[i]));
    }
}

} // verus!
