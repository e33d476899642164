//! Immediate-mode UI interaction logic: which widget is hovered, held down
//! (active) or focused, and what a widget reports for the frame. Hit-testing
//! against widget rectangles, drawing and hover animation are the
//! renderer's part; they hand this module whether the mouse is over the
//! widget and the left button's edges for the frame.

use vstd::prelude::*;
use vstd::utf8::{
    encode_scalar, encode_utf8, is_char_boundary, is_continuation_byte, last_continuation_byte,
    leading_byte_width_1, leading_byte_width_2, leading_byte_width_3, leading_byte_width_4,
    second_last_continuation_byte, third_last_continuation_byte, valid_utf8,
};

use crate::input::KeyCode;

verus! {

/// Result of a UI interaction.
#[derive(Debug, Clone, Copy, PartialEq, Eq, Structural)]
pub struct UiInteraction {
    /// The widget was clicked this frame.
    pub clicked: bool,
    /// The widget is being held down.
    pub pressed: bool,
    /// The widget was released this frame.
    pub released: bool,
    /// The mouse is hovering over the widget.
    pub hovered: bool,
    /// The widget just gained focus.
    pub focused: bool,
}

/// Keyboard modifier state.
#[derive(Debug, Clone, Copy, PartialEq, Eq, Structural)]
pub struct KeyModifiers {
    pub shift: bool,
    pub ctrl: bool,
    pub alt: bool,
    pub super_key: bool,
}

impl Default for KeyModifiers {
    /// No modifier held.
    fn default() -> (m: Self)
        ensures
            m == (KeyModifiers { shift: false, ctrl: false, alt: false, super_key: false }),
    {
        KeyModifiers { shift: false, ctrl: false, alt: false, super_key: false }
    }
}

/// Per-widget interaction state tracked across frames: the widget ids that
/// are hovered, active (being pressed), focused (for keyboard input) and hot
/// (pressed this frame), and the next widget z-index.
#[derive(Debug, Clone, Copy, PartialEq, Eq, Structural)]
pub struct WidgetFocus {
    /// Currently hovered widget ID.
    pub hovered_id: Option<u64>,
    /// Currently active (pressed) widget ID.
    pub active_id: Option<u64>,
    /// Currently focused widget ID (for keyboard input).
    pub focused_id: Option<u64>,
    /// Hot (mouse-down) widget ID.
    pub hot_id: Option<u64>,
    /// Next widget Z-index (auto-incremented).
    pub z_index: u32,
}

/// Whether `slot` holds the id `id`.
pub open spec fn holds(slot: Option<u64>, id: u64) -> bool {
    slot == Some(id)
}

/// One frame of a button with id `id`: the state afterwards and what the
/// button reports, given whether the mouse is over it and whether the left
/// button went down or up this frame.
///
/// A press over the button makes it active; it reports `pressed` while it
/// is active, `released` on the frame the button goes up after it was
/// active, and `clicked` when that release happens over it.
pub open spec fn button_step(w: WidgetFocus, id: u64, hovering: bool, pressed: bool, released: bool) -> (
    WidgetFocus,
    UiInteraction,
) {
    let was_active = holds(w.active_id, id);
    let w1 = if hovering {
        WidgetFocus { hovered_id: Some(id), ..w }
    } else {
        w
    };
    let w2 = if hovering && pressed {
        WidgetFocus { active_id: Some(id), hot_id: Some(id), ..w1 }
    } else {
        w1
    };
    let clicked = was_active && released && hovering;
    let released_now = was_active && released;
    let pressed_now = holds(w2.active_id, id);
    let w3 = if released_now {
        WidgetFocus { active_id: None, ..w2 }
    } else {
        w2
    };
    (
        w3,
        UiInteraction {
            clicked,
            pressed: pressed_now,
            released: released_now,
            hovered: hovering,
            focused: false,
        },
    )
}

/// One frame of a slider with id `id`: the state afterwards, what the slider
/// reports, and whether it follows the mouse this frame (it is active and
/// the button did not go up).
pub open spec fn slider_step(w: WidgetFocus, id: u64, hovering: bool, pressed: bool, released: bool) -> (
    WidgetFocus,
    UiInteraction,
    bool,
) {
    let w1 = if hovering {
        WidgetFocus { hovered_id: Some(id), ..w }
    } else {
        w
    };
    let interaction = UiInteraction {
        clicked: false,
        pressed: holds(w.active_id, id),
        released: false,
        hovered: hovering,
        focused: false,
    };
    let w2 = if hovering && pressed {
        WidgetFocus { active_id: Some(id), ..w1 }
    } else {
        w1
    };
    if holds(w2.active_id, id) {
        if released {
            (WidgetFocus { active_id: None, ..w2 }, interaction, false)
        } else {
            (w2, interaction, true)
        }
    } else {
        (w2, interaction, false)
    }
}

/// One frame of a text field with id `id`: the state afterwards, what the
/// field reports, and whether it was clicked (and so takes the focus) this
/// frame.
pub open spec fn text_input_step(w: WidgetFocus, id: u64, hovering: bool, pressed: bool) -> (
    WidgetFocus,
    UiInteraction,
    bool,
) {
    let w1 = if hovering {
        WidgetFocus { hovered_id: Some(id), ..w }
    } else {
        w
    };
    let clicked_in = hovering && pressed;
    let w2 = if clicked_in {
        WidgetFocus { focused_id: Some(id), ..w1 }
    } else {
        w1
    };
    (
        w2,
        UiInteraction {
            clicked: false,
            pressed: false,
            released: false,
            hovered: hovering,
            focused: holds(w2.focused_id, id),
        },
        clicked_in,
    )
}

impl WidgetFocus {
    /// No widget hovered, active, focused or hot.
    pub fn new() -> (w: Self)
        ensures
            w == (WidgetFocus {
                hovered_id: None,
                active_id: None,
                focused_id: None,
                hot_id: None,
                z_index: 0,
            }),
    {
        WidgetFocus { hovered_id: None, active_id: None, focused_id: None, hot_id: None, z_index: 0 }
    }

    /// Check if a widget is hovered.
    pub fn is_hovered(&self, id: u64) -> (r: bool)
        ensures
            r == holds(self.hovered_id, id),
    {
        match self.hovered_id {
            Some(h) => h == id,
            None => false,
        }
    }

    /// Check if a widget is active (being pressed).
    pub fn is_active(&self, id: u64) -> (r: bool)
        ensures
            r == holds(self.active_id, id),
    {
        match self.active_id {
            Some(h) => h == id,
            None => false,
        }
    }

    /// Check if a widget is focused (for text input).
    pub fn is_focused(&self, id: u64) -> (r: bool)
        ensures
            r == holds(self.focused_id, id),
    {
        match self.focused_id {
            Some(h) => h == id,
            None => false,
        }
    }

    /// Begin a new frame — reset per-frame state (hover, hot, z-index); the
    /// active and focused widgets stay.
    pub fn begin_frame(&mut self)
        ensures
            *final(self) == (WidgetFocus {
                hovered_id: None,
                hot_id: None,
                z_index: 0,
                ..*old(self)
            }),
    {
        self.hovered_id = None;
        self.hot_id = None;
        self.z_index = 0;
    }

    /// Run one frame of a button (see `button_step`).
    pub fn button(&mut self, id: u64, hovering: bool, pressed: bool, released: bool) -> (r:
        UiInteraction)
        ensures
            (*final(self), r) == button_step(*old(self), id, hovering, pressed, released),
    {
        if hovering {
            self.hovered_id = Some(id);
        }
        let was_active = self.is_active(id);
        if hovering && pressed {
            self.active_id = Some(id);
            self.hot_id = Some(id);
        }
        let clicked = was_active && released && hovering;
        let released_now = was_active && released;
        let pressed_now = self.is_active(id);
        if released_now {
            self.active_id = None;
        }
        UiInteraction {
            clicked,
            pressed: pressed_now,
            released: released_now,
            hovered: hovering,
            focused: false,
        }
    }

    /// Run one frame of a slider (see `slider_step`); the flag says whether
    /// the slider follows the mouse this frame.
    pub fn slider(&mut self, id: u64, hovering: bool, pressed: bool, released: bool) -> (r: (
        UiInteraction,
        bool,
    ))
        ensures
            (*final(self), r.0, r.1) == slider_step(*old(self), id, hovering, pressed, released),
    {
        if hovering {
            self.hovered_id = Some(id);
        }
        let interaction = UiInteraction {
            clicked: false,
            pressed: self.is_active(id),
            released: false,
            hovered: hovering,
            focused: false,
        };
        if hovering && pressed {
            self.active_id = Some(id);
        }
        let mut tracking = false;
        if self.is_active(id) {
            if released {
                self.active_id = None;
            } else {
                tracking = true;
            }
        }
        (interaction, tracking)
    }

    /// Run one frame of a text field (see `text_input_step`); the flag says
    /// whether it was clicked this frame.
    pub fn text_input(&mut self, id: u64, hovering: bool, pressed: bool) -> (r: (
        UiInteraction,
        bool,
    ))
        ensures
            (*final(self), r.0, r.1) == text_input_step(*old(self), id, hovering, pressed),
    {
        if hovering {
            self.hovered_id = Some(id);
        }
        let clicked_in = hovering && pressed;
        if clicked_in {
            self.focused_id = Some(id);
        }
        let focused = self.is_focused(id);
        (
            UiInteraction {
                clicked: false,
                pressed: false,
                released: false,
                hovered: hovering,
                focused,
            },
            clicked_in,
        )
    }
}

/// A checkbox toggles exactly when its button reports a click.
pub fn toggle_on_click(checked: &mut bool, interaction: UiInteraction)
    ensures
        *final(checked) == (if interaction.clicked {
            !*old(checked)
        } else {
            *old(checked)
        }),
{
    if interaction.clicked {
        *checked = !*checked;
    }
}

/// A button reports a click only when it was already active (the press
/// started on it) and the button goes up while the mouse is over it.
pub proof fn law_click_needs_press_on_widget(
    w: WidgetFocus,
    id: u64,
    hovering: bool,
    pressed: bool,
    released: bool,
)
    ensures
        button_step(w, id, hovering, pressed, released).1.clicked <==> (holds(w.active_id, id)
            && released && hovering),
{
}

/// Pressing on a button in one frame and releasing over it in the next
/// clicks it, and leaves no widget active.
pub proof fn law_press_then_release_clicks(w: WidgetFocus, id: u64)
    ensures
        ({
            let (w1, i1) = button_step(w, id, true, true, false);
            let (w2, i2) = button_step(w1, id, true, false, true);
            &&& i1.pressed
            &&& !i1.clicked
            &&& i2.clicked
            &&& i2.released
            &&& w2.active_id is None
        }),
{
}

/// Releasing after moving off a pressed button releases it without a
/// click.
pub proof fn law_release_elsewhere_no_click(w: WidgetFocus, id: u64)
    ensures
        ({
            let (w1, i1) = button_step(w, id, true, true, false);
            let (w2, i2) = button_step(w1, id, false, false, true);
            &&& !i2.clicked
            &&& i2.released
            &&& w2.active_id is None
        }),
{
}

// ─────────────────────────────────────────────
// Text input
// ─────────────────────────────────────────────

/// State for a text input widget: the text, the cursor and the selection.
///
/// `cursor` and `selection_start` are byte offsets into `text`; editing
/// happens at character boundaries.
#[derive(Debug, Clone)]
pub struct TextInputState {
    /// Current text content.
    pub text: String,
    /// Cursor position (byte offset into `text`).
    pub cursor: usize,
    /// Selection start (None = no selection).
    pub selection_start: Option<usize>,
    /// Whether the cursor blink is visible.
    pub cursor_visible: bool,
}

/// The UTF-8 bytes of a text.
pub open spec fn utf8_of(text: Seq<char>) -> Seq<u8> {
    encode_utf8(text)
}

/// `p` is the character boundary just before `c` in `bytes`: the start of
/// the character that ends at `c`.
pub open spec fn is_prev_boundary(bytes: Seq<u8>, c: int, p: int) -> bool {
    &&& 0 <= p < c
    &&& is_char_boundary(bytes, p)
    &&& forall|i: int| p < i < c ==> !is_char_boundary(bytes, i)
}

/// `q` is the character boundary just after `c` in `bytes`: the end of the
/// character that starts at `c`.
pub open spec fn is_next_boundary(bytes: Seq<u8>, c: int, q: int) -> bool {
    &&& c < q <= bytes.len()
    &&& is_char_boundary(bytes, q)
    &&& forall|i: int| c < i < q ==> !is_char_boundary(bytes, i)
}

/// `bytes` with the bytes from `lo` up to `hi` replaced by `mid`.
pub open spec fn splice(bytes: Seq<u8>, lo: int, hi: int, mid: Seq<u8>) -> Seq<u8> {
    bytes.subrange(0, lo) + mid + bytes.subrange(hi, bytes.len() as int)
}

/// The ends of the selection between `start` and the cursor, lower first.
pub open spec fn selection_range(start: usize, cursor: usize) -> (int, int) {
    if start < cursor {
        (start as int, cursor as int)
    } else {
        (cursor as int, start as int)
    }
}

/// Whether the selection (if any) can be deleted: both its ends are
/// character boundaries of `bytes`.
pub open spec fn selection_deletable(bytes: Seq<u8>, cursor: usize, selection_start: Option<usize>) -> bool {
    match selection_start {
        Some(start) => is_char_boundary(bytes, selection_range(start, cursor).0)
            && is_char_boundary(bytes, selection_range(start, cursor).1),
        None => true,
    }
}

/// Text bytes and cursor once the selection (if any) is deleted: the
/// selected bytes go and the cursor moves to where they began.
pub open spec fn after_selection_deleted(bytes: Seq<u8>, cursor: usize, selection_start: Option<usize>) -> (
    Seq<u8>,
    int,
) {
    match selection_start {
        Some(start) => {
            let (lo, hi) = selection_range(start, cursor);
            (splice(bytes, lo, hi, Seq::empty()), lo)
        },
        None => (bytes, cursor as int),
    }
}

/// Whether a byte has the form of a UTF-8 continuation byte.
fn is_continuation(byte: u8) -> (r: bool)
    ensures
        r == is_continuation_byte(byte),
{
    0x80 <= byte && byte <= 0xbf
}

/// The character boundary just before `c`.
fn prev_boundary(bytes: &[u8], c: usize) -> (p: usize)
    requires
        valid_utf8(bytes@),
        0 < c <= bytes@.len(),
    ensures
        is_prev_boundary(bytes@, c as int, p as int),
{
    broadcast use vstd::utf8::is_char_boundary_start_end_of_seq,
        vstd::utf8::is_char_boundary_iff_not_is_continuation_byte;

    let mut p: usize = c - 1;
    while p > 0 && is_continuation(bytes[p])
        invariant
            valid_utf8(bytes@),
            0 <= p < c <= bytes@.len(),
            forall|i: int| p < i < c ==> !is_char_boundary(bytes@, i),
        decreases p,
    {
        proof {
            vstd::utf8::is_char_boundary_iff_not_is_continuation_byte(bytes@, p as int);
        }
        p -= 1;
    }
    p
}

/// The character boundary just after `c`.
fn next_boundary(bytes: &[u8], c: usize) -> (q: usize)
    requires
        valid_utf8(bytes@),
        c < bytes@.len(),
    ensures
        is_next_boundary(bytes@, c as int, q as int),
{
    broadcast use vstd::utf8::is_char_boundary_start_end_of_seq,
        vstd::utf8::is_char_boundary_iff_not_is_continuation_byte;

    let n: usize = bytes.len();
    let mut q: usize = c + 1;
    while q < n && is_continuation(bytes[q])
        invariant
            valid_utf8(bytes@),
            n == bytes@.len(),
            c < q <= bytes@.len(),
            forall|i: int| c < i < q ==> !is_char_boundary(bytes@, i),
        decreases bytes@.len() - q,
    {
        proof {
            vstd::utf8::is_char_boundary_iff_not_is_continuation_byte(bytes@, q as int);
        }
        q += 1;
    }
    q
}

/// Encoding a concatenation encodes each part in turn.
proof fn lemma_utf8_concat(a: Seq<char>, b: Seq<char>)
    ensures
        encode_utf8(a + b) == encode_utf8(a) + encode_utf8(b),
    decreases a.len(),
{
    if a.len() == 0 {
        assert(a + b =~= b);
    } else {
        lemma_utf8_concat(a.drop_first(), b);
        assert((a + b).drop_first() =~= a.drop_first() + b);
        assert(encode_utf8(a) + encode_utf8(b) =~= encode_scalar_head(a) + (encode_utf8(
            a.drop_first(),
        ) + encode_utf8(b)));
    }
}

/// The encoding of the first character of a non-empty text.
spec fn encode_scalar_head(a: Seq<char>) -> Seq<u8> {
    encode_scalar(a[0] as u32)
}

/// `text` with the bytes from `lo` up to `hi` replaced by `mid`.
fn spliced(text: &String, lo: usize, hi: usize, mid: &str) -> (r: String)
    requires
        lo <= hi,
        is_char_boundary(utf8_of(text@), lo as int),
        is_char_boundary(utf8_of(text@), hi as int),
    ensures
        utf8_of(r@) == splice(utf8_of(text@), lo as int, hi as int, utf8_of(mid@)),
{
    broadcast use vstd::utf8::encode_utf8_valid_utf8;

    let s = text.as_str();
    let (a, _) = s.split_at(lo);
    let (_, b) = s.split_at(hi);
    let mut r = String::from_str(a);
    r.append(mid);
    r.append(b);
    proof {
        lemma_utf8_concat(a@, mid@);
        lemma_utf8_concat(a@ + mid@, b@);
    }
    r
}

/// The character boundary just before `c` (see `is_prev_boundary`).
pub open spec fn boundary_before(bytes: Seq<u8>, c: int) -> int {
    choose|p: int| is_prev_boundary(bytes, c, p)
}

/// The character boundary just after `c` (see `is_next_boundary`).
pub open spec fn boundary_after(bytes: Seq<u8>, c: int) -> int {
    choose|q: int| is_next_boundary(bytes, c, q)
}

/// There is one boundary just before a position: any boundary that is just
/// before `c` is `boundary_before(bytes, c)`.
pub proof fn lemma_prev_boundary_unique(bytes: Seq<u8>, c: int, p: int)
    requires
        is_prev_boundary(bytes, c, p),
    ensures
        boundary_before(bytes, c) == p,
{
    let p2 = boundary_before(bytes, c);
    assert(is_prev_boundary(bytes, c, p2));
    if p2 < p {
        assert(!is_char_boundary(bytes, p));
    } else if p < p2 {
        assert(!is_char_boundary(bytes, p2));
    }
}

/// There is one boundary just after a position: any boundary that is just
/// after `c` is `boundary_after(bytes, c)`.
pub proof fn lemma_next_boundary_unique(bytes: Seq<u8>, c: int, q: int)
    requires
        is_next_boundary(bytes, c, q),
    ensures
        boundary_after(bytes, c) == q,
{
    let q2 = boundary_after(bytes, c);
    assert(is_next_boundary(bytes, c, q2));
    if q2 < q {
        assert(!is_char_boundary(bytes, q2));
    } else if q < q2 {
        assert(!is_char_boundary(bytes, q));
    }
}

/// Whether a key press can be handled at this cursor and selection: the
/// positions it reads or cuts at are character boundaries.
pub open spec fn key_edit_allowed(bytes: Seq<u8>, cursor: usize, selection_start: Option<usize>, key: KeyCode) -> bool {
    match key {
        KeyCode::Backspace => if selection_start is Some {
            selection_deletable(bytes, cursor, selection_start)
        } else {
            cursor > 0 ==> is_char_boundary(bytes, cursor as int)
        },
        KeyCode::Delete => if selection_start is Some {
            selection_deletable(bytes, cursor, selection_start)
        } else {
            cursor < bytes.len() ==> is_char_boundary(bytes, cursor as int)
        },
        KeyCode::Left => cursor > 0 ==> is_char_boundary(bytes, cursor as int),
        KeyCode::Right => cursor < bytes.len() ==> is_char_boundary(bytes, cursor as int),
        _ => true,
    }
}

/// Text bytes, cursor and selection after a key press.
///
/// Backspace and Delete delete the selection if there is one, else the
/// character before (Backspace) or after (Delete) the cursor. Left and Right
/// move the cursor one character, extending the selection with Shift and
/// dropping it without. Home and End move to either end and drop the
/// selection; Ctrl+A selects everything. Other keys change nothing.
pub open spec fn key_edit(
    bytes: Seq<u8>,
    cursor: usize,
    selection_start: Option<usize>,
    key: KeyCode,
    modifiers: KeyModifiers,
) -> (Seq<u8>, int, Option<usize>) {
    let moved_selection = if modifiers.shift {
        Some(
            match selection_start {
                Some(start) => start,
                None => cursor,
            },
        )
    } else {
        None
    };
    match key {
        KeyCode::Backspace => if selection_start is Some {
            let (b, c) = after_selection_deleted(bytes, cursor, selection_start);
            (b, c, None)
        } else if cursor > 0 {
            let p = boundary_before(bytes, cursor as int);
            (splice(bytes, p, cursor as int, Seq::empty()), p, selection_start)
        } else {
            (bytes, cursor as int, selection_start)
        },
        KeyCode::Delete => if selection_start is Some {
            let (b, c) = after_selection_deleted(bytes, cursor, selection_start);
            (b, c, None)
        } else if cursor < bytes.len() {
            let q = boundary_after(bytes, cursor as int);
            (splice(bytes, cursor as int, q, Seq::empty()), cursor as int, selection_start)
        } else {
            (bytes, cursor as int, selection_start)
        },
        KeyCode::Left => (
            bytes,
            if cursor > 0 {
                boundary_before(bytes, cursor as int)
            } else {
                cursor as int
            },
            moved_selection,
        ),
        KeyCode::Right => (
            bytes,
            if cursor < bytes.len() {
                boundary_after(bytes, cursor as int)
            } else {
                cursor as int
            },
            moved_selection,
        ),
        KeyCode::Home => (bytes, 0, None),
        KeyCode::End => (bytes, bytes.len() as int, None),
        KeyCode::A => if modifiers.ctrl {
            (bytes, bytes.len() as int, Some(0))
        } else {
            (bytes, cursor as int, selection_start)
        },
        _ => (bytes, cursor as int, selection_start),
    }
}

impl Default for TextInputState {
    /// Empty text, cursor at the start, no selection, cursor shown.
    fn default() -> (s: Self)
        ensures
            s.text@ == Seq::<char>::empty(),
            s.cursor == 0,
            s.selection_start is None,
            s.cursor_visible,
    {
        TextInputState { text: String::new(), cursor: 0, selection_start: None, cursor_visible: true }
    }
}

impl TextInputState {
    /// Create a text input with initial text, the cursor at its end.
    pub fn new(text: &str) -> (s: Self)
        ensures
            s.text@ == text@,
            s.cursor == utf8_of(text@).len(),
            s.selection_start is None,
            s.cursor_visible,
    {
        let len = text.as_bytes().len();
        TextInputState { text: String::from_str(text), cursor: len, selection_start: None, cursor_visible: true }
    }

    /// Delete the selected text (if any), leaving the cursor where it began.
    fn delete_selection(&mut self)
        requires
            selection_deletable(utf8_of(old(self).text@), old(self).cursor, old(self).selection_start),
        ensures
            (utf8_of(final(self).text@), final(self).cursor as int) == after_selection_deleted(
                utf8_of(old(self).text@),
                old(self).cursor,
                old(self).selection_start,
            ),
            final(self).selection_start is None,
            final(self).cursor_visible == old(self).cursor_visible,
    {
        if let Some(start) = self.selection_start {
            let (lo, hi) = if start < self.cursor {
                (start, self.cursor)
            } else {
                (self.cursor, start)
            };
            proof {
                reveal_strlit("");
            }
            self.text = spliced(&self.text, lo, hi, "");
            self.cursor = lo;
            self.selection_start = None;
        }
    }

    /// Handle typed text (called when focused): the selection (if any) is
    /// replaced by it, else it is inserted at the cursor; the cursor ends
    /// after it.
    pub fn handle_text_input(&mut self, input_text: &str)
        requires
            selection_deletable(utf8_of(old(self).text@), old(self).cursor, old(self).selection_start),
            is_char_boundary(
                after_selection_deleted(
                    utf8_of(old(self).text@),
                    old(self).cursor,
                    old(self).selection_start,
                ).0,
                after_selection_deleted(
                    utf8_of(old(self).text@),
                    old(self).cursor,
                    old(self).selection_start,
                ).1,
            ),
            after_selection_deleted(
                utf8_of(old(self).text@),
                old(self).cursor,
                old(self).selection_start,
            ).1 + utf8_of(input_text@).len() <= usize::MAX,
        ensures
            ({
                let (b, c) = after_selection_deleted(
                    utf8_of(old(self).text@),
                    old(self).cursor,
                    old(self).selection_start,
                );
                &&& utf8_of(final(self).text@) == splice(b, c, c, utf8_of(input_text@))
                &&& final(self).cursor == c + utf8_of(input_text@).len()
            }),
            final(self).selection_start is None,
            final(self).cursor_visible == old(self).cursor_visible,
    {
        if self.selection_start.is_some() {
            self.delete_selection();
        }
        self.text = spliced(&self.text, self.cursor, self.cursor, input_text);
        self.cursor = self.cursor + input_text.len();
    }

    /// The cursor moved by Left/Right: with Shift the selection starts (or
    /// stays anchored) where it was, without Shift it is dropped.
    fn anchor_selection(&mut self, shift: bool)
        ensures
            final(self).selection_start == if shift {
                Some(
                    match old(self).selection_start {
                        Some(start) => start,
                        None => old(self).cursor,
                    },
                )
            } else {
                None
            },
            final(self).text@ == old(self).text@,
            final(self).cursor == old(self).cursor,
            final(self).cursor_visible == old(self).cursor_visible,
    {
        if shift {
            let start = match self.selection_start {
                Some(start) => start,
                None => self.cursor,
            };
            self.selection_start = Some(start);
        } else {
            self.selection_start = None;
        }
    }

    /// Handle a key press (see `key_edit`).
    pub fn handle_key(&mut self, key: KeyCode, modifiers: KeyModifiers)
        requires
            key_edit_allowed(utf8_of(old(self).text@), old(self).cursor, old(self).selection_start, key),
        ensures
            ({
                let (b, c, sel) = key_edit(
                    utf8_of(old(self).text@),
                    old(self).cursor,
                    old(self).selection_start,
                    key,
                    modifiers,
                );
                &&& utf8_of(final(self).text@) == b
                &&& final(self).cursor == c
                &&& final(self).selection_start == sel
            }),
            final(self).cursor_visible == old(self).cursor_visible,
    {
        broadcast use vstd::utf8::encode_utf8_valid_utf8;

        proof {
            reveal_strlit("");
        }
        let len: usize = self.text.as_str().as_bytes().len();
        match key {
            KeyCode::Backspace => {
                if self.selection_start.is_some() {
                    self.delete_selection();
                } else if self.cursor > 0 {
                    let p = prev_boundary(self.text.as_str().as_bytes(), self.cursor);
                    proof {
                        lemma_prev_boundary_unique(utf8_of(self.text@), self.cursor as int, p as int);
                    }
                    self.text = spliced(&self.text, p, self.cursor, "");
                    self.cursor = p;
                }
            },
            KeyCode::Delete => {
                if self.selection_start.is_some() {
                    self.delete_selection();
                } else if self.cursor < len {
                    let q = next_boundary(self.text.as_str().as_bytes(), self.cursor);
                    proof {
                        lemma_next_boundary_unique(utf8_of(self.text@), self.cursor as int, q as int);
                    }
                    self.text = spliced(&self.text, self.cursor, q, "");
                }
            },
            KeyCode::Left => {
                self.anchor_selection(modifiers.shift);
                if self.cursor > 0 {
                    let p = prev_boundary(self.text.as_str().as_bytes(), self.cursor);
                    proof {
                        lemma_prev_boundary_unique(utf8_of(self.text@), self.cursor as int, p as int);
                    }
                    self.cursor = p;
                }
            },
            KeyCode::Right => {
                self.anchor_selection(modifiers.shift);
                if self.cursor < len {
                    let q = next_boundary(self.text.as_str().as_bytes(), self.cursor);
                    proof {
                        lemma_next_boundary_unique(utf8_of(self.text@), self.cursor as int, q as int);
                    }
                    self.cursor = q;
                }
            },
            KeyCode::Home => {
                self.cursor = 0;
                self.selection_start = None;
            },
            KeyCode::End => {
                self.cursor = len;
                self.selection_start = None;
            },
            KeyCode::A => {
                if modifiers.ctrl {
                    self.selection_start = Some(0);
                    self.cursor = len;
                }
            },
            _ => {},
        }
    }
}

/// Below a boundary `c > 0` there is a boundary just before it: scanning
/// down from `p`, past positions that are not boundaries.
pub proof fn lemma_prev_boundary_exists(bytes: Seq<u8>, c: int, p: int)
    requires
        valid_utf8(bytes),
        0 <= p < c <= bytes.len(),
        forall|i: int| p < i < c ==> !is_char_boundary(bytes, i),
    ensures
        is_prev_boundary(bytes, c, boundary_before(bytes, c)),
    decreases p,
{
    broadcast use vstd::utf8::is_char_boundary_start_end_of_seq;

    if is_char_boundary(bytes, p) {
        lemma_prev_boundary_unique(bytes, c, p);
    } else {
        lemma_prev_boundary_exists(bytes, c, p - 1);
    }
}

/// Above a position `c` before the end there is a boundary just after it.
pub proof fn lemma_next_boundary_exists(bytes: Seq<u8>, c: int, q: int)
    requires
        valid_utf8(bytes),
        0 <= c < q <= bytes.len(),
        forall|i: int| c < i < q ==> !is_char_boundary(bytes, i),
    ensures
        is_next_boundary(bytes, c, boundary_after(bytes, c)),
    decreases bytes.len() - q,
{
    broadcast use vstd::utf8::is_char_boundary_start_end_of_seq;

    if is_char_boundary(bytes, q) {
        lemma_next_boundary_unique(bytes, c, q);
    } else {
        lemma_next_boundary_exists(bytes, c, q + 1);
    }
}

/// Left then Right, without Shift and with nothing selected, brings the
/// cursor back to the character boundary it started on (away from the start
/// of the text) and changes nothing else.
pub proof fn law_left_then_right(text: Seq<char>, cursor: usize, modifiers: KeyModifiers)
    requires
        0 < cursor,
        is_char_boundary(utf8_of(text), cursor as int),
        !modifiers.shift,
    ensures
        ({
            let b = utf8_of(text);
            let (b1, c1, s1) = key_edit(b, cursor, None, KeyCode::Left, modifiers);
            &&& key_edit_allowed(b1, c1 as usize, s1, KeyCode::Right)
            &&& key_edit(b1, c1 as usize, s1, KeyCode::Right, modifiers) == (b, cursor as int, None::<usize>)
        }),
{
    broadcast use vstd::utf8::encode_utf8_valid_utf8;

    let b = utf8_of(text);
    lemma_prev_boundary_exists(b, cursor as int, cursor - 1);
    let p = boundary_before(b, cursor as int);
    assert(is_next_boundary(b, p, cursor as int));
    lemma_next_boundary_unique(b, p, cursor as int);
}

/// The byte patterns of a scalar's encoding: leading bytes are not
/// continuation bytes, the others are.
proof fn lemma_encoding_bytes(x: u32)
    by (bit_vector)
    ensures
        !(0x80 <= leading_byte_width_1(x) <= 0xbf),
        !(0x80 <= leading_byte_width_2(x) <= 0xbf),
        !(0x80 <= leading_byte_width_3(x) <= 0xbf),
        !(0x80 <= leading_byte_width_4(x) <= 0xbf),
        0x80 <= last_continuation_byte(x) <= 0xbf,
        0x80 <= second_last_continuation_byte(x) <= 0xbf,
        0x80 <= third_last_continuation_byte(x) <= 0xbf,
{
}

/// The encoding of one character: one to four bytes, a leading byte then
/// continuation bytes.
proof fn lemma_char_encoding(c: char)
    ensures
        ({
            let e = utf8_of(seq![c]);
            &&& 1 <= e.len() <= 4
            &&& !is_continuation_byte(e[0])
            &&& forall|j: int| 1 <= j < e.len() ==> is_continuation_byte(#[trigger] e[j])
        }),
{
    let s = seq![c];
    assert(s.drop_first() =~= Seq::<char>::empty());
    assert(encode_utf8(s.drop_first()) =~= Seq::<u8>::empty());
    assert(s[0] == c);
    assert(utf8_of(s) =~= encode_scalar(c as u32));
    lemma_encoding_bytes(c as u32);
}

/// Right then Left, without Shift and with nothing selected, brings the
/// cursor back to the character boundary it started on (before the end of
/// the text) and changes nothing else.
pub proof fn law_right_then_left(text: Seq<char>, cursor: usize, modifiers: KeyModifiers)
    requires
        cursor < utf8_of(text).len() <= usize::MAX,
        is_char_boundary(utf8_of(text), cursor as int),
        !modifiers.shift,
    ensures
        ({
            let b = utf8_of(text);
            let (b1, c1, s1) = key_edit(b, cursor, None, KeyCode::Right, modifiers);
            &&& key_edit_allowed(b1, c1 as usize, s1, KeyCode::Left)
            &&& key_edit(b1, c1 as usize, s1, KeyCode::Left, modifiers) == (b, cursor as int, None::<usize>)
        }),
{
    broadcast use vstd::utf8::encode_utf8_valid_utf8;

    let b = utf8_of(text);
    lemma_next_boundary_exists(b, cursor as int, cursor + 1);
    let q = boundary_after(b, cursor as int);
    assert(is_prev_boundary(b, q, cursor as int));
    lemma_prev_boundary_unique(b, q, cursor as int);
}

/// Typing one character (with nothing selected) and then pressing
/// Backspace gives back the text and the cursor from before.
pub proof fn law_type_then_backspace(text: Seq<char>, cursor: usize, c: char, modifiers: KeyModifiers)
    requires
        is_char_boundary(utf8_of(text), cursor as int),
        cursor + utf8_of(seq![c]).len() <= usize::MAX,
    ensures
        ({
            let b = utf8_of(text);
            let e = utf8_of(seq![c]);
            let typed = splice(b, cursor as int, cursor as int, e);
            let after = (cursor + e.len()) as usize;
            &&& after_selection_deleted(b, cursor, None) == (b, cursor as int)
            &&& key_edit_allowed(typed, after, None, KeyCode::Backspace)
            &&& key_edit(typed, after, None, KeyCode::Backspace, modifiers) == (b, cursor as int, None::<usize>)
        }),
{
    broadcast use vstd::utf8::encode_utf8_valid_utf8, vstd::utf8::valid_utf8_split,
        vstd::utf8::valid_utf8_concat, vstd::utf8::is_char_boundary_start_end_of_seq;

    let b = utf8_of(text);
    let e = utf8_of(seq![c]);
    let k = e.len() as int;
    let cur = cursor as int;
    let left = b.subrange(0, cur);
    let right = b.subrange(cur, b.len() as int);
    let typed = splice(b, cur, cur, e);
    let after = cur + k;
    lemma_char_encoding(c);
    assert(valid_utf8(left));
    assert(valid_utf8(right));
    assert(valid_utf8(left + e));
    assert(typed =~= (left + e) + right);
    assert(valid_utf8(typed));
    assert(typed.len() == b.len() + k);
    // The cursor after the typed character is a boundary.
    if after < typed.len() {
        assert(typed[after] == b[cur]);
        vstd::utf8::is_char_boundary_iff_not_is_continuation_byte(b, cur);
        vstd::utf8::is_char_boundary_iff_not_is_continuation_byte(typed, after);
    }
    assert(is_char_boundary(typed, after));
    // The typed character starts at the old cursor and has no boundary inside.
    assert(typed[cur] == e[0]);
    vstd::utf8::is_char_boundary_iff_not_is_continuation_byte(typed, cur);
    assert forall|i: int| cur < i < after implies !is_char_boundary(typed, i) by {
        assert(typed[i] == e[i - cur]);
        vstd::utf8::is_char_boundary_iff_not_is_continuation_byte(typed, i);
    }
    assert(is_prev_boundary(typed, after, cur));
    lemma_prev_boundary_unique(typed, after, cur);
    assert(splice(typed, cur, after, Seq::empty()) =~= b);
}

/// Ctrl+A and then typing replaces the whole text by what was typed, with
/// the cursor after it.
pub proof fn law_select_all_then_type(
    text: Seq<char>,
    cursor: usize,
    selection_start: Option<usize>,
    typed: Seq<char>,
    modifiers: KeyModifiers,
)
    requires
        modifiers.ctrl,
        utf8_of(text).len() <= usize::MAX,
    ensures
        ({
            let (b1, c1, s1) = key_edit(utf8_of(text), cursor, selection_start, KeyCode::A, modifiers);
            let (b2, c2) = after_selection_deleted(b1, c1 as usize, s1);
            &&& selection_deletable(b1, c1 as usize, s1)
            &&& is_char_boundary(b2, c2)
            &&& splice(b2, c2, c2, utf8_of(typed)) == utf8_of(typed)
            &&& c2 + utf8_of(typed).len() == utf8_of(typed).len()
        }),
{
    broadcast use vstd::utf8::encode_utf8_valid_utf8, vstd::utf8::is_char_boundary_start_end_of_seq;

    let b = utf8_of(text);
    assert(splice(b, 0, b.len() as int, Seq::empty()) =~= Seq::<u8>::empty());
    assert(splice(Seq::<u8>::empty(), 0, 0, utf8_of(typed)) =~= utf8_of(typed));
}

/// Cutting out the bytes between two boundaries leaves valid UTF-8 with a
/// boundary where the cut was made.
proof fn lemma_cut_keeps_boundary(bytes: Seq<u8>, lo: int, hi: int)
    requires
        valid_utf8(bytes),
        lo <= hi,
        is_char_boundary(bytes, lo),
        is_char_boundary(bytes, hi),
    ensures
        valid_utf8(splice(bytes, lo, hi, Seq::empty())),
        is_char_boundary(splice(bytes, lo, hi, Seq::empty()), lo),
{
    broadcast use vstd::utf8::valid_utf8_split, vstd::utf8::valid_utf8_concat,
        vstd::utf8::is_char_boundary_start_end_of_seq;

    let left = bytes.subrange(0, lo);
    let right = bytes.subrange(hi, bytes.len() as int);
    let cut = splice(bytes, lo, hi, Seq::empty());
    assert(valid_utf8(left));
    assert(valid_utf8(right));
    assert(cut =~= left + right);
    assert(valid_utf8(cut));
    if lo < cut.len() {
        assert(cut[lo] == bytes[hi]);
        vstd::utf8::is_char_boundary_iff_not_is_continuation_byte(bytes, hi);
        vstd::utf8::is_char_boundary_iff_not_is_continuation_byte(cut, lo);
    }
}

/// A key press keeps the text field consistent: when the cursor and the
/// selection start are character boundaries, the press can be handled
/// (without a panic) and afterwards the cursor and the selection start are
/// again character boundaries of the new text.
pub proof fn law_key_keeps_boundaries(
    text: Seq<char>,
    cursor: usize,
    selection_start: Option<usize>,
    key: KeyCode,
    modifiers: KeyModifiers,
)
    requires
        utf8_of(text).len() <= usize::MAX,
        is_char_boundary(utf8_of(text), cursor as int),
        selection_start is Some ==> is_char_boundary(utf8_of(text), selection_start->0 as int),
    ensures
        ({
            let b = utf8_of(text);
            let (b1, c1, s1) = key_edit(b, cursor, selection_start, key, modifiers);
            &&& key_edit_allowed(b, cursor, selection_start, key)
            &&& valid_utf8(b1)
            &&& is_char_boundary(b1, c1)
            &&& (s1 is Some ==> is_char_boundary(b1, s1->0 as int))
        }),
{
    broadcast use vstd::utf8::encode_utf8_valid_utf8, vstd::utf8::is_char_boundary_start_end_of_seq;

    let b = utf8_of(text);
    let c = cursor as int;
    assert(c <= b.len()) by {
        reveal_with_fuel(is_char_boundary, 1);
    }
    match key {
        KeyCode::Backspace => {
            if selection_start is Some {
                let (lo, hi) = selection_range(selection_start->0, cursor);
                lemma_cut_keeps_boundary(b, lo, hi);
            } else if cursor > 0 {
                lemma_prev_boundary_exists(b, c, c - 1);
                lemma_cut_keeps_boundary(b, boundary_before(b, c), c);
            }
        },
        KeyCode::Delete => {
            if selection_start is Some {
                let (lo, hi) = selection_range(selection_start->0, cursor);
                lemma_cut_keeps_boundary(b, lo, hi);
            } else if c < b.len() {
                lemma_next_boundary_exists(b, c, c + 1);
                lemma_cut_keeps_boundary(b, c, boundary_after(b, c));
            }
        },
        KeyCode::Left => {
            if cursor > 0 {
                lemma_prev_boundary_exists(b, c, c - 1);
            }
        },
        KeyCode::Right => {
            if c < b.len() {
                lemma_next_boundary_exists(b, c, c + 1);
            }
        },
        _ => {},
    }
}

/// Left and Right with Shift anchor the selection: afterwards it starts
/// where it started before, or at the old cursor when there was none;
/// without Shift they drop it. Either way the text is unchanged.
pub proof fn law_arrows_anchor_selection(
    bytes: Seq<u8>,
    cursor: usize,
    selection_start: Option<usize>,
    modifiers: KeyModifiers,
)
    ensures
        ({
            let anchored = if modifiers.shift {
                Some(
                    match selection_start {
                        Some(s) => s,
                        None => cursor,
                    },
                )
            } else {
                None
            };
            &&& key_edit(bytes, cursor, selection_start, KeyCode::Left, modifiers).2 == anchored
            &&& key_edit(bytes, cursor, selection_start, KeyCode::Right, modifiers).2 == anchored
            &&& key_edit(bytes, cursor, selection_start, KeyCode::Left, modifiers).0 == bytes
            &&& key_edit(bytes, cursor, selection_start, KeyCode::Right, modifiers).0 == bytes
        }),
{
}

/// Left and Right move the cursor by exactly one character: to the
/// boundary just before it (Left, away from the start) or just after it
/// (Right, before the end), and stay put at the start or end.
pub proof fn law_arrows_move_one_char(
    text: Seq<char>,
    cursor: usize,
    selection_start: Option<usize>,
    modifiers: KeyModifiers,
)
    requires
        utf8_of(text).len() <= usize::MAX,
        is_char_boundary(utf8_of(text), cursor as int),
    ensures
        ({
            let b = utf8_of(text);
            let left = key_edit(b, cursor, selection_start, KeyCode::Left, modifiers).1;
            let right = key_edit(b, cursor, selection_start, KeyCode::Right, modifiers).1;
            &&& (cursor > 0 ==> is_prev_boundary(b, cursor as int, left))
            &&& (cursor == 0 ==> left == 0)
            &&& (cursor < b.len() ==> is_next_boundary(b, cursor as int, right))
            &&& (cursor == b.len() ==> right == cursor)
        }),
{
    broadcast use vstd::utf8::encode_utf8_valid_utf8;

    let b = utf8_of(text);
    let c = cursor as int;
    assert(c <= b.len()) by {
        reveal_with_fuel(is_char_boundary, 1);
    }
    if cursor > 0 {
        lemma_prev_boundary_exists(b, c, c - 1);
    }
    if c < b.len() {
        lemma_next_boundary_exists(b, c, c + 1);
    }
}

} // verus!
