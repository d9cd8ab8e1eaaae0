use vstd::prelude::*;

use crate::geom::Vec2Bits;
use crate::Id;

verus! {

/// The state of a text field being edited: its id, its text, the cursor (a
/// byte offset into the text), the range being composed, if any, and the time
/// from which the cursor blinks.
#[derive(Debug)]
pub struct TextInputState {
    pub blink_timer: u128,
    pub id: Id,
    pub text: String,
    pub cursor: u32,
    pub compose: Option<std::ops::Range<u32>>,
}

/// The modifier keys held down.
#[derive(Clone, Copy, PartialEq, Eq, Debug, Structural)]
pub struct Modifiers {
    /// Any `SHIFT` is pressed
    pub shift: bool,
    /// * Windows - Any `ALT` key is pressed
    /// * Linux - Any `ALT` key is pressed
    /// * MacOS - Any `option` key is pressed
    pub option: bool,
    /// * Windows - Any `CTRL` key is pressed
    /// * Linux - Any `CTRL` key is pressed
    /// * MacOS - Any `command` key is pressed
    pub cmd: bool,
    /// * Windows - The `Windows` key is pressed
    /// * Linux - The `Super` key is pressed
    /// * MacOS - The `control` key is pressed
    pub os: bool,
}

impl Default for Modifiers {
    /// No modifier held.
    fn default() -> (r: Modifiers)
        ensures
            !r.shift && !r.option && !r.cmd && !r.os,
    {
        Modifiers { shift: false, option: false, cmd: false, os: false }
    }
}

impl Modifiers {
    /// The modifiers after `key` went down (`state` true) or up (`state`
    /// false): a modifier key sets its flag; any other key changes nothing.
    pub open spec fn updated(self, key: Key, state: bool) -> Modifiers {
        match key {
            Key::Shift => Modifiers { shift: state, ..self },
            Key::Option => Modifiers { option: state, ..self },
            Key::Command => Modifiers { cmd: state, ..self },
            Key::Super => Modifiers { os: state, ..self },
            _ => self,
        }
    }

    /// Records that `key` went down (`state` true) or up (`state` false).
    pub fn update(&mut self, key: Key, state: bool)
        ensures
            *final(self) == old(self).updated(key, state),
    {
        match key {
            Key::Shift => self.shift = state,
            Key::Option => self.option = state,
            Key::Command => self.cmd = state,
            Key::Super => self.os = state,
            _ => {},
        }
    }
}

/// A pointer button, by number.
#[derive(Clone, Copy, PartialEq, Eq, Debug, Structural)]
pub struct PtrButton(pub u16);

impl PtrButton {
    /// The button numbered `v`.
    pub fn new(v: u16) -> (r: PtrButton)
        ensures
            r.0 == v,
    {
        PtrButton(v)
    }

    /// The left button (0).
    pub fn left() -> (r: PtrButton)
        ensures
            r.0 == 0,
    {
        PtrButton(0)
    }

    /// The middle button (1).
    pub fn middle() -> (r: PtrButton)
        ensures
            r.0 == 1,
    {
        PtrButton(1)
    }

    /// The right button (2).
    pub fn right() -> (r: PtrButton)
        ensures
            r.0 == 2,
    {
        PtrButton(2)
    }

    /// The forward button (3).
    pub fn forward() -> (r: PtrButton)
        ensures
            r.0 == 3,
    {
        PtrButton(3)
    }

    /// The back button (4).
    pub fn back() -> (r: PtrButton)
        ensures
            r.0 == 4,
    {
        PtrButton(4)
    }
}

impl From<PtrButton> for u16 {
    fn from(b: PtrButton) -> (r: u16) {
        b.0
    }
}

impl vstd::std_specs::convert::FromSpecImpl<PtrButton> for u16 {
    open spec fn obeys_from_spec() -> bool {
        true
    }

    open spec fn from_spec(b: PtrButton) -> u16 {
        b.0
    }
}

impl From<PtrButton> for usize {
    fn from(b: PtrButton) -> (r: usize) {
        b.0 as usize
    }
}

impl vstd::std_specs::convert::FromSpecImpl<PtrButton> for usize {
    open spec fn obeys_from_spec() -> bool {
        true
    }

    open spec fn from_spec(b: PtrButton) -> usize {
        b.0 as usize
    }
}

/// A key of the keyboard.
#[derive(Clone, Copy, PartialEq, Eq, Debug, Structural)]
pub enum Key {
    Shift,
    Command,
    Option,
    Super,
    Backspace,
    Enter,
    Esc,
    Left,
    Right,
    Up,
    Down,
    Tab,
    Space,
    Delete,
    Insert,
    Home,
    End,
    PageUp,
    PageDown,
    F1,
    F2,
    F3,
    F4,
    F5,
    F6,
    F7,
    F8,
    F9,
    F10,
    F11,
    F12,
}

/// The number of bytes of the UTF-8 encoding of the first `k` characters of `s`.
pub open spec fn byte_offset(s: Seq<char>, k: int) -> int {
    vstd::utf8::encode_utf8(s.take(k)).len() as int
}

/// The number of bytes of the UTF-8 encoding of `s` (what `str::len` gives).
pub open spec fn byte_len(s: Seq<char>) -> usize {
    vstd::utf8::encode_utf8(s).len() as usize
}

/// Whether byte offset `idx` of `s` is where a character starts or where `s` ends.
pub open spec fn on_boundary(s: Seq<char>, idx: int) -> bool {
    exists|k: int| 0 <= k <= s.len() && byte_offset(s, k) == idx
}

/// Whether byte offset `idx` of `s` is where a character starts.
pub open spec fn on_char_start(s: Seq<char>, idx: int) -> bool {
    exists|k: int| 0 <= k < s.len() && byte_offset(s, k) == idx
}

/// The character position at byte offset `idx` of `s` (where `on_boundary` holds).
pub open spec fn boundary_pos(s: Seq<char>, idx: int) -> int {
    choose|k: int| 0 <= k <= s.len() && byte_offset(s, k) == idx
}

/// The position of the character starting at byte offset `idx` of `s` (where
/// `on_char_start` holds).
pub open spec fn char_start_pos(s: Seq<char>, idx: int) -> int {
    choose|k: int| 0 <= k < s.len() && byte_offset(s, k) == idx
}

/// `s` with `ch` inserted at byte offset `idx`.
pub open spec fn insert_at(s: Seq<char>, idx: int, ch: char) -> Seq<char> {
    s.take(boundary_pos(s, idx)).push(ch) + s.skip(boundary_pos(s, idx))
}

/// Inserts `ch` into `s` at byte offset `idx`, through `String::insert`.
///
/// Trusted: std documents that the character is inserted at that byte
/// position, which must be a character boundary (it panics otherwise); so for
/// the character position `k` at that offset, the text becomes its first `k`
/// characters, `ch`, then the rest.
#[verifier::external_body]
fn string_insert(s: &mut String, idx: usize, ch: char)
    requires
        on_boundary(old(s)@, idx as int),
    ensures
        forall|k: int| 0 <= k <= old(s)@.len() && #[trigger] byte_offset(old(s)@, k) == idx
            ==> final(s)@ == old(s)@.take(k).push(ch) + old(s)@.skip(k),
{
    s.insert(idx, ch);
}

/// Removes and returns the character starting at byte offset `idx` of `s`,
/// through `String::remove`.
///
/// Trusted: std documents that the character at that byte position is removed
/// and returned, and that the call panics unless a character starts there.
#[verifier::external_body]
fn string_remove(s: &mut String, idx: usize) -> (r: char)
    requires
        on_char_start(old(s)@, idx as int),
    ensures
        forall|k: int| 0 <= k < old(s)@.len() && #[trigger] byte_offset(old(s)@, k) == idx
            ==> r == old(s)@[k] && final(s)@ == old(s)@.remove(k),
{
    s.remove(idx)
}

/// The text of a focused field after one frame of input: pasted text is
/// appended, then the pressed key (or, with no key the field handles, the
/// typed character) edits at the cursor.
pub open spec fn edited_text(text: Seq<char>, cursor: u32, pasted: Seq<char>, key: Option<Key>, ch: Option<char>) -> Seq<char> {
    let t = text + pasted;
    match key {
        Some(Key::Backspace) => if cursor > 0 { t.remove(char_start_pos(t, cursor - 1)) } else { t },
        Some(Key::Space) => insert_at(t, cursor as int, ' '),
        Some(Key::Tab) => insert_at(t, cursor as int, '\t'),
        Some(Key::Left) => t,
        Some(Key::Right) => t,
        Some(Key::Home) => t,
        Some(Key::End) => t,
        _ => match ch {
            Some(c) => insert_at(t, cursor as int, c),
            None => t,
        },
    }
}

/// The cursor of a focused field after one frame of input (see `edited_text`).
pub open spec fn edited_cursor(text: Seq<char>, cursor: u32, pasted: Seq<char>, key: Option<Key>, ch: Option<char>) -> u32 {
    let t = text + pasted;
    match key {
        Some(Key::Backspace) => if cursor > 0 { (cursor - 1) as u32 } else { cursor },
        Some(Key::Space) => (cursor + 1) as u32,
        Some(Key::Tab) => (cursor + 1) as u32,
        Some(Key::Left) => if cursor > 0 { (cursor - 1) as u32 } else { cursor },
        Some(Key::Right) => if cursor < (byte_len(t) as u32) { (cursor + 1) as u32 } else { cursor },
        Some(Key::Home) => 0,
        Some(Key::End) => byte_len(t) as u32,
        _ => match ch {
            Some(c) => (cursor + 1) as u32,
            None => cursor,
        },
    }
}

/// Whether one frame of input restarts the cursor's blinking: text was
/// pasted, or a key the field handles was pressed, or a character was typed.
pub open spec fn edit_resets_blink(pasted: Seq<char>, key: Option<Key>, ch: Option<char>) -> bool {
    ||| pasted.len() > 0
    ||| key == Some(Key::Backspace) || key == Some(Key::Space) || key == Some(Key::Tab)
    ||| key == Some(Key::Left) || key == Some(Key::Right) || key == Some(Key::Home) || key == Some(Key::End)
    ||| ch is Some
}

/// Whether one frame of input can be applied to a field with `text` and
/// `cursor` without a panic: a deleted character starts at the byte before the
/// cursor, an insertion happens at a character boundary and the cursor can
/// move one further.
pub open spec fn edit_applies(text: Seq<char>, cursor: u32, pasted: Seq<char>, key: Option<Key>, ch: Option<char>) -> bool {
    let t = text + pasted;
    match key {
        Some(Key::Backspace) => cursor > 0 ==> on_char_start(t, cursor - 1),
        Some(Key::Space) => on_boundary(t, cursor as int) && cursor < u32::MAX,
        Some(Key::Tab) => on_boundary(t, cursor as int) && cursor < u32::MAX,
        Some(Key::Left) => true,
        Some(Key::Right) => true,
        Some(Key::Home) => true,
        Some(Key::End) => true,
        _ => ch is Some ==> on_boundary(t, cursor as int) && cursor < u32::MAX,
    }
}

impl TextInputState {
    /// A field `id` focused on `text`, the cursor at its end, blinking from `millis`.
    pub fn focused(id: Id, text: &String, millis: u128) -> (r: TextInputState)
        ensures
            r.id == id,
            r.text@ == text@,
            r.cursor == byte_len(text@) as u32,
            r.compose is None,
            r.blink_timer == millis,
    {
        let n = text.as_str().len();
        TextInputState { id, text: text.clone(), cursor: #[verifier::truncate] (n as u32), compose: None, blink_timer: millis }
    }

    /// Applies one frame of input to the focused field: pasted text is
    /// appended; then Backspace deletes the character before the cursor, Space
    /// and Tab insert themselves, Left, Right, Home and End move the cursor, and
    /// with none of these a typed character is inserted; the cursor blinks anew
    /// from `millis` when anything of this happened.
    pub fn apply_edit(&mut self, pasted: &str, key: Option<Key>, ch: Option<char>, millis: u128)
        requires
            edit_applies(old(self).text@, old(self).cursor, pasted@, key, ch),
        ensures
            final(self).text@ == edited_text(old(self).text@, old(self).cursor, pasted@, key, ch),
            final(self).cursor == edited_cursor(old(self).text@, old(self).cursor, pasted@, key, ch),
            final(self).blink_timer == (if edit_resets_blink(pasted@, key, ch) { millis } else { old(self).blink_timer }),
            final(self).id == old(self).id,
            final(self).compose == old(self).compose,
    {
        let insert_idx = self.cursor as usize;
        let mut reset_blinking = false;
        if !pasted.is_empty() {
            self.text.append(pasted);
            reset_blinking = true;
        }
        let ghost t = self.text@;
        assert(t == old(self).text@ + pasted@);
        if key == Some(Key::Backspace) {
            if insert_idx > 0 {
                proof {
                    let k = char_start_pos(t, insert_idx - 1);
                    assert(0 <= k < t.len() && byte_offset(t, k) == insert_idx - 1);
                }
                string_remove(&mut self.text, insert_idx - 1);
                self.cursor = self.cursor - 1;
            }
            reset_blinking = true;
        } else if key == Some(Key::Space) {
            proof {
                let k = boundary_pos(t, insert_idx as int);
                assert(0 <= k <= t.len() && byte_offset(t, k) == insert_idx);
            }
            string_insert(&mut self.text, insert_idx, ' ');
            self.cursor = self.cursor + 1;
            reset_blinking = true;
        } else if key == Some(Key::Tab) {
            proof {
                let k = boundary_pos(t, insert_idx as int);
                assert(0 <= k <= t.len() && byte_offset(t, k) == insert_idx);
            }
            string_insert(&mut self.text, insert_idx, '\t');
            self.cursor = self.cursor + 1;
            reset_blinking = true;
        } else if key == Some(Key::Left) {
            if self.cursor > 0 {
                self.cursor = self.cursor - 1;
            }
            reset_blinking = true;
        } else if key == Some(Key::Right) {
            let n = self.text.as_str().len();
            if self.cursor < #[verifier::truncate] (n as u32) {
                self.cursor = self.cursor + 1;
            }
            reset_blinking = true;
        } else if key == Some(Key::Home) {
            self.cursor = 0;
            reset_blinking = true;
        } else if key == Some(Key::End) {
            let n = self.text.as_str().len();
            self.cursor = #[verifier::truncate] (n as u32);
            reset_blinking = true;
        } else if let Some(c) = ch {
            proof {
                let k = boundary_pos(t, insert_idx as int);
                assert(0 <= k <= t.len() && byte_offset(t, k) == insert_idx);
            }
            string_insert(&mut self.text, insert_idx, c);
            self.cursor = self.cursor + 1;
            reset_blinking = true;
        }
        if reset_blinking {
            self.blink_timer = millis;
        }
    }

    /// Whether the cursor shows at `millis` (for 400 ms of every 800); after
    /// 800 ms the blinking starts over.
    pub fn blink(&mut self, millis: u128) -> (visible: bool)
        requires
            old(self).blink_timer <= millis,
        ensures
            visible == (millis - old(self).blink_timer < 400),
            final(self).blink_timer == (if millis - old(self).blink_timer > 800 { millis } else { old(self).blink_timer }),
            final(self).text == old(self).text,
            final(self).cursor == old(self).cursor,
            final(self).id == old(self).id,
    {
        let visible = millis - self.blink_timer < 400;
        if millis - self.blink_timer > 800 {
            self.blink_timer = millis;
        }
        visible
    }
}

/// The edit of the text field `id` showing `text` for one frame: a click makes
/// it the field being edited, on `text` with the cursor at the end, a click
/// elsewhere takes the focus away. The focus itself is the one the frame began
/// with (a click gives it from the next frame on), and while the field has it
/// the frame's input is applied (see `TextInputState::apply_edit`) and `text`
/// takes the edited text. Returns the field being edited afterwards and
/// whether `id` has the focus.
pub fn edit_text_field(
    active: Option<TextInputState>,
    id: Id,
    text: &mut String,
    clicked: bool,
    clicked_elsewhere: bool,
    pasted: &str,
    key: Option<Key>,
    ch: Option<char>,
    millis: u128,
) -> (r: (Option<TextInputState>, bool))
    requires
        clicked && (active matches Some(f) && f.id == id) ==> edit_applies(old(text)@, byte_len(old(text)@) as u32, pasted@, key, ch),
        !clicked && (active matches Some(f) && f.id == id) && !clicked_elsewhere ==> (active matches Some(f)
            && edit_applies(f.text@, f.cursor, pasted@, key, ch)),
    ensures
        ({
            let was_focused = active matches Some(f) && f.id == id;
            if clicked && was_focused {
                &&& r.1
                &&& r.0 matches Some(f) && f.id == id && f.compose is None
                    && f.text@ == edited_text(old(text)@, byte_len(old(text)@) as u32, pasted@, key, ch)
                    && f.cursor == edited_cursor(old(text)@, byte_len(old(text)@) as u32, pasted@, key, ch)
                    && f.blink_timer == millis
                &&& final(text)@ == edited_text(old(text)@, byte_len(old(text)@) as u32, pasted@, key, ch)
            } else if clicked {
                &&& !r.1
                &&& r.0 matches Some(f) && f.id == id && f.compose is None && f.text@ == old(text)@
                    && f.cursor == byte_len(old(text)@) as u32 && f.blink_timer == millis
                &&& final(text)@ == old(text)@
            } else if clicked_elsewhere && was_focused {
                &&& !r.1 && r.0 is None && final(text)@ == old(text)@
            } else if was_focused {
                let f0 = active->Some_0;
                &&& r.1
                &&& r.0 matches Some(f) && f.id == id && f.compose == f0.compose
                    && f.text@ == edited_text(f0.text@, f0.cursor, pasted@, key, ch)
                    && f.cursor == edited_cursor(f0.text@, f0.cursor, pasted@, key, ch)
                    && f.blink_timer == (if edit_resets_blink(pasted@, key, ch) { millis } else { f0.blink_timer })
                &&& final(text)@ == edited_text(f0.text@, f0.cursor, pasted@, key, ch)
            } else {
                &&& !r.1 && r.0 == active && final(text)@ == old(text)@
            }
        }),
{
    let mut active_field = active;
    let mut is_focused = match &active_field {
        Some(f) => f.id == id,
        None => false,
    };
    if clicked {
        active_field = Some(TextInputState::focused(id, text, millis));
    } else if clicked_elsewhere && is_focused {
        active_field = None;
        is_focused = false;
    }
    if is_focused {
        match &mut active_field {
            Some(field) => {
                field.apply_edit(pasted, key, ch, millis);
                *text = field.text.clone();
            },
            None => {},
        }
    }
    (active_field, is_focused)
}

/// A drag of the pointer: the button held, the element dragged, the element's
/// position when the drag started and where the pointer was pressed.
#[derive(Clone, Copy, PartialEq, Eq, Debug, Structural)]
pub struct Drag {
    pub button: PtrButton,
    pub id: Id,
    pub anchor: Vec2Bits,
    pub press_pos: Vec2Bits,
}

/// An input event, positions held as `f32` bit patterns. (Scroll and zoom
/// amounts are floating point: the program keeps and sums them itself.)
#[derive(Debug)]
pub enum InputEvent {
    Press(Vec2Bits, PtrButton),
    Release(PtrButton),
    Click(Vec2Bits, PtrButton),
    Hover(Vec2Bits),
    PressKey(Key),
    ReleaseKey(Key),
    Type(char),
    PointerLeft,
    Paste(String),
}

/// The input of the current frame and what lasts between frames: pointer
/// clicks and presses, keys and characters, the pointer's position, the drag,
/// modifiers, pasted text, buttons held, the time and the text field edited.
#[derive(Debug)]
pub struct InputState {
    pub ptr_click: Option<(PtrButton, Vec2Bits)>,
    pub ptr_press: Option<(PtrButton, Vec2Bits)>,
    pub key_press: Option<Key>,
    pub char_press: Option<char>,
    pub ptr_pos: Option<Vec2Bits>,
    pub visible_ptr_pos: Vec2Bits,
    pub prev_ptr_pos: Option<Vec2Bits>,
    pub drag: Option<Drag>,
    pub modifiers: Modifiers,
    pub pasted_text: String,
    pub down_ptr_buttons: [bool; 5],
    pub millis: u128,
    pub active_text_field: Option<TextInputState>,
}

impl Default for InputState {
    /// No input, no pointer, nothing held, time 0.
    fn default() -> (r: InputState)
        ensures
            r.ptr_click is None && r.ptr_press is None && r.key_press is None && r.char_press is None,
            r.ptr_pos is None && r.prev_ptr_pos is None && r.drag is None,
            r.visible_ptr_pos == (Vec2Bits { x: 0, y: 0 }),
            r.modifiers == Modifiers::default_spec(),
            r.pasted_text@.len() == 0,
            r.down_ptr_buttons@ == seq![false, false, false, false, false],
            r.millis == 0,
            r.active_text_field is None,
    {
        let r = InputState {
            ptr_click: None,
            ptr_press: None,
            key_press: None,
            char_press: None,
            ptr_pos: None,
            visible_ptr_pos: Vec2Bits { x: 0, y: 0 },
            prev_ptr_pos: None,
            drag: None,
            modifiers: Modifiers::default(),
            pasted_text: String::new(),
            down_ptr_buttons: [false; 5],
            millis: 0,
            active_text_field: None,
        };
        assert(r.down_ptr_buttons@ =~= seq![false, false, false, false, false]);
        r
    }
}

impl Modifiers {
    /// No modifier held.
    pub open spec fn default_spec() -> Modifiers {
        Modifiers { shift: false, option: false, cmd: false, os: false }
    }
}

impl InputState {
    /// Starts a new frame: the pointer's position becomes the previous one, and
    /// the frame's clicks, presses, key, character and pasted text are cleared.
    pub fn update(&mut self)
        ensures
            final(self).prev_ptr_pos == old(self).ptr_pos,
            final(self).ptr_click is None && final(self).ptr_press is None,
            final(self).key_press is None && final(self).char_press is None,
            final(self).pasted_text@.len() == 0,
            final(self).ptr_pos == old(self).ptr_pos,
            final(self).visible_ptr_pos == old(self).visible_ptr_pos,
            final(self).drag == old(self).drag,
            final(self).modifiers == old(self).modifiers,
            final(self).down_ptr_buttons == old(self).down_ptr_buttons,
            final(self).millis == old(self).millis,
    {
        self.prev_ptr_pos = self.ptr_pos;
        self.ptr_click = None;
        self.ptr_press = None;
        self.key_press = None;
        self.char_press = None;
        self.pasted_text = String::new();
    }

    /// Records an event: pasted text is appended; a click or press is noted (a
    /// press also holds its button down); a release lets the button go and ends
    /// a drag by that button; a hover moves the pointer; a typed character or a
    /// pressed key is noted and modifier keys update the modifiers; the pointer
    /// leaving clears its position.
    pub fn on_event(&mut self, event: InputEvent)
        requires
            event matches InputEvent::Press(_, b) ==> b.0 < 5,
            event matches InputEvent::Release(b) ==> b.0 < 5,
        ensures
            match event {
                InputEvent::Paste(t) => final(self).pasted_text@ == old(self).pasted_text@ + t@,
                _ => final(self).pasted_text@ == old(self).pasted_text@,
            },
            final(self).ptr_click == (match event {
                InputEvent::Click(p, b) => Some((b, p)),
                _ => old(self).ptr_click,
            }),
            final(self).ptr_press == (match event {
                InputEvent::Press(p, b) => Some((b, p)),
                _ => old(self).ptr_press,
            }),
            final(self).down_ptr_buttons@ == (match event {
                InputEvent::Press(_, b) => old(self).down_ptr_buttons@.update(b.0 as int, true),
                InputEvent::Release(b) => old(self).down_ptr_buttons@.update(b.0 as int, false),
                _ => old(self).down_ptr_buttons@,
            }),
            final(self).drag == (match event {
                InputEvent::Release(b) => if old(self).drag matches Some(d) && d.button == b { None } else { old(self).drag },
                _ => old(self).drag,
            }),
            final(self).ptr_pos == (match event {
                InputEvent::Hover(p) => Some(p),
                InputEvent::PointerLeft => None,
                _ => old(self).ptr_pos,
            }),
            final(self).visible_ptr_pos == (match event {
                InputEvent::Hover(p) => p,
                _ => old(self).visible_ptr_pos,
            }),
            final(self).char_press == (match event {
                InputEvent::Type(c) => Some(c),
                _ => old(self).char_press,
            }),
            final(self).key_press == (match event {
                InputEvent::PressKey(k) => Some(k),
                _ => old(self).key_press,
            }),
            final(self).modifiers == (match event {
                InputEvent::PressKey(k) => old(self).modifiers.updated(k, true),
                InputEvent::ReleaseKey(k) => old(self).modifiers.updated(k, false),
                _ => old(self).modifiers,
            }),
            final(self).prev_ptr_pos == old(self).prev_ptr_pos,
            final(self).millis == old(self).millis,
    {
        match event {
            InputEvent::Paste(text) => self.pasted_text.append(text.as_str()),
            InputEvent::Click(pos, button) => self.ptr_click = Some((button, pos)),
            InputEvent::Press(pos, button) => {
                self.down_ptr_buttons[button.0 as usize] = true;
                self.ptr_press = Some((button, pos));
            },
            InputEvent::Release(button) => {
                let ends = match self.drag {
                    Some(d) => d.button == button,
                    None => false,
                };
                if ends {
                    self.drag = None;
                }
                self.down_ptr_buttons[button.0 as usize] = false;
            },
            InputEvent::Hover(pos) => {
                self.ptr_pos = Some(pos);
                self.visible_ptr_pos = pos;
            },
            InputEvent::Type(ch) => self.char_press = Some(ch),
            InputEvent::PressKey(key) => {
                self.key_press = Some(key);
                self.modifiers.update(key, true);
            },
            InputEvent::ReleaseKey(key) => {
                self.modifiers.update(key, false);
            },
            InputEvent::PointerLeft => self.ptr_pos = None,
        }
    }

    /// Starts a drag of `id` from `anchor` when the element is hovered and
    /// `button` was pressed this frame.
    pub fn update_drag_hovered(&mut self, id: Id, hovered: bool, anchor: Vec2Bits, button: PtrButton)
        ensures
            final(self).drag == (if hovered && (old(self).ptr_press matches Some((b, _)) && b == button) {
                Some(Drag { anchor, id, press_pos: old(self).ptr_press->Some_0.1, button })
            } else {
                old(self).drag
            }),
            final(self).ptr_press == old(self).ptr_press,
            final(self).ptr_pos == old(self).ptr_pos,
    {
        if !hovered {
            return;
        }
        if let Some((b, press_pos)) = self.ptr_press {
            if b == button {
                self.drag = Some(Drag { anchor, id, press_pos, button });
            }
        }
    }

    /// The drag of `id`, while the pointer is on screen.
    pub fn get_drag_full(&self, id: Id) -> (r: Option<Drag>)
        ensures
            r == (if self.ptr_pos is Some && (self.drag matches Some(d) && d.id == id) { self.drag } else { None }),
    {
        if self.ptr_pos.is_none() {
            return None;
        }
        match self.drag {
            Some(d) => if d.id == id {
                Some(d)
            } else {
                None
            },
            None => None,
        }
    }

    /// Whether `key` was pressed this frame.
    pub fn key_pressed(&self, key: Key) -> (r: bool)
        ensures
            r == (self.key_press == Some(key)),
    {
        match self.key_press {
            Some(k) => k == key,
            None => false,
        }
    }

    /// The character typed this frame, if any.
    pub fn char_press(&self) -> (r: Option<char>)
        ensures
            r == self.char_press,
    {
        self.char_press
    }

    /// The modifiers held.
    pub fn modifiers(&self) -> (r: Modifiers)
        ensures
            r == self.modifiers,
    {
        self.modifiers
    }

    /// Sets the modifiers held.
    pub fn set_modifiers(&mut self, m: Modifiers)
        ensures
            final(self).modifiers == m,
            final(self).key_press == old(self).key_press,
            final(self).ptr_pos == old(self).ptr_pos,
    {
        self.modifiers = m;
    }

    /// The text pasted this frame.
    pub fn pasted_text(&self) -> (r: &str)
        ensures
            r@ == self.pasted_text@,
    {
        self.pasted_text.as_str()
    }

    /// Whether `button` is held down.
    pub fn ptr_down(&self, button: PtrButton) -> (r: bool)
        requires
            button.0 < 5,
        ensures
            r == self.down_ptr_buttons@[button.0 as int],
    {
        self.down_ptr_buttons[button.0 as usize]
    }

    /// Whether `button` was pressed this frame.
    pub fn ptr_pressed(&self, button: PtrButton) -> (r: bool)
        ensures
            r == (self.ptr_press matches Some((b, _)) && b == button),
    {
        match self.ptr_press {
            Some((b, _)) => b == button,
            None => false,
        }
    }

    /// The press of this frame, if any.
    pub fn ptr_press(&self) -> (r: Option<(PtrButton, Vec2Bits)>)
        ensures
            r == self.ptr_press,
    {
        self.ptr_press
    }

    /// Whether `button` was clicked this frame.
    pub fn ptr_clicked(&self, button: PtrButton) -> (r: bool)
        ensures
            r == (self.ptr_click matches Some((b, _)) && b == button),
    {
        match self.ptr_click {
            Some((b, _)) => b == button,
            None => false,
        }
    }

    /// The click of this frame, if any.
    pub fn ptr_click(&self) -> (r: Option<(PtrButton, Vec2Bits)>)
        ensures
            r == self.ptr_click,
    {
        self.ptr_click
    }

    /// The pointer's position, or where it was last seen when it is gone.
    pub fn ptr_pos(&self) -> (r: Vec2Bits)
        ensures
            r == (match self.ptr_pos {
                Some(p) => p,
                None => self.visible_ptr_pos,
            }),
    {
        match self.ptr_pos {
            Some(p) => p,
            None => self.visible_ptr_pos,
        }
    }

    /// Whether the pointer is off the screen.
    pub fn ptr_gone(&self) -> (r: bool)
        ensures
            r == self.ptr_pos is None,
    {
        self.ptr_pos.is_none()
    }
}


/// The arrow, Home and End keys move the cursor over the text (the field's text
/// followed by what was pasted) and leave the text as it is: Right moves one
/// byte further unless the cursor is at or past the end, Left one byte back
/// unless it is at the start, Home to the start, End to the end. A step right
/// followed, on the next frame, by a step left brings the cursor back, and so
/// does a step left followed by a step right.
pub proof fn lemma_cursor_keys(text: Seq<char>, cursor: u32, pasted: Seq<char>, ch: Option<char>)
    ensures
        ({
            let t = text + pasted;
            let n = byte_len(t) as u32;
            &&& cursor < n ==> edited_cursor(text, cursor, pasted, Some(Key::Right), ch) == cursor + 1
            &&& cursor >= n ==> edited_cursor(text, cursor, pasted, Some(Key::Right), ch) == cursor
            &&& cursor > 0 ==> edited_cursor(text, cursor, pasted, Some(Key::Left), ch) == cursor - 1
            &&& cursor == 0 ==> edited_cursor(text, cursor, pasted, Some(Key::Left), ch) == 0
            &&& edited_cursor(text, cursor, pasted, Some(Key::Home), ch) == 0
            &&& edited_cursor(text, cursor, pasted, Some(Key::End), ch) == n
            &&& edited_text(text, cursor, pasted, Some(Key::Right), ch) == t
            &&& edited_text(text, cursor, pasted, Some(Key::Left), ch) == t
            &&& edited_text(text, cursor, pasted, Some(Key::Home), ch) == t
            &&& edited_text(text, cursor, pasted, Some(Key::End), ch) == t
            &&& cursor < n ==> edited_cursor(
                edited_text(text, cursor, pasted, Some(Key::Right), ch),
                edited_cursor(text, cursor, pasted, Some(Key::Right), ch),
                Seq::empty(),
                Some(Key::Left),
                None,
            ) == cursor
            &&& 0 < cursor <= n ==> edited_cursor(
                edited_text(text, cursor, pasted, Some(Key::Left), ch),
                edited_cursor(text, cursor, pasted, Some(Key::Left), ch),
                Seq::empty(),
                Some(Key::Right),
                None,
            ) == cursor
        }),
{
    let t = text + pasted;
    assert(t + Seq::<char>::empty() =~= t);
}


/// The encoding of two texts one after the other is the two encodings one
/// after the other.
proof fn lemma_encode_concat(a: Seq<char>, b: Seq<char>)
    ensures
        vstd::utf8::encode_utf8(a + b) == vstd::utf8::encode_utf8(a) + vstd::utf8::encode_utf8(b),
    decreases a.len(),
{
    if a.len() == 0 {
        assert(a + b =~= b);
        assert(vstd::utf8::encode_utf8(a) =~= Seq::<u8>::empty());
        assert(vstd::utf8::encode_utf8(a) + vstd::utf8::encode_utf8(b) =~= vstd::utf8::encode_utf8(b));
    } else {
        lemma_encode_concat(a.drop_first(), b);
        assert((a + b).drop_first() =~= a.drop_first() + b);
        assert((a + b)[0] == a[0]);
        let sa = vstd::utf8::encode_scalar(a[0] as u32);
        assert(vstd::utf8::encode_utf8(a + b) == sa + vstd::utf8::encode_utf8(a.drop_first() + b));
        assert(sa + (vstd::utf8::encode_utf8(a.drop_first()) + vstd::utf8::encode_utf8(b))
            =~= (sa + vstd::utf8::encode_utf8(a.drop_first())) + vstd::utf8::encode_utf8(b));
    }
}

/// Each character takes at least one byte: the byte offset grows strictly with
/// the character position.
proof fn lemma_byte_offset_grows(s: Seq<char>, i: int, j: int)
    requires
        0 <= i < j <= s.len(),
    ensures
        byte_offset(s, i) < byte_offset(s, j),
    decreases j - i,
{
    let k = j - 1;
    assert(s.take(k + 1) =~= s.take(k) + seq![s[k]]);
    lemma_encode_concat(s.take(k), seq![s[k]]);
    assert(seq![s[k]].drop_first() =~= Seq::<char>::empty());
    assert(vstd::utf8::encode_utf8(seq![s[k]]) == vstd::utf8::encode_scalar(s[k] as u32) + vstd::utf8::encode_utf8(Seq::<char>::empty()));
    assert(vstd::utf8::encode_scalar(s[k] as u32).len() >= 1);
    if i < k {
        lemma_byte_offset_grows(s, i, k);
    }
}

/// A byte offset at which a character starts, or the text ends, names one
/// character position only.
proof fn lemma_boundary_pos_unique(s: Seq<char>, k: int)
    requires
        0 <= k <= s.len(),
    ensures
        on_boundary(s, byte_offset(s, k)),
        boundary_pos(s, byte_offset(s, k)) == k,
        k < s.len() ==> on_char_start(s, byte_offset(s, k)) && char_start_pos(s, byte_offset(s, k)) == k,
{
    let idx = byte_offset(s, k);
    assert(on_boundary(s, idx));
    let p = boundary_pos(s, idx);
    if p < k {
        lemma_byte_offset_grows(s, p, k);
    } else if p > k {
        lemma_byte_offset_grows(s, k, p);
    }
    if k < s.len() {
        assert(on_char_start(s, idx));
        let q = char_start_pos(s, idx);
        if q < k {
            lemma_byte_offset_grows(s, q, k);
        } else if q > k {
            lemma_byte_offset_grows(s, k, q);
        }
    }
}

/// Typing puts exactly the typed character at the cursor: with the cursor at
/// the start of the `k`-th character of the text (the field's text followed by
/// what was pasted), or at its end, the text gets one more character, the
/// first `k` stay, the typed one comes next and the rest follow it, and the
/// cursor moves one byte on. Space and Tab type a space and a tab.
pub proof fn lemma_typing_inserts(text: Seq<char>, cursor: u32, pasted: Seq<char>, c: char, k: int)
    requires
        0 <= k <= (text + pasted).len(),
        byte_offset(text + pasted, k) == cursor,
    ensures
        ({
            let t = text + pasted;
            let typed = edited_text(text, cursor, pasted, None, Some(c));
            let spaced = edited_text(text, cursor, pasted, Some(Key::Space), None);
            let tabbed = edited_text(text, cursor, pasted, Some(Key::Tab), None);
            &&& typed.len() == t.len() + 1 && typed[k] == c
            &&& spaced.len() == t.len() + 1 && spaced[k] == ' '
            &&& tabbed.len() == t.len() + 1 && tabbed[k] == '\t'
            &&& forall|i: int| 0 <= i < k ==> typed[i] == t[i] && spaced[i] == t[i] && tabbed[i] == t[i]
            &&& forall|i: int| k <= i < t.len() ==> typed[i + 1] == t[i] && spaced[i + 1] == t[i] && tabbed[i + 1] == t[i]
            &&& edited_cursor(text, cursor, pasted, None, Some(c)) == (cursor + 1) as u32
            &&& edited_cursor(text, cursor, pasted, Some(Key::Space), None) == (cursor + 1) as u32
            &&& edited_cursor(text, cursor, pasted, Some(Key::Tab), None) == (cursor + 1) as u32
        }),
{
    let t = text + pasted;
    lemma_boundary_pos_unique(t, k);
}

/// Backspace removes exactly the character before the cursor: with the cursor
/// one byte past the start of the `k`-th character of the text (the field's
/// text followed by what was pasted), that character goes, the others keep
/// their order, and the cursor moves one byte back.
pub proof fn lemma_backspace_removes(text: Seq<char>, cursor: u32, pasted: Seq<char>, k: int)
    requires
        0 <= k < (text + pasted).len(),
        byte_offset(text + pasted, k) + 1 == cursor,
    ensures
        ({
            let t = text + pasted;
            let r = edited_text(text, cursor, pasted, Some(Key::Backspace), None);
            &&& r.len() == t.len() - 1
            &&& forall|i: int| 0 <= i < k ==> r[i] == t[i]
            &&& forall|i: int| k <= i < t.len() - 1 ==> r[i] == t[i + 1]
            &&& edited_cursor(text, cursor, pasted, Some(Key::Backspace), None) == cursor - 1
        }),
{
    let t = text + pasted;
    lemma_boundary_pos_unique(t, k);
}

} // verus!
