use vstd::prelude::*;
use crate::input::Input;
use crate::key_state::KeyState;
use crate::keys_state::{KeysState, Shortcut};
use crate::widgets::Base;

verus! {

/// What `char::is_alphanumeric` returns for `c` (Unicode's Alphabetic or
/// Numeric property).
pub uninterp spec fn char_is_alphanumeric(c: char) -> bool;

/// Unicode's White_Space property, which `char::is_whitespace` tests: the
/// controls from tab to carriage return, space, next line, no-break space,
/// ogham space mark, the spaces from en quad to hair space, the line and
/// paragraph separators, narrow no-break space, medium mathematical space and
/// ideographic space.
#[verifier::opaque]
pub open spec fn char_is_whitespace(c: char) -> bool {
    let u = c as u32;
    ||| 0x09 <= u <= 0x0d
    ||| u == 0x20
    ||| u == 0x85
    ||| u == 0xa0
    ||| u == 0x1680
    ||| 0x2000 <= u <= 0x200a
    ||| u == 0x2028
    ||| u == 0x2029
    ||| u == 0x202f
    ||| u == 0x205f
    ||| u == 0x3000
}

/// Calls `char::is_alphanumeric`; its result is named `char_is_alphanumeric(c)`.
#[verifier::external_body]
fn is_alphanumeric(c: char) -> (r: bool)
    ensures
        r == char_is_alphanumeric(c),
{
    c.is_alphanumeric()
}

/// Whether `c` is white space (see `char_is_whitespace`).
fn is_whitespace(c: char) -> (r: bool)
    ensures
        r == char_is_whitespace(c),
{
    proof {
        reveal(char_is_whitespace);
    }
    let u = c as u32;
    (0x09 <= u && u <= 0x0d) || u == 0x20 || u == 0x85 || u == 0xa0 || u == 0x1680 || (0x2000 <= u && u
        <= 0x200a) || u == 0x2028 || u == 0x2029 || u == 0x202f || u == 0x205f || u == 0x3000
}

/// The kind of a character, for word boundaries.
#[derive(PartialEq, Eq, Debug, Clone, Copy, Structural)]
pub enum CharType {
    Space,
    AlphaNum,
    Other,
}

pub open spec fn char_type(c: char) -> CharType {
    if char_is_alphanumeric(c) {
        CharType::AlphaNum
    } else if char_is_whitespace(c) {
        CharType::Space
    } else {
        CharType::Other
    }
}

impl CharType {
    pub fn from_char(c: char) -> (r: Self)
        ensures
            r == char_type(c),
    {
        if is_alphanumeric(c) {
            CharType::AlphaNum
        } else if is_whitespace(c) {
            CharType::Space
        } else {
            CharType::Other
        }
    }
}

/// The position that a word search starts from: `position`, moved back onto
/// the last character when it lies past it.
pub open spec fn anchor(len: int, position: int) -> int {
    if position >= len {
        len - 1
    } else {
        position
    }
}

/// `(start, end)` is the word around `position` in `text`: the run of
/// characters of the same kind as the anchor character. The run stretches
/// forward to the first character of another kind (or the end of the text);
/// backward it stops after the last character of another kind found before
/// the anchor, the first character of the text not being examined.
pub open spec fn is_word_position(text: Seq<char>, position: int, start: int, end: int) -> bool {
    if text.len() == 0 {
        start == 0 && end == 0
    } else {
        let q = anchor(text.len() as int, position);
        let ty = char_type(text[q]);
        &&& q < end <= text.len()
        &&& forall|i: int| q < i < end ==> #[trigger] char_type(text[i]) == ty
        &&& end == text.len() || char_type(text[end]) != ty
        &&& 0 <= start <= q
        &&& forall|i: int| 1 <= i < q && start <= i ==> #[trigger] char_type(text[i]) == ty
        &&& start == 0 || (start >= 2 && char_type(text[start - 1]) != ty)
    }
}

/// The word around `position`: see `is_word_position`.
pub fn get_word_position(text: &Vec<char>, position: usize) -> (r: (usize, usize))
    ensures
        is_word_position(text@, position as int, r.0 as int, r.1 as int),
{
    if text.len() == 0 {
        return (0, 0);
    }
    let q = if position >= text.len() {
        text.len() - 1
    } else {
        position
    };
    let char_type = CharType::from_char(text[q]);
    let mut end = q + 1;
    while end < text.len()
        invariant
            q < end <= text@.len(),
            char_type == crate::text_input::char_type(text@[q as int]),
            forall|i: int| q < i < end ==> #[trigger] crate::text_input::char_type(text@[i]) == char_type,
        ensures
            q < end <= text@.len(),
            forall|i: int| q < i < end ==> #[trigger] crate::text_input::char_type(text@[i]) == char_type,
            end == text@.len() || crate::text_input::char_type(text@[end as int]) != char_type,
        decreases text@.len() - end,
    {
        if CharType::from_char(text[end]) != char_type {
            break;
        }
        end = end + 1;
    }
    let mut start = if q == 0 {
        0
    } else {
        q - 1
    };
    loop
        invariant_except_break
            start < q || start == 0,
            q < text@.len(),
            char_type == crate::text_input::char_type(text@[q as int]),
            forall|i: int| start < i < q ==> #[trigger] crate::text_input::char_type(text@[i]) == char_type,
        ensures
            0 <= start <= q,
            q < text@.len(),
            forall|i: int| 1 <= i < q && start <= i ==> #[trigger] crate::text_input::char_type(text@[i]) == char_type,
            start == 0 || (start >= 2 && crate::text_input::char_type(text@[start - 1]) != char_type),
        decreases start,
    {
        if start == 0 {
            break;
        }
        if CharType::from_char(text[start]) != char_type {
            start = start + 1;
            break;
        }
        start = start - 1;
    }
    (start, end)
}

/// The first index of the word around `position`.
pub open spec fn word_start(text: Seq<char>, position: int) -> int {
    (choose|s: int, e: int| #[trigger] is_word_position(text, position, s, e)).0
}

/// The index just past the word around `position`.
pub open spec fn word_end(text: Seq<char>, position: int) -> int {
    (choose|s: int, e: int| #[trigger] is_word_position(text, position, s, e)).1
}

/// The word position is unique.
pub proof fn lemma_word_position_unique(text: Seq<char>, position: int, s1: int, e1: int, s2: int, e2: int)
    requires
        is_word_position(text, position, s1, e1),
        is_word_position(text, position, s2, e2),
    ensures
        s1 == s2,
        e1 == e2,
{
    if text.len() > 0 {
        let q = anchor(text.len() as int, position);
        let ty = char_type(text[q]);
        if e1 < e2 {
            assert(char_type(text[e1]) == ty);
        }
        if e2 < e1 {
            assert(char_type(text[e2]) == ty);
        }
        if s1 < s2 {
            assert(char_type(text[s2 - 1]) == ty);
        }
        if s2 < s1 {
            assert(char_type(text[s1 - 1]) == ty);
        }
    }
}

/// What `get_word_position` returns, by the two names above.
pub proof fn lemma_word_position_names(text: Seq<char>, position: int, s: int, e: int)
    requires
        is_word_position(text, position, s, e),
    ensures
        word_start(text, position) == s,
        word_end(text, position) == e,
{
    let (s2, e2) = choose|s: int, e: int| #[trigger] is_word_position(text, position, s, e);
    lemma_word_position_unique(text, position, s, e, s2, e2);
}


/// How long the carrot stays visible, then hidden, in nanoseconds.
pub const BLINKING_TIME: u64 = 400_000_000;

/// Two clicks closer than this, in nanoseconds, make a double click.
pub const DOUBLE_CLICK_TIME: u64 = 300_000_000;

/// `t` without the characters at `[a, b)`.
pub open spec fn remove_range(t: Seq<char>, a: int, b: int) -> Seq<char> {
    t.subrange(0, a) + t.subrange(b, t.len() as int)
}

/// `t` with `u` inserted at `i`.
pub open spec fn insert_seq(t: Seq<char>, i: int, u: Seq<char>) -> Seq<char> {
    t.subrange(0, i) + u + t.subrange(i, t.len() as int)
}

/// A control key is held.
pub open spec fn ctrl_down(ks: KeysState) -> bool {
    ks.lctrl == KeyState::Down || ks.rctrl == KeyState::Down
}

/// A shift key is held.
pub open spec fn shift_down(ks: KeysState) -> bool {
    ks.lshift == KeyState::Down || ks.rshift == KeyState::Down
}

/// `Ctrl` plus the key whose state is `k` was just pressed.
pub open spec fn ctrl_shortcut(ks: KeysState, k: KeyState) -> bool {
    k == KeyState::Pressed && ctrl_down(ks)
}

/// The editing state of a text input, as plain values.
pub struct TextInputView {
    pub text: Seq<char>,
    pub carrot_timer: u64,
    pub carrot_position: usize,
    pub selection: Option<(usize, usize)>,
    pub last_click: u64,
    pub click_count: u8,
    pub click_position: usize,
}

impl TextInputView {
    /// The carrot lies in the text and the selection is an ordered range of it.
    pub open spec fn wf(self) -> bool {
        &&& self.carrot_position <= self.text.len()
        &&& self.selection matches Some((a, b)) ==> a <= b <= self.text.len()
    }
}

/// The editing state between two steps of a frame, with the carrot position
/// that a selection move asks for and whether something changed.
pub struct Stage {
    pub v: TextInputView,
    pub new_carrot: Option<usize>,
    pub changed: bool,
}

/// Step 1: the carrot blinks. The timer advances by `delta`; crossing the
/// visible time is a change; past twice that time it restarts.
pub open spec fn blink_stage(v: TextInputView, delta: u64) -> Stage {
    let t = if v.carrot_timer + delta > u64::MAX {
        u64::MAX
    } else {
        (v.carrot_timer + delta) as u64
    };
    if t > 2 * BLINKING_TIME {
        Stage { v: TextInputView { carrot_timer: 0, ..v }, new_carrot: None, changed: true }
    } else {
        Stage {
            v: TextInputView { carrot_timer: t, ..v },
            new_carrot: None,
            changed: BLINKING_TIME < t && t < BLINKING_TIME + delta,
        }
    }
}

/// Step 2: the left arrow moves the carrot one character (a word with a
/// control key) to the left; with a shift key it asks for a selection move.
pub open spec fn left_stage(s: Stage, ks: KeysState) -> Stage {
    if ks.left == KeyState::Pressed && s.v.carrot_position > 0 {
        let n = if ctrl_down(ks) {
            word_start(s.v.text, s.v.carrot_position - 1) as usize
        } else {
            (s.v.carrot_position - 1) as usize
        };
        if shift_down(ks) {
            Stage { v: TextInputView { carrot_timer: 0, ..s.v }, new_carrot: Some(n), changed: true }
        } else {
            Stage {
                v: TextInputView { carrot_position: n, selection: None, carrot_timer: 0, ..s.v },
                new_carrot: s.new_carrot,
                changed: true,
            }
        }
    } else {
        s
    }
}

/// Step 3: the right arrow, as the left one, towards the end of the text.
pub open spec fn right_stage(s: Stage, ks: KeysState) -> Stage {
    if ks.right == KeyState::Pressed && s.v.carrot_position < s.v.text.len() {
        let n = if ctrl_down(ks) {
            word_end(s.v.text, s.v.carrot_position as int) as usize
        } else {
            (s.v.carrot_position + 1) as usize
        };
        if shift_down(ks) {
            Stage { v: TextInputView { carrot_timer: 0, ..s.v }, new_carrot: Some(n), changed: true }
        } else {
            Stage {
                v: TextInputView { carrot_position: n, selection: None, carrot_timer: 0, ..s.v },
                new_carrot: s.new_carrot,
                changed: true,
            }
        }
    } else {
        s
    }
}

/// Step 4: the mouse. Dragging asks for a selection move to `pos`, the
/// character under the mouse. A click places the carrot (or, with shift,
/// asks for a selection move); clicking again at the same place within the
/// double-click time selects the word, a third time the whole text.
pub open spec fn mouse_stage(s: Stage, left: KeyState, shift: bool, now: u64, pos: usize) -> Stage {
    let s1 = if left == KeyState::Down && s.v.click_count < 2 {
        Stage { new_carrot: Some(pos), ..s }
    } else {
        s
    };
    let since = if now >= s1.v.last_click {
        now - s1.v.last_click
    } else {
        0
    };
    let s2 = if since > DOUBLE_CLICK_TIME {
        Stage { v: TextInputView { click_count: 0, ..s1.v }, ..s1 }
    } else {
        s1
    };
    if left == KeyState::Pressed {
        let counted = if s2.v.click_count == 255 {
            255u8
        } else {
            (s2.v.click_count + 1) as u8
        };
        let cc = if pos != s2.v.click_position {
            1u8
        } else {
            counted
        };
        let v3 = TextInputView {
            click_count: cc,
            click_position: pos,
            last_click: now,
            carrot_timer: 0,
            ..s2.v
        };
        if cc == 1 {
            if shift {
                Stage { v: v3, new_carrot: Some(pos), changed: s2.changed }
            } else {
                Stage {
                    v: TextInputView { carrot_position: pos, selection: None, ..v3 },
                    new_carrot: s2.new_carrot,
                    changed: s2.changed,
                }
            }
        } else if cc == 2 {
            let ws = word_start(v3.text, pos as int) as usize;
            let we = word_end(v3.text, pos as int) as usize;
            Stage {
                v: TextInputView { selection: Some((ws, we)), carrot_position: we, ..v3 },
                new_carrot: None,
                changed: true,
            }
        } else {
            let len = v3.text.len() as usize;
            Stage {
                v: TextInputView { selection: Some((0, len)), carrot_position: len, ..v3 },
                new_carrot: None,
                changed: true,
            }
        }
    } else {
        s2
    }
}

/// The selection after moving the carrot from `c` to `n`: the end of the
/// selection that the carrot leaves stays, the other one follows the carrot.
pub open spec fn moved_selection(sel: Option<(usize, usize)>, c: usize, n: usize) -> (usize, usize) {
    let (a, b) = match sel {
        Some(p) => p,
        None => (c, c),
    };
    if n > c {
        if n > b {
            (a, n)
        } else {
            (n, b)
        }
    } else if n >= a {
        (a, n)
    } else {
        (n, b)
    }
}

/// Step 5: a requested carrot move extends the selection.
pub open spec fn select_stage(s: Stage) -> Stage {
    match s.new_carrot {
        Some(n) => if n != s.v.carrot_position {
            Stage {
                v: TextInputView {
                    selection: Some(moved_selection(s.v.selection, s.v.carrot_position, n)),
                    carrot_position: n,
                    carrot_timer: 0,
                    ..s.v
                },
                new_carrot: s.new_carrot,
                changed: true,
            }
        } else {
            s
        },
        None => s,
    }
}

/// The state with the selected text removed and the carrot at its place.
pub open spec fn without_selection(v: TextInputView) -> TextInputView {
    match v.selection {
        Some((a, b)) => TextInputView {
            text: remove_range(v.text, a as int, b as int),
            carrot_position: a,
            ..v
        },
        None => v,
    }
}

/// The selected text, or the whole text when nothing is selected.
pub open spec fn selected_or_all(v: TextInputView) -> Seq<char> {
    match v.selection {
        Some((a, b)) => v.text.subrange(a as int, b as int),
        None => v.text,
    }
}

/// Step 7: a typed character replaces the selection and moves the carrot.
pub open spec fn typing_stage(v: TextInputView, last_char: Option<char>, changed: bool) -> (TextInputView, bool) {
    match last_char {
        Some(c) => {
            let w = without_selection(v);
            (
                TextInputView {
                    text: w.text.insert(w.carrot_position as int, c),
                    carrot_position: (w.carrot_position + 1) as usize,
                    selection: None,
                    ..w
                },
                true,
            )
        },
        None => (v, changed),
    }
}

/// Step 8: backspace removes the selection, or the character (the word, with
/// the left control key) before the carrot; delete removes the selection, or
/// the character (the word, with the left control key) after the carrot.
pub open spec fn removal_stage(v: TextInputView, ks: KeysState, changed: bool) -> (TextInputView, bool) {
    if ks.backspace == KeyState::Pressed {
        let v1 = if v.selection.is_some() {
            without_selection(v)
        } else if v.carrot_position > 0 {
            if ks.lctrl == KeyState::Down {
                let ws = word_start(v.text, v.carrot_position - 1);
                TextInputView {
                    text: remove_range(v.text, ws, v.carrot_position as int),
                    carrot_position: ws as usize,
                    ..v
                }
            } else {
                TextInputView {
                    text: v.text.remove(v.carrot_position - 1),
                    carrot_position: (v.carrot_position - 1) as usize,
                    ..v
                }
            }
        } else {
            v
        };
        (TextInputView { selection: None, carrot_timer: 0, ..v1 }, true)
    } else if ks.delete == KeyState::Pressed {
        let v1 = if v.selection.is_some() {
            TextInputView { selection: None, ..without_selection(v) }
        } else if v.carrot_position < v.text.len() {
            if ks.lctrl == KeyState::Down {
                let we = word_end(v.text, v.carrot_position as int);
                TextInputView { text: remove_range(v.text, v.carrot_position as int, we), ..v }
            } else {
                TextInputView { text: v.text.remove(v.carrot_position as int), ..v }
            }
        } else {
            v
        };
        (TextInputView { carrot_timer: 0, ..v1 }, true)
    } else {
        (v, changed)
    }
}

/// Step 6 to 8: the clipboard shortcuts end the frame; otherwise typing and
/// removal. Yields the state, whether it changed and the text to put in the
/// clipboard.
pub open spec fn edit_stage(s: Stage, ks: KeysState, clipboard: Option<Seq<char>>, last_char: Option<char>) -> (
    TextInputView,
    bool,
    Option<Seq<char>>,
) {
    let v = s.v;
    if ctrl_shortcut(ks, ks.v) && clipboard.is_some() {
        let w = without_selection(v);
        let c = clipboard.unwrap();
        (
            TextInputView {
                text: insert_seq(w.text, w.carrot_position as int, c),
                carrot_position: (w.carrot_position + c.len()) as usize,
                selection: None,
                ..w
            },
            true,
            None,
        )
    } else if ctrl_shortcut(ks, ks.c) {
        (v, true, Some(selected_or_all(v)))
    } else if ctrl_shortcut(ks, ks.x) {
        if v.selection.is_some() {
            (TextInputView { selection: None, ..without_selection(v) }, true, Some(selected_or_all(v)))
        } else {
            (TextInputView { text: Seq::empty(), carrot_position: 0, ..v }, true, Some(v.text))
        }
    } else {
        let (v1, c1) = typing_stage(v, last_char, s.changed);
        let (v2, c2) = removal_stage(v1, ks, c1);
        (v2, c2, None)
    }
}

/// One frame of a focused text input: steps 1 to 8 in order.
pub open spec fn frame_step(
    v: TextInputView,
    input: Input,
    delta: u64,
    now: u64,
    mouse_carrot_position: usize,
    clipboard: Option<Seq<char>>,
) -> (TextInputView, bool, Option<Seq<char>>) {
    let ks = input.keys_state;
    let s1 = blink_stage(v, delta);
    let s2 = left_stage(s1, ks);
    let s3 = right_stage(s2, ks);
    let s4 = mouse_stage(s3, input.mouse.left_button, shift_down(ks), now, mouse_carrot_position);
    let s5 = select_stage(s4);
    edit_stage(s5, ks, clipboard, input.last_char)
}

/// What a frame of a text input gives back: whether it must be redrawn and
/// the text to put in the clipboard, if any.
pub struct TextInputUpdate {
    pub changed: bool,
    pub clipboard: Option<Vec<char>>,
}

/// A one-line text field with a carrot, a selection, word moves, double and
/// triple clicks and the clipboard shortcuts. Positions count characters.
pub struct TextInput {
    placeholder: String,
    text: Vec<char>,
    carrot_timer: u64,
    carrot_position: usize,
    selection: Option<(usize, usize)>,
    last_click: u64,
    click_count: u8,
    click_position: usize,
}

/// Removes `[a, b)` from `v` and returns it.
fn drain_range(v: &mut Vec<char>, a: usize, b: usize) -> (removed: Vec<char>)
    requires
        a <= b <= old(v)@.len(),
    ensures
        final(v)@ == remove_range(old(v)@, a as int, b as int),
        removed@ == old(v)@.subrange(a as int, b as int),
{
    let mut tail = v.split_off(b);
    let removed = v.split_off(a);
    v.append(&mut tail);
    removed
}

/// Inserts `u` into `v` at `i`.
fn insert_all(v: &mut Vec<char>, i: usize, u: Vec<char>)
    requires
        i <= old(v)@.len(),
    ensures
        final(v)@ == insert_seq(old(v)@, i as int, u@),
{
    let mut u = u;
    let mut tail = v.split_off(i);
    v.append(&mut u);
    v.append(&mut tail);
}

impl TextInput {
    pub closed spec fn view(&self) -> TextInputView {
        TextInputView {
            text: self.text@,
            carrot_timer: self.carrot_timer,
            carrot_position: self.carrot_position,
            selection: self.selection,
            last_click: self.last_click,
            click_count: self.click_count,
            click_position: self.click_position,
        }
    }

    pub closed spec fn placeholder_view(&self) -> Seq<char> {
        self.placeholder@
    }

    /// An empty input showing `placeholder`; the clock starts at `now`.
    pub fn new(placeholder: String, now: u64) -> (r: Self)
        ensures
            r@ == (TextInputView {
                text: Seq::empty(),
                carrot_timer: 0,
                carrot_position: 0,
                selection: None,
                last_click: now,
                click_count: 0,
                click_position: 0,
            }),
            r.placeholder_view() == placeholder@,
    {
        TextInput {
            placeholder,
            text: Vec::new(),
            carrot_timer: 0,
            carrot_position: 0,
            selection: None,
            last_click: now,
            click_count: 0,
            click_position: 0,
        }
    }

    pub fn get_text(&self) -> (r: &Vec<char>)
        ensures
            r@ == self@.text,
    {
        &self.text
    }

    pub fn get_placeholder(&self) -> (r: &String)
        ensures
            r@ == self.placeholder_view(),
    {
        &self.placeholder
    }

    /// Replaces the text, drops the selection and puts the carrot at the end.
    pub fn set_text(&mut self, text: Vec<char>)
        ensures
            final(self)@ == (TextInputView {
                text: text@,
                selection: None,
                carrot_position: text@.len() as usize,
                ..old(self)@
            }),
            final(self).placeholder_view() == old(self).placeholder_view(),
    {
        self.text = text;
        self.selection = None;
        self.carrot_position = self.text.len();
    }

    /// The carrot is shown during the first half of its blinking period.
    pub fn is_carrot_visible(&self) -> (r: bool)
        ensures
            r == (self@.carrot_timer < BLINKING_TIME),
    {
        self.carrot_timer < BLINKING_TIME
    }

    pub fn get_carrot_position(&self) -> (r: usize)
        ensures
            r == self@.carrot_position,
    {
        self.carrot_position
    }

    pub fn get_selection(&self) -> (r: Option<(usize, usize)>)
        ensures
            r == self@.selection,
    {
        self.selection
    }
}

/// The clipboard text, as plain values.
pub open spec fn clipboard_view(c: Option<Vec<char>>) -> Option<Seq<char>> {
    match c {
        Some(v) => Some(v@),
        None => None,
    }
}

/// A `Ctrl` shortcut, as `Shortcut::COPY` and the others build it, holds
/// exactly when its key was just pressed while a control key is held.
pub proof fn lemma_ctrl_shortcut(ks: KeysState, k: crate::keys_state::Key)
    ensures
        ks.shortcut_holds((seq![seq![crate::keys_state::Key::LCtrl, crate::keys_state::Key::RCtrl]], k))
            == ctrl_shortcut(ks, ks.key(k)),
{
    let g = seq![crate::keys_state::Key::LCtrl, crate::keys_state::Key::RCtrl];
    let gs = seq![g];
    if ctrl_down(ks) {
        assert(gs[0] == g);
        assert(g.len() == 2 && g[0] == crate::keys_state::Key::LCtrl && g[1] == crate::keys_state::Key::RCtrl);
        if ks.lctrl == KeyState::Down {
            assert(ks.key(crate::keys_state::Key::LCtrl) == KeyState::Down);
            assert(ks.key(gs[0][0]) == KeyState::Down);
            assert(ks.group_held(gs[0]));
        } else {
            assert(ks.key(crate::keys_state::Key::RCtrl) == KeyState::Down);
            assert(ks.key(gs[0][1]) == KeyState::Down);
            assert(ks.group_held(gs[0]));
        }
    }
    if ks.shortcut_holds((gs, k)) {
        assert(ks.key(k) == KeyState::Pressed);
        let sc = (gs, k);
        assert(sc.0.len() == 1);
        assert(ks.group_held(sc.0[0]));
        assert(sc.0[0] == g);
        let m = choose|m: int| 0 <= m < g.len() && #[trigger] ks.key(g[m]) == KeyState::Down;
        assert(m == 0 || m == 1);
    }
}

impl TextInput {
    fn blink(&mut self, delta: u64) -> (changed: bool)
        ensures
            final(self)@ == blink_stage(old(self)@, delta).v,
            changed == blink_stage(old(self)@, delta).changed,
            final(self).placeholder_view() == old(self).placeholder_view(),
    {
        self.carrot_timer = self.carrot_timer.saturating_add(delta);
        let mut changed = false;
        if BLINKING_TIME < self.carrot_timer && self.carrot_timer - BLINKING_TIME < delta {
            changed = true;
        }
        if self.carrot_timer > 2 * BLINKING_TIME {
            self.carrot_timer = 0;
            changed = true;
        }
        changed
    }

    fn move_left(&mut self, ks: &KeysState, new_carrot: Option<usize>, changed: bool) -> (r: (Option<usize>, bool))
        requires
            old(self)@.wf(),
            new_carrot matches Some(n) ==> n <= old(self)@.text.len(),
        ensures
            final(self)@ == left_stage(Stage { v: old(self)@, new_carrot, changed }, *ks).v,
            r.0 == left_stage(Stage { v: old(self)@, new_carrot, changed }, *ks).new_carrot,
            r.1 == left_stage(Stage { v: old(self)@, new_carrot, changed }, *ks).changed,
            final(self)@.wf(),
            final(self)@.text == old(self)@.text,
            r.0 matches Some(n) ==> n <= final(self)@.text.len(),
            final(self).placeholder_view() == old(self).placeholder_view(),
    {
        if ks.left.is_pressed() && self.carrot_position > 0 {
            let n: usize = if ks.lctrl.is_down() || ks.rctrl.is_down() {
                let pos = get_word_position(&self.text, self.carrot_position - 1);
                proof {
                    lemma_word_position_names(self.text@, self.carrot_position - 1, pos.0 as int, pos.1 as int);
                }
                pos.0
            } else {
                self.carrot_position - 1
            };
            self.carrot_timer = 0;
            if ks.lshift.is_down() || ks.rshift.is_down() {
                return (Some(n), true);
            } else {
                self.carrot_position = n;
                self.selection = None;
                return (new_carrot, true);
            }
        }
        (new_carrot, changed)
    }

    fn move_right(&mut self, ks: &KeysState, new_carrot: Option<usize>, changed: bool) -> (r: (Option<usize>, bool))
        requires
            old(self)@.wf(),
            new_carrot matches Some(n) ==> n <= old(self)@.text.len(),
        ensures
            final(self)@ == right_stage(Stage { v: old(self)@, new_carrot, changed }, *ks).v,
            r.0 == right_stage(Stage { v: old(self)@, new_carrot, changed }, *ks).new_carrot,
            r.1 == right_stage(Stage { v: old(self)@, new_carrot, changed }, *ks).changed,
            final(self)@.wf(),
            final(self)@.text == old(self)@.text,
            r.0 matches Some(n) ==> n <= final(self)@.text.len(),
            final(self).placeholder_view() == old(self).placeholder_view(),
    {
        if ks.right.is_pressed() && self.carrot_position < self.text.len() {
            let n: usize = if ks.lctrl.is_down() || ks.rctrl.is_down() {
                let pos = get_word_position(&self.text, self.carrot_position);
                proof {
                    lemma_word_position_names(self.text@, self.carrot_position as int, pos.0 as int, pos.1 as int);
                }
                pos.1
            } else {
                self.carrot_position + 1
            };
            self.carrot_timer = 0;
            if ks.lshift.is_down() || ks.rshift.is_down() {
                return (Some(n), true);
            } else {
                self.carrot_position = n;
                self.selection = None;
                return (new_carrot, true);
            }
        }
        (new_carrot, changed)
    }

    fn mouse(&mut self, left: KeyState, shift: bool, now: u64, pos: usize, new_carrot: Option<usize>, changed: bool) -> (r: (
        Option<usize>,
        bool,
    ))
        requires
            old(self)@.wf(),
            pos <= old(self)@.text.len(),
            new_carrot matches Some(n) ==> n <= old(self)@.text.len(),
        ensures
            r.0 matches Some(n) ==> n <= final(self)@.text.len(),
            final(self)@ == mouse_stage(Stage { v: old(self)@, new_carrot, changed }, left, shift, now, pos).v,
            r.0 == mouse_stage(Stage { v: old(self)@, new_carrot, changed }, left, shift, now, pos).new_carrot,
            r.1 == mouse_stage(Stage { v: old(self)@, new_carrot, changed }, left, shift, now, pos).changed,
            final(self)@.wf(),
            final(self)@.text == old(self)@.text,
            final(self).placeholder_view() == old(self).placeholder_view(),
    {
        let mut new_carrot = new_carrot;
        let mut changed = changed;
        if left.is_down() && self.click_count < 2 {
            new_carrot = Some(pos);
        }
        if now.saturating_sub(self.last_click) > DOUBLE_CLICK_TIME {
            self.click_count = 0;
        }
        if left.is_pressed() {
            self.click_count = self.click_count.saturating_add(1);
            self.last_click = now;
            self.carrot_timer = 0;
            if pos != self.click_position {
                self.click_count = 1;
                self.click_position = pos;
            }
            if self.click_count == 1 {
                if shift {
                    new_carrot = Some(pos);
                } else {
                    self.carrot_position = pos;
                    self.selection = None;
                }
            } else if self.click_count == 2 {
                let (start, end) = get_word_position(&self.text, pos);
                proof {
                    lemma_word_position_names(self.text@, pos as int, start as int, end as int);
                }
                self.selection = Some((start, end));
                self.carrot_position = end;
                new_carrot = None;
                changed = true;
            } else {
                self.selection = Some((0, self.text.len()));
                self.carrot_position = self.text.len();
                new_carrot = None;
                changed = true;
            }
        }
        (new_carrot, changed)
    }

    fn apply_selection(&mut self, new_carrot: Option<usize>, changed: bool) -> (r: bool)
        requires
            old(self)@.wf(),
            new_carrot matches Some(n) ==> n <= old(self)@.text.len(),
        ensures
            final(self)@ == select_stage(Stage { v: old(self)@, new_carrot, changed }).v,
            r == select_stage(Stage { v: old(self)@, new_carrot, changed }).changed,
            final(self)@.wf(),
            final(self).placeholder_view() == old(self).placeholder_view(),
    {
        if let Some(n) = new_carrot {
            let (start, end) = if let Some((start, end)) = self.selection {
                (start, end)
            } else {
                (self.carrot_position, self.carrot_position)
            };
            if n != self.carrot_position {
                self.selection = Some(
                    if n > self.carrot_position {
                        if n > end {
                            (start, n)
                        } else {
                            (n, end)
                        }
                    } else if n >= start {
                        (start, n)
                    } else {
                        (n, end)
                    },
                );
                self.carrot_position = n;
                self.carrot_timer = 0;
                return true;
            }
        }
        changed
    }

    /// Removes the selected text, if any, and puts the carrot at its place.
    fn delete_selection(&mut self) -> (removed: Vec<char>)
        requires
            old(self)@.wf(),
        ensures
            final(self)@ == without_selection(old(self)@),
            final(self)@.wf() || final(self)@.selection.is_some(),
            final(self)@.carrot_position <= final(self)@.text.len(),
            old(self)@.selection.is_some() ==> removed@ == selected_or_all(old(self)@),
            final(self).placeholder_view() == old(self).placeholder_view(),
    {
        if let Some((start, end)) = self.selection {
            let removed = drain_range(&mut self.text, start, end);
            self.carrot_position = start;
            removed
        } else {
            Vec::new()
        }
    }

    fn type_char(&mut self, last_char: Option<char>, changed: bool) -> (r: bool)
        requires
            old(self)@.wf(),
        ensures
            final(self)@ == typing_stage(old(self)@, last_char, changed).0,
            r == typing_stage(old(self)@, last_char, changed).1,
            final(self)@.wf(),
            final(self).placeholder_view() == old(self).placeholder_view(),
    {
        if let Some(c) = last_char {
            let _ = self.delete_selection();
            self.text.insert(self.carrot_position, c);
            proof {
                assert(self.text@.len() == self.text.len());
            }
            self.carrot_position = self.carrot_position + 1;
            self.selection = None;
            return true;
        }
        changed
    }

    fn remove_chars(&mut self, ks: &KeysState, changed: bool) -> (r: bool)
        requires
            old(self)@.wf(),
        ensures
            final(self)@ == removal_stage(old(self)@, *ks, changed).0,
            r == removal_stage(old(self)@, *ks, changed).1,
            final(self)@.wf(),
            final(self).placeholder_view() == old(self).placeholder_view(),
    {
        if ks.backspace.is_pressed() {
            if self.selection.is_some() {
                let _ = self.delete_selection();
            } else if self.carrot_position > 0 {
                if ks.lctrl.is_down() {
                    let pos = get_word_position(&self.text, self.carrot_position - 1);
                    proof {
                        lemma_word_position_names(self.text@, self.carrot_position - 1, pos.0 as int, pos.1 as int);
                    }
                    let _ = drain_range(&mut self.text, pos.0, self.carrot_position);
                    self.carrot_position = pos.0;
                } else {
                    self.text.remove(self.carrot_position - 1);
                    self.carrot_position = self.carrot_position - 1;
                }
            }
            self.selection = None;
            self.carrot_timer = 0;
            return true;
        } else if ks.delete.is_pressed() {
            if self.selection.is_some() {
                let _ = self.delete_selection();
                self.selection = None;
            } else if self.carrot_position < self.text.len() {
                if ks.lctrl.is_down() {
                    let pos = get_word_position(&self.text, self.carrot_position);
                    proof {
                        lemma_word_position_names(self.text@, self.carrot_position as int, pos.0 as int, pos.1 as int);
                    }
                    let _ = drain_range(&mut self.text, self.carrot_position, pos.1);
                } else {
                    self.text.remove(self.carrot_position);
                }
            }
            self.carrot_timer = 0;
            return true;
        }
        changed
    }

    fn edit(&mut self, input: &Input, clipboard: Option<Vec<char>>, changed: bool) -> (r: (bool, Option<Vec<char>>))
        requires
            old(self)@.wf(),
        ensures
            ({
                let (v, c, cb) = edit_stage(
                    Stage { v: old(self)@, new_carrot: None, changed },
                    input.keys_state,
                    clipboard_view(clipboard),
                    input.last_char,
                );
                &&& final(self)@ == v
                &&& r.0 == c
                &&& clipboard_view(r.1) == cb
            }),
            final(self)@.wf(),
            final(self).placeholder_view() == old(self).placeholder_view(),
    {
        proof {
            lemma_ctrl_shortcut(input.keys_state, crate::keys_state::Key::V);
            lemma_ctrl_shortcut(input.keys_state, crate::keys_state::Key::C);
            lemma_ctrl_shortcut(input.keys_state, crate::keys_state::Key::X);
        }
        if input.shortcut_pressed(&Shortcut::PASTE()) && clipboard.is_some() {
            let _ = self.delete_selection();
            let text = match clipboard {
                Some(t) => t,
                None => Vec::new(),
            };
            let n = text.len();
            insert_all(&mut self.text, self.carrot_position, text);
            proof {
                assert(self.text@.len() == self.text.len());
            }
            self.carrot_position = self.carrot_position + n;
            self.selection = None;
            return (true, None);
        }
        if input.shortcut_pressed(&Shortcut::COPY()) {
            if let Some((start, end)) = self.selection {
                let mut copy = self.text.clone();
                let _ = copy.split_off(end);
                let part = copy.split_off(start);
                proof {
                    assert(copy@.len() == start);
                }
                return (true, Some(part));
            }
            let all = self.text.clone();
            return (true, Some(all));
        }
        if input.shortcut_pressed(&Shortcut::CUT()) {
            if self.selection.is_some() {
                let removed = self.delete_selection();
                self.selection = None;
                return (true, Some(removed));
            }
            let all = self.text.clone();
            self.text.clear();
            self.carrot_position = 0;
            return (true, Some(all));
        }
        let c1 = self.type_char(input.last_char, changed);
        let c2 = self.remove_chars(&input.keys_state, c1);
        (c2, None)
    }

    /// One frame of the focused input. `mouse_carrot_position` is the
    /// character under the mouse, `now` the current time and `delta` the time
    /// since the last frame (nanoseconds); `clipboard` is the clipboard's text,
    /// if it holds one.
    #[verifier::rlimit(60)]
    pub fn update(
        &mut self,
        base: &mut Base,
        input: &Input,
        delta: u64,
        now: u64,
        mouse_carrot_position: usize,
        clipboard: Option<Vec<char>>,
    ) -> (r: TextInputUpdate)
        requires
            old(self)@.wf(),
            mouse_carrot_position <= old(self)@.text.len(),
        ensures
            final(self)@.wf(),
            final(base)@ == (crate::widgets::BaseView {
                state: crate::widgets::state_after_frame(
                    old(base)@.state,
                    input.mouse.left_button,
                    Seq::empty(),
                ),
                ..old(base)@
            }),
            ({
                let (v, c, cb) = frame_step(
                    old(self)@,
                    *input,
                    delta,
                    now,
                    mouse_carrot_position,
                    clipboard_view(clipboard),
                );
                &&& final(self)@ == v
                &&& r.changed == (c || input.mouse.left_button == KeyState::Pressed
                    || input.mouse.left_button == KeyState::Released)
                &&& clipboard_view(r.clipboard) == cb
            }),
            final(self).placeholder_view() == old(self).placeholder_view(),
    {
        let base_changed = base.update(input, Vec::new());
        proof {
            assert(!crate::widgets::any_key(Seq::<KeyState>::empty(), KeyState::Pressed));
            assert(!crate::widgets::any_key(Seq::<KeyState>::empty(), KeyState::Released));
        }
        let ks = &input.keys_state;
        let ghost v0 = self@;
        let c0 = self.blink(delta);
        let ghost s1 = blink_stage(v0, delta);
        let (n1, c1) = self.move_left(ks, None, c0);
        let ghost s2 = left_stage(s1, *ks);
        assert(self@ == s2.v && n1 == s2.new_carrot && c1 == s2.changed);
        let (n2, c2) = self.move_right(ks, n1, c1);
        let ghost s3 = right_stage(s2, *ks);
        assert(self@ == s3.v && n2 == s3.new_carrot && c2 == s3.changed);
        let shift = ks.lshift.is_down() || ks.rshift.is_down();
        let (n3, c3) = self.mouse(input.mouse.left_button, shift, now, mouse_carrot_position, n2, c2);
        let ghost s4 = mouse_stage(s3, input.mouse.left_button, shift_down(*ks), now, mouse_carrot_position);
        assert(self@ == s4.v && n3 == s4.new_carrot && c3 == s4.changed);
        let c4 = self.apply_selection(n3, c3);
        let ghost s5 = select_stage(s4);
        assert(self@ == s5.v && c4 == s5.changed);
        let (c5, cb) = self.edit(input, clipboard, c4);
        TextInputUpdate { changed: c5 || base_changed, clipboard: cb }
    }
}

/// Cutting and then pasting what was cut gives the text back, with the
/// carrot after the pasted part: with a selection, the selected part is cut;
/// without one, the whole text is.
pub proof fn law_cut_then_paste_restores_text(
    s: Stage,
    ks_cut: KeysState,
    ks_paste: KeysState,
    typed_1: Option<char>,
    typed_2: Option<char>,
    new_carrot_2: Option<usize>,
    changed_2: bool,
)
    requires
        s.v.wf(),
        ctrl_shortcut(ks_cut, ks_cut.x),
        !ctrl_shortcut(ks_cut, ks_cut.c),
        ctrl_shortcut(ks_paste, ks_paste.v),
    ensures
        ({
            let (v1, _, cut) = edit_stage(s, ks_cut, None, typed_1);
            let (v2, _, _) = edit_stage(
                Stage { v: v1, new_carrot: new_carrot_2, changed: changed_2 },
                ks_paste,
                cut,
                typed_2,
            );
            &&& cut == Some(selected_or_all(s.v))
            &&& v2.text == s.v.text
            &&& v2.carrot_position == match s.v.selection {
                Some((_, b)) => b,
                None => s.v.text.len() as usize,
            }
            &&& v2.selection is None
        }),
{
    let t = s.v.text;
    match s.v.selection {
        Some((a, b)) => {
            assert(insert_seq(remove_range(t, a as int, b as int), a as int, t.subrange(a as int, b as int)) =~= t);
        },
        None => {
            assert(insert_seq(Seq::empty(), 0, t) =~= t);
        },
    }
}

/// Typing a character and then pressing backspace (without the left control
/// key) gives the text and the carrot back, when nothing was selected.
pub proof fn law_type_then_backspace_restores_text(
    v: TextInputView,
    c: char,
    ks: KeysState,
    changed: bool,
)
    requires
        v.wf(),
        v.text.len() < usize::MAX,
        v.selection is None,
        ks.backspace == KeyState::Pressed,
        ks.lctrl != KeyState::Down,
    ensures
        ({
            let (v1, c1) = typing_stage(v, Some(c), changed);
            let (v2, _) = removal_stage(v1, ks, c1);
            &&& v1.text == v.text.insert(v.carrot_position as int, c)
            &&& v2.text == v.text
            &&& v2.carrot_position == v.carrot_position
        }),
{
    assert(without_selection(v) == v);
    let (v1, c1) = typing_stage(v, Some(c), changed);
    assert(v1.text == v.text.insert(v.carrot_position as int, c));
    assert(v1.selection is None);
    assert(v1.carrot_position == v.carrot_position + 1);
    assert(v1.text.remove(v.carrot_position as int) =~= v.text);
    let (v2, c2) = removal_stage(v1, ks, c1);
    assert(v2.text == v1.text.remove(v1.carrot_position - 1));
}

/// Copying changes nothing in the input and hands out the selected text, or
/// the whole text when nothing is selected.
pub proof fn law_copy_keeps_state(s: Stage, ks: KeysState, clipboard: Option<Seq<char>>, typed: Option<char>)
    requires
        !(ctrl_shortcut(ks, ks.v) && clipboard.is_some()),
        ctrl_shortcut(ks, ks.c),
    ensures
        edit_stage(s, ks, clipboard, typed) == (s.v, true, Some(selected_or_all(s.v))),
{
}

/// Whatever a frame does, the carrot timer ends within two blinking times.
pub proof fn law_carrot_timer_bounded(
    v: TextInputView,
    input: Input,
    delta: u64,
    now: u64,
    mouse_carrot_position: usize,
    clipboard: Option<Seq<char>>,
)
    ensures
        frame_step(v, input, delta, now, mouse_carrot_position, clipboard).0.carrot_timer <= 2 * BLINKING_TIME,
{
}

/// With a selection, delete removes the selected characters and nothing
/// else, and the carrot stands where they were (as backspace does).
pub proof fn law_delete_removes_selection(
    s: Stage,
    ks: KeysState,
    clipboard: Option<Seq<char>>,
    a: usize,
    b: usize,
)
    requires
        s.v.wf(),
        s.v.selection == Some((a, b)),
        ks.delete == KeyState::Pressed,
        ks.backspace != KeyState::Pressed,
        ks.v != KeyState::Pressed,
        ks.c != KeyState::Pressed,
        ks.x != KeyState::Pressed,
    ensures
        ({
            let (v, changed, cut) = edit_stage(s, ks, clipboard, None);
            &&& v.text == s.v.text.subrange(0, a as int) + s.v.text.subrange(b as int, s.v.text.len() as int)
            &&& v.text.len() == s.v.text.len() - (b - a)
            &&& v.carrot_position == a
            &&& v.selection is None
            &&& changed
            &&& cut is None
        }),
{
}

/// With a selection, backspace removes the selected characters and nothing
/// else, and the carrot stands where they were.
pub proof fn law_backspace_removes_selection(
    s: Stage,
    ks: KeysState,
    clipboard: Option<Seq<char>>,
    a: usize,
    b: usize,
)
    requires
        s.v.wf(),
        s.v.selection == Some((a, b)),
        ks.backspace == KeyState::Pressed,
        ks.v != KeyState::Pressed,
        ks.c != KeyState::Pressed,
        ks.x != KeyState::Pressed,
    ensures
        ({
            let (v, changed, cut) = edit_stage(s, ks, clipboard, None);
            &&& v.text == s.v.text.subrange(0, a as int) + s.v.text.subrange(b as int, s.v.text.len() as int)
            &&& v.carrot_position == a
            &&& v.selection is None
            &&& changed
            &&& cut is None
        }),
{
}

/// Moving the carrot away from a selection's end keeps its other end: with
/// the carrot at the right end, moving further right extends the selection;
/// with the carrot at the left end, moving further left extends it; without a
/// selection, the carrot's old place is the fixed end.
pub proof fn law_selection_keeps_anchor(a: usize, b: usize, c: usize, n: usize)
    requires
        a <= b,
    ensures
        n > b ==> moved_selection(Some((a, b)), b, n) == (a, n),
        n < a ==> moved_selection(Some((a, b)), a, n) == (n, b),
        n > c ==> moved_selection(None, c, n) == (c, n),
        n < c ==> moved_selection(None, c, n) == (n, c),
{
}

/// The text input after `k` frames of `input`, from `v`.
pub open spec fn frames(
    v: TextInputView,
    input: Input,
    delta: u64,
    now: u64,
    mouse_carrot_position: usize,
    k: nat,
) -> TextInputView
    decreases k,
{
    if k == 0 {
        v
    } else {
        frame_step(frames(v, input, delta, now, mouse_carrot_position, (k - 1) as nat), input, delta, now, mouse_carrot_position, None).0
    }
}

/// `k` frames of shift and the right arrow, from a carrot with no selection,
/// select the `k` characters after it, the carrot at their end.
#[verifier::rlimit(50)]
pub proof fn law_shift_right_selects_characters(
    v: TextInputView,
    input: Input,
    delta: u64,
    now: u64,
    mouse_carrot_position: usize,
    k: nat,
)
    requires
        v.wf(),
        v.selection is None,
        v.carrot_position + k <= v.text.len(),
        v.text.len() <= usize::MAX,
        input.keys_state.right == KeyState::Pressed,
        input.keys_state.left != KeyState::Pressed,
        shift_down(input.keys_state),
        !ctrl_down(input.keys_state),
        input.keys_state.backspace != KeyState::Pressed,
        input.keys_state.delete != KeyState::Pressed,
        input.mouse.left_button == KeyState::Up,
        input.last_char is None,
    ensures
        frames(v, input, delta, now, mouse_carrot_position, k).text == v.text,
        frames(v, input, delta, now, mouse_carrot_position, k).carrot_position == v.carrot_position + k,
        frames(v, input, delta, now, mouse_carrot_position, k).selection == if k == 0 {
            None
        } else {
            Some((v.carrot_position, (v.carrot_position + k) as usize))
        },
    decreases k,
{
    if k > 0 {
        law_shift_right_selects_characters(v, input, delta, now, mouse_carrot_position, (k - 1) as nat);
        let prev = frames(v, input, delta, now, mouse_carrot_position, (k - 1) as nat);
        let ks = input.keys_state;
        assert(prev.carrot_position < prev.text.len());
        let s1 = blink_stage(prev, delta);
        assert(s1.v.text == prev.text && s1.v.carrot_position == prev.carrot_position && s1.v.selection
            == prev.selection && s1.new_carrot is None);
        let s2 = left_stage(s1, ks);
        assert(s2 == s1);
        let s3 = right_stage(s2, ks);
        assert(s3.new_carrot == Some((prev.carrot_position + 1) as usize));
        assert(s3.v.text == prev.text && s3.v.carrot_position == prev.carrot_position && s3.v.selection
            == prev.selection);
        let s4 = mouse_stage(s3, input.mouse.left_button, shift_down(ks), now, mouse_carrot_position);
        assert(s4.new_carrot == s3.new_carrot);
        assert(s4.v.text == prev.text);
        assert(s4.v.carrot_position == prev.carrot_position);
        assert(s4.v.selection == prev.selection);
        let s5 = select_stage(s4);
        assert(s5.v.selection == Some((v.carrot_position, (v.carrot_position + k) as usize)));
        let (v6, c6) = typing_stage(s5.v, None, s5.changed);
        assert(v6 == s5.v);
        assert(removal_stage(v6, ks, c6).0 == v6);
    }
}

} // verus!
