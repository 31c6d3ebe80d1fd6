use vstd::prelude::*;
use crate::key_state::KeyState;
use crate::keys_state::KeysState;
use crate::input::Input;
use crate::text_input::{clipboard_view, frame_step, TextInput, TextInputUpdate, TextInputView};
use crate::widgets::{any_key, state_after_frame, Base, BaseView};

verus! {

/// The part of a select box under the mouse.
#[derive(PartialEq, Eq, Debug, Clone, Copy, Structural)]
pub enum SelectElement {
    TextInput,
    Options { option_index: usize },
    Slider,
}

/// The option chosen after the up arrow: the previous one, wrapping around
/// to the last; the first one when none was chosen.
pub open spec fn option_above(selected: Option<usize>, count: nat) -> Option<usize> {
    match selected {
        Some(i) => Some(if i == 0 { (count - 1) as usize } else { (i - 1) as usize }),
        None => Some(0),
    }
}

/// The option chosen after the down arrow: the next one, wrapping around
/// to the first; the first one when none was chosen.
pub open spec fn option_below(selected: Option<usize>, count: nat) -> Option<usize> {
    match selected {
        Some(i) => Some(if i == count - 1 { 0 } else { (i + 1) as usize }),
        None => Some(0),
    }
}

/// The state of a select box, as plain values.
pub struct SelectView {
    pub base: BaseView,
    pub text_input_base: BaseView,
    pub options: Seq<Seq<char>>,
    pub selected_option: Option<usize>,
    pub text_input: TextInputView,
    pub hovered_element: SelectElement,
    pub is_on_text_input: bool,
    pub is_on_slider: bool,
}

impl SelectView {
    /// The chosen and hovered options exist; without options, the arrows may
    /// have chosen the first one all the same.
    pub open spec fn wf(self) -> bool {
        &&& self.selected_option matches Some(i) ==> (i < self.options.len() || (self.options.len() == 0
            && i == 0))
        &&& self.hovered_element matches SelectElement::Options { option_index } ==> option_index
            < self.options.len()
        &&& self.text_input.wf()
    }
}

/// The text input showing `text`, the carrot at its end.
pub open spec fn showing(t: TextInputView, text: Seq<char>) -> TextInputView {
    TextInputView { text, selection: None, carrot_position: text.len() as usize, ..t }
}

/// Without options, an arrow that moves a chosen option, both arrows in one
/// frame, or enter on a chosen option look up an option that is not there.
pub open spec fn keys_look_up_nothing(v: SelectView, up: KeyState, down: KeyState, enter: KeyState) -> bool {
    let chosen = v.selected_option is Some;
    let up_p = up == KeyState::Pressed;
    let down_p = down == KeyState::Pressed;
    &&& v.options.len() == 0
    &&& (chosen && (up_p || down_p)) || (up_p && down_p) || (enter == KeyState::Pressed && (chosen || up_p
        || down_p))
}

/// The arrows move the chosen option; enter shows it in the text input.
pub open spec fn keyboard_stage(v: SelectView, up: KeyState, down: KeyState, enter: KeyState) -> SelectView {
    let n = v.options.len();
    let s1 = if up == KeyState::Pressed { option_above(v.selected_option, n) } else { v.selected_option };
    let s2 = if down == KeyState::Pressed { option_below(s1, n) } else { s1 };
    let t1 = if enter == KeyState::Pressed && s2 is Some && v.text_input.text != v.options[s2.unwrap() as int] {
        showing(v.text_input, v.options[s2.unwrap() as int])
    } else {
        v.text_input
    };
    SelectView { selected_option: s2, text_input: t1, ..v }
}

/// A click on the text input forgets the chosen option, a click on an option
/// chooses and shows it, a click on the slider grabs it; releasing the
/// button lets the slider go and gives the keyboard back to the text input.
pub open spec fn click_stage(v: SelectView, left: KeyState) -> SelectView {
    if left == KeyState::Pressed {
        match v.hovered_element {
            SelectElement::TextInput => SelectView { selected_option: None, ..v },
            SelectElement::Options { option_index } => SelectView {
                selected_option: Some(option_index),
                text_input: showing(v.text_input, v.options[option_index as int]),
                is_on_text_input: false,
                ..v
            },
            SelectElement::Slider => SelectView { is_on_slider: true, is_on_text_input: false, ..v },
        }
    } else if left == KeyState::Released {
        SelectView { is_on_slider: false, is_on_text_input: true, ..v }
    } else {
        v
    }
}

/// One frame of a select box's choice: the keyboard, then the element that
/// the mouse hovers once it has moved (`hovered`, found by the caller; a
/// change to redraw), then the click.
pub open spec fn choice_step(
    v: SelectView,
    ks: KeysState,
    left: KeyState,
    hovered: Option<SelectElement>,
) -> (SelectView, bool) {
    let v1 = keyboard_stage(v, ks.up, ks.down, ks.enter);
    let v2 = match hovered {
        Some(e) => SelectView { hovered_element: e, ..v1 },
        None => v1,
    };
    (click_stage(v2, left), hovered is Some)
}

/// The arrows are the select box's own keys: they push it as the mouse does.
pub open spec fn own_keys(ks: KeysState) -> Seq<KeyState> {
    seq![ks.up, ks.down]
}

/// `pos`, moved back onto the end of a text of `len` characters when it lies
/// past it.
pub open spec fn within(pos: usize, len: nat) -> usize {
    if pos <= len { pos } else { len as usize }
}

/// One frame of a select box: its press state follows the left button and
/// the arrows (a press or a release is a change); then the choice
/// (`choice_step`); a vertical mouse move while the slider is held is a
/// change; then, when the box is on its text input, the text input's
/// own frame, with the character under the mouse (`mouse_carrot_position`,
/// found by the caller) kept within the text. Yields the state, whether the
/// box must be redrawn, and the text to put in the clipboard.
pub open spec fn select_frame(
    v: SelectView,
    input: Input,
    hovered: Option<SelectElement>,
    delta: u64,
    now: u64,
    mouse_carrot_position: usize,
    clipboard: Option<Seq<char>>,
) -> (SelectView, bool, Option<Seq<char>>) {
    let ks = input.keys_state;
    let left = input.mouse.left_button;
    let keys = own_keys(ks);
    let v0 = SelectView { base: BaseView { state: state_after_frame(v.base.state, left, keys), ..v.base }, ..v };
    let c0 = left == KeyState::Pressed || any_key(keys, KeyState::Pressed) || left == KeyState::Released
        || any_key(keys, KeyState::Released);
    let (v1, c1) = choice_step(v0, ks, left, hovered);
    let c_slider = input.mouse.delta_y != 0 && v1.is_on_slider;
    if v1.is_on_text_input {
        let p = within(mouse_carrot_position, v1.text_input.text.len());
        let (t, c2, cb) = frame_step(v1.text_input, input, delta, now, p, clipboard);
        (
            SelectView {
                text_input: t,
                text_input_base: BaseView {
                    state: state_after_frame(v1.text_input_base.state, left, Seq::empty()),
                    ..v1.text_input_base
                },
                ..v1
            },
            c0 || c1 || c_slider || c2 || left == KeyState::Pressed || left == KeyState::Released,
            cb,
        )
    } else {
        (v1, c0 || c1 || c_slider, None)
    }
}

/// Whether two texts are equal.
fn same_text(a: &Vec<char>, b: &Vec<char>) -> (r: bool)
    ensures
        r == (a@ == b@),
{
    if a.len() != b.len() {
        return false;
    }
    let mut k: usize = 0;
    while k < a.len()
        invariant
            a.len() == b.len(),
            k <= a.len(),
            forall|m: int| 0 <= m < k ==> a@[m] == b@[m],
        decreases a.len() - k,
    {
        if a[k] != b[k] {
            return false;
        }
        k = k + 1;
    }
    assert(a@ =~= b@);
    true
}

/// A copy of a text.
fn copy_text(a: &Vec<char>) -> (r: Vec<char>)
    ensures
        r@ == a@,
{
    let r = a.clone();
    assert(r@ =~= a@);
    r
}

/// A text input with a list of options to choose from.
pub struct Select {
    base: Base,
    text_input_base: Base,
    options: Vec<Vec<char>>,
    selected_option: Option<usize>,
    text_input: TextInput,
    hovered_element: SelectElement,
    is_on_text_input: bool,
    is_on_slider: bool,
}

impl Select {
    pub closed spec fn view(&self) -> SelectView {
        SelectView {
            base: self.base@,
            text_input_base: self.text_input_base@,
            options: self.options@.map_values(|o: Vec<char>| o@),
            selected_option: self.selected_option,
            text_input: self.text_input@,
            hovered_element: self.hovered_element,
            is_on_text_input: self.is_on_text_input,
            is_on_slider: self.is_on_slider,
        }
    }

    /// The text that the empty text input shows.
    pub closed spec fn placeholder_view(&self) -> Seq<char> {
        self.text_input.placeholder_view()
    }

    /// A select box offering `options`, its text input empty and showing
    /// `placeholder`; nothing is chosen yet.
    pub fn new(options: Vec<Vec<char>>, placeholder: String, now: u64) -> (r: Self)
        ensures
            r.placeholder_view() == placeholder@,
            r@.options == options@.map_values(|o: Vec<char>| o@),
            r@.base == (BaseView {
                id: 0,
                state: KeyState::Up,
                focused: false,
                hovered: false,
                visible: true,
                parent_id: None,
                has_scroll: false,
            }),
            r@.text_input_base == r@.base,
            r@.selected_option is None,
            r@.text_input.text == Seq::<char>::empty(),
            r@.hovered_element == SelectElement::TextInput,
            !r@.is_on_text_input,
            !r@.is_on_slider,
            r@.wf(),
    {
        Select {
            base: Base::new(false),
            text_input_base: Base::new(false),
            options,
            selected_option: None,
            text_input: TextInput::new(placeholder, now),
            hovered_element: SelectElement::TextInput,
            is_on_text_input: false,
            is_on_slider: false,
        }
    }

    /// The chosen option, if any.
    pub fn get_selected_option(&self) -> (r: Option<usize>)
        ensures
            r == self@.selected_option,
    {
        self.selected_option
    }

    /// The text typed or chosen.
    pub fn get_option(&self) -> (r: &Vec<char>)
        ensures
            r@ == self@.text_input.text,
    {
        self.text_input.get_text()
    }

    pub fn get_base(&self) -> (r: &Base)
        ensures
            r@ == self@.base,
    {
        &self.base
    }

    pub fn get_text_input(&self) -> (r: &TextInput)
        ensures
            r@ == self@.text_input,
    {
        &self.text_input
    }

    /// Whether the text input receives the keyboard.
    pub fn is_on_text_input(&self) -> (r: bool)
        ensures
            r == self@.is_on_text_input,
    {
        self.is_on_text_input
    }

    /// Whether the slider is held.
    pub fn is_on_slider(&self) -> (r: bool)
        ensures
            r == self@.is_on_slider,
    {
        self.is_on_slider
    }

    /// Shows option `index` in the text input.
    fn show_option(&mut self, index: usize)
        requires
            old(self)@.wf(),
            index < old(self)@.options.len(),
        ensures
            final(self).placeholder_view() == old(self).placeholder_view(),
            final(self)@ == (SelectView {
                text_input: showing(old(self)@.text_input, old(self)@.options[index as int]),
                ..old(self)@
            }),
    {
        let text = copy_text(&self.options[index]);
        self.text_input.set_text(text);
    }

    fn keyboard(&mut self, up: KeyState, down: KeyState, enter: KeyState)
        requires
            old(self)@.wf(),
            !keys_look_up_nothing(old(self)@, up, down, enter),
        ensures
            final(self).placeholder_view() == old(self).placeholder_view(),
            final(self)@ == keyboard_stage(old(self)@, up, down, enter),
            final(self)@.wf(),
    {
        let n = self.options.len();
        if up.is_pressed() {
            self.selected_option = match self.selected_option {
                Some(i) => Some(if i == 0 { n - 1 } else { i - 1 }),
                None => Some(0),
            };
        }
        if down.is_pressed() {
            self.selected_option = match self.selected_option {
                Some(i) => Some(if i == n - 1 { 0 } else { i + 1 }),
                None => Some(0),
            };
        }
        if enter.is_pressed() {
            if let Some(i) = self.selected_option {
                if !same_text(self.text_input.get_text(), &self.options[i]) {
                    self.show_option(i);
                }
            }
        }
    }

    fn click(&mut self, left_button: KeyState)
        requires
            old(self)@.wf(),
        ensures
            final(self).placeholder_view() == old(self).placeholder_view(),
            final(self)@ == click_stage(old(self)@, left_button),
            final(self)@.wf(),
    {
        if left_button.is_pressed() {
            match self.hovered_element {
                SelectElement::TextInput => {
                    self.selected_option = None;
                },
                SelectElement::Options { option_index } => {
                    self.selected_option = Some(option_index);
                    self.show_option(option_index);
                    self.is_on_text_input = false;
                },
                SelectElement::Slider => {
                    self.is_on_slider = true;
                    self.is_on_text_input = false;
                },
            }
        } else if left_button.is_released() {
            self.is_on_slider = false;
            self.is_on_text_input = true;
        }
    }

    /// The choice part of a frame; says whether the hovered element changed.
    fn update_choice(
        &mut self,
        keys_state: &KeysState,
        left_button: KeyState,
        hovered: Option<SelectElement>,
    ) -> (changed: bool)
        requires
            old(self)@.wf(),
            !keys_look_up_nothing(old(self)@, keys_state.up, keys_state.down, keys_state.enter),
            hovered matches Some(SelectElement::Options { option_index }) ==> option_index
                < old(self)@.options.len(),
        ensures
            final(self).placeholder_view() == old(self).placeholder_view(),
            (final(self)@, changed) == choice_step(old(self)@, *keys_state, left_button, hovered),
            final(self)@.wf(),
    {
        self.keyboard(keys_state.up, keys_state.down, keys_state.enter);
        let mut changed = false;
        if let Some(e) = hovered {
            self.hovered_element = e;
            changed = true;
        }
        self.click(left_button);
        changed
    }

    /// The text input's own frame.
    fn text_frame(
        &mut self,
        input: &Input,
        delta: u64,
        now: u64,
        mouse_carrot_position: usize,
        clipboard: Option<Vec<char>>,
    ) -> (r: TextInputUpdate)
        requires
            old(self)@.wf(),
        ensures
            final(self).placeholder_view() == old(self).placeholder_view(),
            final(self)@.wf(),
            ({
                let v = old(self)@;
                let p = within(mouse_carrot_position, v.text_input.text.len());
                let (t, c, cb) = frame_step(v.text_input, *input, delta, now, p, clipboard_view(clipboard));
                &&& final(self)@ == (SelectView {
                    text_input: t,
                    text_input_base: BaseView {
                        state: state_after_frame(v.text_input_base.state, input.mouse.left_button, Seq::empty()),
                        ..v.text_input_base
                    },
                    ..v
                })
                &&& r.changed == (c || input.mouse.left_button == KeyState::Pressed || input.mouse.left_button
                    == KeyState::Released)
                &&& clipboard_view(r.clipboard) == cb
            }),
    {
        let len = self.text_input.get_text().len();
        let p = if mouse_carrot_position <= len { mouse_carrot_position } else { len };
        self.text_input.update(&mut self.text_input_base, input, delta, now, p, clipboard)
    }

    /// One frame of the select box (see `select_frame`): says whether it
    /// must be redrawn and what to put in the clipboard. `hovered` is the
    /// element that the mouse moved onto, if it moved without the left button
    /// held; `mouse_carrot_position` the character of the text input under
    /// the mouse.
    pub fn update(
        &mut self,
        input: &Input,
        hovered: Option<SelectElement>,
        delta: u64,
        now: u64,
        mouse_carrot_position: usize,
        clipboard: Option<Vec<char>>,
    ) -> (r: TextInputUpdate)
        requires
            old(self)@.wf(),
            !keys_look_up_nothing(old(self)@, input.keys_state.up, input.keys_state.down, input.keys_state.enter),
            hovered matches Some(SelectElement::Options { option_index }) ==> option_index
                < old(self)@.options.len(),
        ensures
            final(self)@.wf(),
            final(self).placeholder_view() == old(self).placeholder_view(),
            ({
                let (v, c, cb) = select_frame(
                    old(self)@,
                    *input,
                    hovered,
                    delta,
                    now,
                    mouse_carrot_position,
                    clipboard_view(clipboard),
                );
                &&& final(self)@ == v
                &&& r.changed == c
                &&& clipboard_view(r.clipboard) == cb
            }),
    {
        let keys = vec![input.keys_state.up, input.keys_state.down];
        proof {
            let k = own_keys(input.keys_state);
            assert(keys@ == k);
            if input.keys_state.up == KeyState::Pressed {
                assert(k[0] == KeyState::Pressed);
            }
            if input.keys_state.down == KeyState::Pressed {
                assert(k[1] == KeyState::Pressed);
            }
            if input.keys_state.up == KeyState::Released {
                assert(k[0] == KeyState::Released);
            }
            if input.keys_state.down == KeyState::Released {
                assert(k[1] == KeyState::Released);
            }
        }
        let base_changed = self.base.update(input, keys);
        let choice_changed = self.update_choice(&input.keys_state, input.mouse.left_button, hovered);
        let slider_moved = input.mouse.delta_y != 0 && self.is_on_slider;
        if self.is_on_text_input {
            let r = self.text_frame(input, delta, now, mouse_carrot_position, clipboard);
            TextInputUpdate {
                changed: base_changed || choice_changed || slider_moved || r.changed,
                clipboard: r.clipboard,
            }
        } else {
            TextInputUpdate { changed: base_changed || choice_changed || slider_moved, clipboard: None }
        }
    }
}

/// The up arrow and then the down arrow (or the other way round) come back
/// to the option chosen before, when one was.
pub proof fn law_up_down_cancel(i: usize, count: nat)
    requires
        i < count,
        count <= usize::MAX,
    ensures
        option_below(option_above(Some(i), count), count) == Some(i),
        option_above(option_below(Some(i), count), count) == Some(i),
{
}

/// The arrows never choose an option that does not exist.
pub proof fn law_arrows_stay_in_range(selected: Option<usize>, count: nat)
    requires
        count > 0,
        count <= usize::MAX,
        selected matches Some(i) ==> i < count,
    ensures
        option_above(selected, count) matches Some(i) && i < count,
        option_below(selected, count) matches Some(i) && i < count,
{
}

} // verus!
