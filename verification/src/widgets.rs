use vstd::prelude::*;
use crate::input::Input;
use crate::key_state::{after_release, next_frame, KeyState};

verus! {

/// The identifier a widget gets from the manager.
pub type WidgetId = u32;

#[derive(PartialEq, Eq, Debug, Clone, Copy, Structural)]
pub enum Orientation {
    Horizontal,
    Vertical,
}

/// A signal sent by name to a list of widgets.
pub struct Signal {
    pub receivers: Vec<WidgetId>,
    pub name: String,
}

/// What every widget has: its id, its press state, whether it is focused,
/// hovered or visible, its parent widget and whether it scrolls.
pub struct Base {
    id: WidgetId,
    pub state: KeyState,
    focused: bool,
    hovered: bool,
    visible: bool,
    pub parent_id: Option<WidgetId>,
    has_scroll: bool,
}

/// The fields of a `Base`, as plain values.
pub struct BaseView {
    pub id: WidgetId,
    pub state: KeyState,
    pub focused: bool,
    pub hovered: bool,
    pub visible: bool,
    pub parent_id: Option<WidgetId>,
    pub has_scroll: bool,
}

/// Some key of `keys` is in state `s`.
pub open spec fn any_key(keys: Seq<KeyState>, s: KeyState) -> bool {
    exists|i: int| 0 <= i < keys.len() && keys[i] == s
}

/// The press state of a widget after a frame in which the left button is
/// `left` and the widget's other keys are `keys`: a press of any of them
/// presses the widget, otherwise a release of any of them releases it.
pub open spec fn state_after_frame(state: KeyState, left: KeyState, keys: Seq<KeyState>) -> KeyState {
    if left == KeyState::Pressed || any_key(keys, KeyState::Pressed) {
        KeyState::Pressed
    } else if left == KeyState::Released || any_key(keys, KeyState::Released) {
        after_release(next_frame(state))
    } else {
        next_frame(state)
    }
}

impl Base {
    pub closed spec fn view(&self) -> BaseView {
        BaseView {
            id: self.id,
            state: self.state,
            focused: self.focused,
            hovered: self.hovered,
            visible: self.visible,
            parent_id: self.parent_id,
            has_scroll: self.has_scroll,
        }
    }

    /// A new widget base: id 0, up, not focused nor hovered, visible, no parent.
    pub fn new(has_scroll: bool) -> (r: Self)
        ensures
            r@.id == 0,
            r@.state == KeyState::Up,
            !r@.focused,
            !r@.hovered,
            r@.visible,
            r@.parent_id.is_none(),
            r@.has_scroll == has_scroll,
    {
        Base {
            id: 0,
            state: KeyState::Up,
            focused: false,
            hovered: false,
            visible: true,
            parent_id: None,
            has_scroll,
        }
    }

    pub(crate) fn set_id(&mut self, id: WidgetId)
        ensures
            final(self)@ == (BaseView { id, ..old(self)@ }),
    {
        self.id = id;
    }

    /// Updates the press state from the left mouse button and the widget's
    /// own keys; returns whether a press or a release happened.
    pub fn update(&mut self, input: &Input, other_keys: Vec<KeyState>) -> (changed: bool)
        ensures
            final(self)@ == (BaseView {
                state: state_after_frame(old(self)@.state, input.mouse.left_button, other_keys@),
                ..old(self)@
            }),
            changed == (input.mouse.left_button == KeyState::Pressed || any_key(
                other_keys@,
                KeyState::Pressed,
            ) || input.mouse.left_button == KeyState::Released || any_key(
                other_keys@,
                KeyState::Released,
            )),
    {
        let mut changed = false;
        self.state.update();
        let mut pressed = false;
        let mut released = false;
        let mut i: usize = 0;
        while i < other_keys.len()
            invariant
                0 <= i <= other_keys@.len(),
                pressed == (exists|j: int| 0 <= j < i && other_keys@[j] == KeyState::Pressed),
                released == (exists|j: int| 0 <= j < i && other_keys@[j] == KeyState::Released),
            decreases other_keys@.len() - i,
        {
            if other_keys[i].is_pressed() {
                pressed = true;
            }
            if other_keys[i].is_released() {
                released = true;
            }
            i = i + 1;
        }
        if input.mouse.left_button.is_pressed() || pressed {
            self.state.press();
            changed = true;
        } else if input.mouse.left_button.is_released() || released {
            self.state.release();
            changed = true;
        }
        changed
    }

    /// The widget is held: just pressed or down.
    pub fn is_pushed(&self) -> (r: bool)
        ensures
            r == (self@.state == KeyState::Pressed || self@.state == KeyState::Down),
    {
        self.state.is_pressed() || self.state.is_down()
    }

    pub fn get_id(&self) -> (r: WidgetId)
        ensures
            r == self@.id,
    {
        self.id
    }

    pub fn is_visible(&self) -> (r: bool)
        ensures
            r == self@.visible,
    {
        self.visible
    }

    pub fn set_visible(&mut self)
        ensures
            final(self)@ == (BaseView { visible: true, ..old(self)@ }),
    {
        self.visible = true;
    }

    pub fn set_invisible(&mut self)
        ensures
            final(self)@ == (BaseView { visible: false, ..old(self)@ }),
    {
        self.visible = false;
    }

    pub fn is_focused(&self) -> (r: bool)
        ensures
            r == self@.focused,
    {
        self.focused
    }

    pub fn is_hovered(&self) -> (r: bool)
        ensures
            r == self@.hovered,
    {
        self.hovered
    }

    pub fn has_scroll(&self) -> (r: bool)
        ensures
            r == self@.has_scroll,
    {
        self.has_scroll
    }

    pub fn get_parent_id(&self) -> (r: Option<WidgetId>)
        ensures
            r == self@.parent_id,
    {
        self.parent_id
    }

    pub fn set_parent_id(&mut self, parent_id: Option<WidgetId>)
        ensures
            final(self)@ == (BaseView { parent_id, ..old(self)@ }),
    {
        self.parent_id = parent_id;
    }

    pub fn get_state(&self) -> (r: KeyState)
        ensures
            r == self@.state,
    {
        self.state
    }

    pub(crate) fn set_focused(&mut self, focused: bool)
        ensures
            final(self)@ == (BaseView { focused, ..old(self)@ }),
    {
        self.focused = focused;
    }

    pub(crate) fn set_hovered(&mut self, hovered: bool)
        ensures
            final(self)@ == (BaseView { hovered, ..old(self)@ }),
    {
        self.hovered = hovered;
    }
}

/// Whether `id` is one of `ids`.
pub fn contains_id(ids: &Vec<WidgetId>, id: WidgetId) -> (r: bool)
    ensures
        r == ids@.contains(id),
{
    let mut k: usize = 0;
    while k < ids.len()
        invariant
            k <= ids.len(),
            forall|m: int| 0 <= m < k ==> ids@[m] != id,
        decreases ids.len() - k,
    {
        if ids[k] == id {
            assert(ids@[k as int] == id);
            return true;
        }
        k = k + 1;
    }
    false
}

/// Where `id` first stands in `ids`, if it does.
pub fn find_id(ids: &Vec<WidgetId>, id: WidgetId) -> (r: Option<usize>)
    ensures
        match r {
            Some(k) => k < ids@.len() && ids@[k as int] == id && forall|m: int| 0 <= m < k ==> ids@[m] != id,
            None => !ids@.contains(id),
        },
{
    let mut k: usize = 0;
    while k < ids.len()
        invariant
            k <= ids.len(),
            forall|m: int| 0 <= m < k ==> ids@[m] != id,
        decreases ids.len() - k,
    {
        if ids[k] == id {
            return Some(k);
        }
        k = k + 1;
    }
    None
}

} // verus!
