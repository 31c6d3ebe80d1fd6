use vstd::prelude::*;
use crate::input::Input;
use crate::key_state::KeyState;
use crate::widgets::{any_key, state_after_frame, Base, BaseView};

verus! {

/// A push button with a label; it is pushed by the mouse or by the enter key.
pub struct Button {
    base: Base,
    text: String,
}

impl Button {
    pub closed spec fn text_view(&self) -> Seq<char> {
        self.text@
    }

    pub closed spec fn base_view(&self) -> BaseView {
        self.base@
    }

    pub fn get_base(&self) -> (r: &Base)
        ensures
            r@ == self.base_view(),
    {
        &self.base
    }

    pub fn new(base: Base, text: String) -> (r: Self)
        ensures
            r.base_view() == base@,
            r.text_view() == text@,
    {
        Button { base, text }
    }

    pub fn get_text(&self) -> (r: &String)
        ensures
            r@ == self.text_view(),
    {
        &self.text
    }

    pub fn set_text(&mut self, new_text: String)
        ensures
            final(self).text_view() == new_text@,
            final(self).base_view() == old(self).base_view(),
    {
        self.text = new_text;
    }

    /// The button was just pushed.
    pub fn is_pressed(&self) -> (r: bool)
        ensures
            r == (self.base_view().state == KeyState::Pressed),
    {
        self.base.get_state().is_pressed()
    }

    /// One frame: the mouse or the enter key pushes the button. Says whether
    /// it was pushed or let go.
    pub fn update(&mut self, input: &Input) -> (changed: bool)
        ensures
            final(self).base_view() == (BaseView {
                state: state_after_frame(
                    old(self).base_view().state,
                    input.mouse.left_button,
                    seq![input.keys_state.enter],
                ),
                ..old(self).base_view()
            }),
            final(self).text_view() == old(self).text_view(),
            changed == (input.mouse.left_button == KeyState::Pressed || input.keys_state.enter == KeyState::Pressed
                || input.mouse.left_button == KeyState::Released || input.keys_state.enter
                == KeyState::Released),
    {
        let keys = vec![input.keys_state.enter];
        assert(keys@ == seq![input.keys_state.enter]);
        let changed = self.base.update(input, keys);
        proof {
            let k = seq![input.keys_state.enter];
            if input.keys_state.enter == KeyState::Pressed {
                assert(k[0] == KeyState::Pressed);
            }
            if input.keys_state.enter == KeyState::Released {
                assert(k[0] == KeyState::Released);
            }
            assert(any_key(k, KeyState::Pressed) == (input.keys_state.enter == KeyState::Pressed));
            assert(any_key(k, KeyState::Released) == (input.keys_state.enter == KeyState::Released));
        }
        changed
    }
}

/// An on/off switch; it flips when the mouse lets it go.
pub struct Switch {
    base: Base,
    switched: bool,
}

impl Switch {
    pub closed spec fn is_on(&self) -> bool {
        self.switched
    }

    pub closed spec fn base_view(&self) -> BaseView {
        self.base@
    }

    pub fn get_base(&self) -> (r: &Base)
        ensures
            r@ == self.base_view(),
    {
        &self.base
    }

    /// A switch, off.
    pub fn new(base: Base) -> (r: Self)
        ensures
            r.base_view() == base@,
            !r.is_on(),
    {
        Switch { base, switched: false }
    }

    pub fn set_switched(&mut self, switched: bool)
        ensures
            final(self).is_on() == switched,
            final(self).base_view() == old(self).base_view(),
    {
        self.switched = switched;
    }

    pub fn is_switched(&self) -> (r: bool)
        ensures
            r == self.is_on(),
    {
        self.switched
    }

    /// One frame: the mouse pushes the switch; letting it go flips it. Says
    /// whether it was pushed or let go.
    pub fn update(&mut self, input: &Input) -> (changed: bool)
        ensures
            final(self).base_view() == (BaseView {
                state: state_after_frame(old(self).base_view().state, input.mouse.left_button, Seq::empty()),
                ..old(self).base_view()
            }),
            final(self).is_on() == (old(self).is_on() != (final(self).base_view().state == KeyState::Released)),
            changed == (input.mouse.left_button == KeyState::Pressed || input.mouse.left_button
                == KeyState::Released),
    {
        let none: Vec<KeyState> = Vec::new();
        proof {
            let e = Seq::<KeyState>::empty();
            assert(!any_key(e, KeyState::Pressed));
            assert(!any_key(e, KeyState::Released));
            assert(none@ =~= e);
        }
        let changed = self.base.update(input, none);
        if self.base.get_state().is_released() {
            self.switched = !self.switched;
        }
        changed
    }
}

/// A click flips the switch once: the frame where the button goes down
/// leaves it as it was, the frame where the button comes up flips it.
pub proof fn law_click_flips_switch(on: bool, state: KeyState)
    ensures
        ({
            let s1 = state_after_frame(state, KeyState::Pressed, Seq::empty());
            let on1 = on != (s1 == KeyState::Released);
            let s2 = state_after_frame(s1, KeyState::Released, Seq::empty());
            let on2 = on1 != (s2 == KeyState::Released);
            on1 == on && on2 == !on
        }),
{
}

} // verus!
