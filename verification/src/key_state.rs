use vstd::prelude::*;

verus! {

/// The state of a key (or mouse button) during one frame.
///
/// A key goes `Up -> Pressed -> Down -> Released -> Up`; `Pressed` and
/// `Released` last exactly one frame.
#[derive(PartialEq, Eq, Debug, Clone, Copy, Structural)]
pub enum KeyState {
    Up,
    Pressed,
    Down,
    Released,
}

/// The state a key is in on the next frame, when no event touches it.
pub open spec fn next_frame(s: KeyState) -> KeyState {
    match s {
        KeyState::Pressed => KeyState::Down,
        KeyState::Released => KeyState::Up,
        other => other,
    }
}

/// The state after a release event: only a held key is released.
pub open spec fn after_release(s: KeyState) -> KeyState {
    if s == KeyState::Down {
        KeyState::Released
    } else {
        s
    }
}

impl Default for KeyState {
    fn default() -> (r: Self)
        ensures
            r == KeyState::Up,
    {
        KeyState::Up
    }
}

impl KeyState {
    /// Advances the state by one frame.
    pub fn update(&mut self)
        ensures
            *final(self) == next_frame(*old(self)),
    {
        match *self {
            KeyState::Pressed => {
                *self = KeyState::Down;
            },
            KeyState::Released => {
                *self = KeyState::Up;
            },
            _ => {},
        }
    }

    pub fn press(&mut self)
        ensures
            *final(self) == KeyState::Pressed,
    {
        *self = KeyState::Pressed;
    }

    pub fn release(&mut self)
        ensures
            *final(self) == after_release(*old(self)),
    {
        if self.is_down() {
            *self = KeyState::Released;
        }
    }

    pub fn is_up(&self) -> (r: bool)
        ensures
            r == (*self == KeyState::Up),
    {
        *self == KeyState::Up
    }

    pub fn is_pressed(&self) -> (r: bool)
        ensures
            r == (*self == KeyState::Pressed),
    {
        *self == KeyState::Pressed
    }

    pub fn is_down(&self) -> (r: bool)
        ensures
            r == (*self == KeyState::Down),
    {
        *self == KeyState::Down
    }

    pub fn is_released(&self) -> (r: bool)
        ensures
            r == (*self == KeyState::Released),
    {
        *self == KeyState::Released
    }
}

/// A key is in exactly one of the four states.
pub proof fn law_exactly_one_state(s: KeyState)
    ensures
        (s == KeyState::Up) as int + (s == KeyState::Pressed) as int + (s == KeyState::Down) as int
            + (s == KeyState::Released) as int == 1,
{
}

/// `Pressed` and `Released` last one frame: after a frame the key is `Up` or
/// `Down`, and a second frame changes nothing more.
pub proof fn law_transient_states_last_one_frame(s: KeyState)
    ensures
        next_frame(s) == KeyState::Up || next_frame(s) == KeyState::Down,
        next_frame(next_frame(s)) == next_frame(s),
{
}

/// A full click: pressing, holding for a frame and releasing brings the key
/// back to `Up` one frame later.
pub proof fn law_click_cycle()
    ensures
        next_frame(after_release(next_frame(KeyState::Pressed))) == KeyState::Up,
        after_release(next_frame(KeyState::Pressed)) == KeyState::Released,
{
}

/// Releasing a key that is not held changes nothing.
pub proof fn law_release_only_when_down(s: KeyState)
    requires
        s != KeyState::Down,
    ensures
        after_release(s) == s,
{
}

} // verus!
