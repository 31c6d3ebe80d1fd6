use vstd::prelude::*;
use crate::key_state::{after_release, next_frame, KeyState};
use crate::keys_state::{Key, KeysState};

verus! {

/// The mouse buttons that a button event can name.
#[derive(PartialEq, Eq, Debug, Clone, Copy, Structural)]
pub enum MouseButton {
    Left,
    Right,
    Middle,
    Unknown,
    X1,
    X2,
}

/// A mouse event, as plain values.
#[derive(PartialEq, Eq, Debug, Clone, Copy, Structural)]
pub enum MouseEvent {
    Motion { x: i32, y: i32, xrel: i32, yrel: i32 },
    ButtonDown(MouseButton),
    ButtonUp(MouseButton),
    Wheel { y: i32 },
    Other,
}

/// The mouse: its position, its motion and wheel during the frame, and its
/// buttons.
#[derive(PartialEq, Eq, Debug, Clone, Copy, Structural)]
pub struct Mouse {
    pub x: i32,
    pub y: i32,
    pub delta_x: i32,
    pub delta_y: i32,
    pub left_button: KeyState,
    pub right_button: KeyState,
    pub middle_button: KeyState,
    pub wheel: i32,
}

/// Buttons other than left, right and middle are not handled.
pub open spec fn handled_button(b: MouseButton) -> bool {
    b == MouseButton::Left || b == MouseButton::Right || b == MouseButton::Middle
}

/// The events that `Mouse::get_event` handles.
pub open spec fn handled_mouse_event(e: MouseEvent) -> bool {
    match e {
        MouseEvent::ButtonDown(b) => handled_button(b),
        MouseEvent::ButtonUp(b) => handled_button(b),
        _ => true,
    }
}

/// The mouse after `e`.
pub open spec fn mouse_after_event(m: Mouse, e: MouseEvent) -> Mouse {
    match e {
        MouseEvent::Motion { x, y, xrel, yrel } => Mouse { x, y, delta_x: xrel, delta_y: yrel, ..m },
        MouseEvent::ButtonDown(MouseButton::Left) => Mouse { left_button: KeyState::Pressed, ..m },
        MouseEvent::ButtonDown(MouseButton::Right) => Mouse { right_button: KeyState::Pressed, ..m },
        MouseEvent::ButtonDown(_) => Mouse { middle_button: KeyState::Pressed, ..m },
        MouseEvent::ButtonUp(MouseButton::Left) => Mouse {
            left_button: after_release(m.left_button),
            ..m
        },
        MouseEvent::ButtonUp(MouseButton::Right) => Mouse { right_button: KeyState::Released, ..m },
        MouseEvent::ButtonUp(_) => Mouse { middle_button: KeyState::Released, ..m },
        MouseEvent::Wheel { y } => Mouse { wheel: y, ..m },
        MouseEvent::Other => m,
    }
}

impl Default for Mouse {
    fn default() -> (r: Self)
        ensures
            r == (Mouse {
                x: 0,
                y: 0,
                delta_x: 0,
                delta_y: 0,
                left_button: KeyState::Up,
                right_button: KeyState::Up,
                middle_button: KeyState::Up,
                wheel: 0,
            }),
    {
        Mouse {
            x: 0,
            y: 0,
            delta_x: 0,
            delta_y: 0,
            left_button: KeyState::Up,
            right_button: KeyState::Up,
            middle_button: KeyState::Up,
            wheel: 0,
        }
    }
}

impl Mouse {
    /// Starts a new frame: no motion, no wheel, and the buttons advance.
    pub fn update(&mut self)
        ensures
            *final(self) == (Mouse {
                delta_x: 0,
                delta_y: 0,
                wheel: 0,
                left_button: next_frame(old(self).left_button),
                right_button: next_frame(old(self).right_button),
                middle_button: next_frame(old(self).middle_button),
                ..*old(self)
            }),
    {
        self.delta_x = 0;
        self.delta_y = 0;
        self.wheel = 0;
        self.left_button.update();
        self.right_button.update();
        self.middle_button.update();
    }

    /// Records a mouse event. The left button goes through a release only
    /// when held; the other buttons are set directly.
    pub fn get_event(&mut self, event: MouseEvent)
        requires
            handled_mouse_event(event),
        ensures
            *final(self) == mouse_after_event(*old(self), event),
    {
        match event {
            MouseEvent::Motion { x, y, xrel, yrel } => {
                self.x = x;
                self.y = y;
                self.delta_x = xrel;
                self.delta_y = yrel;
            },
            MouseEvent::ButtonDown(b) => match b {
                MouseButton::Left => self.left_button.press(),
                MouseButton::Right => self.right_button = KeyState::Pressed,
                _ => self.middle_button = KeyState::Pressed,
            },
            MouseEvent::ButtonUp(b) => match b {
                MouseButton::Left => self.left_button.release(),
                MouseButton::Right => self.right_button = KeyState::Released,
                _ => self.middle_button = KeyState::Released,
            },
            MouseEvent::Wheel { y } => {
                self.wheel = y;
            },
            MouseEvent::Other => {},
        }
    }

    /// The mouse moved during the frame.
    pub fn moved(&self) -> (r: bool)
        ensures
            r == (self.delta_x != 0 || self.delta_y != 0),
    {
        self.delta_x != 0 || self.delta_y != 0
    }
}

/// An input event of a frame, as plain values.
#[derive(PartialEq, Eq, Debug, Clone)]
pub enum InputEvent {
    Mouse(MouseEvent),
    TextEditing,
    TextInput(Vec<char>),
    Quit,
    KeyDown(Option<Key>),
    KeyUp(Option<Key>),
    WindowSizeChanged { width: i32, height: i32 },
    Other,
}

/// The input of a frame: keys, mouse, the typed character and window events.
pub struct Input {
    pub window_closed: bool,
    pub keys_state: KeysState,
    pub mouse: Mouse,
    pub last_char: Option<char>,
    pub window_resized: Option<(u32, u32)>,
}

/// The events that `Input::handle_event` accepts: a text event holds
/// exactly one character.
pub open spec fn handled_input_event(e: InputEvent) -> bool {
    match e {
        InputEvent::TextInput(text) => text@.len() == 1,
        _ => true,
    }
}

impl Input {
    pub fn new() -> (r: Self)
        ensures
            !r.window_closed,
            r.keys_state.all_up(),
            r.mouse == (Mouse {
                x: 0,
                y: 0,
                delta_x: 0,
                delta_y: 0,
                left_button: KeyState::Up,
                right_button: KeyState::Up,
                middle_button: KeyState::Up,
                wheel: 0,
            }),
            r.last_char.is_none(),
            r.window_resized.is_none(),
    {
        Input {
            window_closed: false,
            keys_state: KeysState::default(),
            mouse: Mouse::default(),
            last_char: None,
            window_resized: None,
        }
    }

    /// Starts a new frame: forgets the frame's character and resize, and
    /// advances every key and the mouse.
    pub fn begin_frame(&mut self)
        ensures
            final(self).last_char.is_none(),
            final(self).window_resized.is_none(),
            final(self).window_closed == old(self).window_closed,
            final(self).keys_state.array_order() == old(self).keys_state.array_order().map_values(
                |s: KeyState| next_frame(s),
            ),
            final(self).keys_state.period == old(self).keys_state.period,
            final(self).keys_state.comma == old(self).keys_state.comma,
            final(self).mouse == (Mouse {
                delta_x: 0,
                delta_y: 0,
                wheel: 0,
                left_button: next_frame(old(self).mouse.left_button),
                right_button: next_frame(old(self).mouse.right_button),
                middle_button: next_frame(old(self).mouse.middle_button),
                ..old(self).mouse
            }),
    {
        self.last_char = None;
        self.window_resized = None;
        self.keys_state.update_all();
        self.mouse.update();
    }

    /// Records one event of the frame. A text event yields the typed
    /// character; a key event presses or releases the key; a size change is
    /// remembered; closing the window is remembered.
    pub fn handle_event(&mut self, event: InputEvent)
        requires
            handled_input_event(event),
            event matches InputEvent::Mouse(m) ==> handled_mouse_event(m),
        ensures
            final(self).mouse == (match event {
                InputEvent::Mouse(m) => mouse_after_event(old(self).mouse, m),
                _ => old(self).mouse,
            }),
            final(self).last_char == (match event {
                InputEvent::TextInput(text) => Some(text@[0]),
                _ => old(self).last_char,
            }),
            final(self).window_closed == (old(self).window_closed || event == InputEvent::Quit),
            final(self).keys_state == (match event {
                InputEvent::KeyDown(Some(k)) => old(self).keys_state.with_key(k, KeyState::Pressed),
                InputEvent::KeyUp(Some(k)) => old(self).keys_state.with_key(
                    k,
                    after_release(old(self).keys_state.key(k)),
                ),
                _ => old(self).keys_state,
            }),
            final(self).window_resized == (match event {
                InputEvent::WindowSizeChanged { width, height } => Some(
                    (width as u32, height as u32),
                ),
                _ => old(self).window_resized,
            }),
    {
        match event {
            InputEvent::Mouse(m) => self.mouse.get_event(m),
            InputEvent::TextEditing => {},
            InputEvent::TextInput(text) => {
                self.last_char = Some(text[0]);
            },
            InputEvent::Quit => self.window_closed = true,
            InputEvent::KeyDown(key) => {
                if let Some(k) = key {
                    self.keys_state.press_key(k);
                }
            },
            InputEvent::KeyUp(key) => {
                if let Some(k) = key {
                    self.keys_state.release_key(k);
                }
            },
            InputEvent::WindowSizeChanged { width, height } => {
                self.window_resized = Some((width as u32, height as u32));
            },
            InputEvent::Other => {},
        }
    }

    /// Whether `shortcut` was triggered this frame.
    pub fn shortcut_pressed(&self, shortcut: &crate::keys_state::Shortcut) -> (r: bool)
        requires
            shortcut.wf(),
        ensures
            r == self.keys_state.shortcut_holds(shortcut.view()),
    {
        self.keys_state.shortcut_pressed(shortcut)
    }
}

} // verus!
