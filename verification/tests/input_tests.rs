use benday::input::{Input, InputEvent, Mouse, MouseButton, MouseEvent};
use benday::key_state::KeyState;
use benday::keys_state::{Key, KeysState, Shortcut};

#[test]
fn key_goes_through_a_click_cycle() {
    let mut k = KeyState::default();
    assert!(k.is_up());
    k.press();
    assert!(k.is_pressed());
    k.update();
    assert!(k.is_down());
    k.release();
    assert!(k.is_released());
    k.update();
    assert!(k.is_up());
}

#[test]
fn pressed_and_released_last_one_frame() {
    let mut k = KeyState::Pressed;
    k.update();
    assert_eq!(k, KeyState::Down);
    k.update();
    assert_eq!(k, KeyState::Down);
    let mut r = KeyState::Released;
    r.update();
    assert_eq!(r, KeyState::Up);
    r.update();
    assert_eq!(r, KeyState::Up);
}

#[test]
fn release_only_releases_a_held_key() {
    let mut up = KeyState::Up;
    up.release();
    assert_eq!(up, KeyState::Up);
    let mut pressed = KeyState::Pressed;
    pressed.release();
    assert_eq!(pressed, KeyState::Pressed);
    let mut down = KeyState::Down;
    down.release();
    assert_eq!(down, KeyState::Released);
}

#[test]
fn exactly_one_state_query_holds() {
    for s in [KeyState::Up, KeyState::Pressed, KeyState::Down, KeyState::Released] {
        let n = [s.is_up(), s.is_pressed(), s.is_down(), s.is_released()].iter().filter(|b| **b).count();
        assert_eq!(n, 1);
    }
}

#[test]
fn keys_start_up_and_read_back_what_was_written() {
    let mut ks = KeysState::default();
    assert_eq!(*ks.get_key(Key::A), KeyState::Up);
    ks.press_key(Key::A);
    assert_eq!(*ks.get_key(Key::A), KeyState::Pressed);
    assert_eq!(ks.a, KeyState::Pressed);
    assert_eq!(*ks.get_key(Key::B), KeyState::Up);
    ks.update_all();
    assert_eq!(ks.a, KeyState::Down);
    ks.release_key(Key::A);
    assert_eq!(ks.a, KeyState::Released);
    ks.press_key(Key::Return);
    assert_eq!(ks.enter, KeyState::Pressed);
}

#[test]
fn unknown_key_maps_to_t() {
    let mut ks = KeysState::default();
    ks.press_key(Key::Other);
    assert_eq!(ks.t, KeyState::Pressed);
}

#[test]
fn as_mut_array_hands_out_fifty_seven_states() {
    let mut ks = KeysState::default();
    ks.press_key(Key::Z);
    let arr = ks.as_mut_array();
    assert_eq!(arr.len(), 57);
    assert_eq!(*arr[25], KeyState::Pressed);
    *arr[0] = KeyState::Down;
    assert_eq!(ks.a, KeyState::Down);
}

#[test]
fn copy_shortcut_needs_a_control_key() {
    let mut ks = KeysState::default();
    ks.press_key(Key::C);
    assert!(!ks.shortcut_pressed(&Shortcut::COPY()));
    ks.rctrl = KeyState::Down;
    assert!(ks.shortcut_pressed(&Shortcut::COPY()));
    assert!(!ks.shortcut_pressed(&Shortcut::PASTE()));
    ks.update_all();
    assert!(!ks.shortcut_pressed(&Shortcut::COPY()));
}

#[test]
fn shortcut_with_two_groups() {
    let sc = Shortcut::new(vec![vec![Key::LCtrl, Key::RCtrl], vec![Key::LShift]], Key::S);
    let mut ks = KeysState::default();
    ks.press_key(Key::S);
    ks.lctrl = KeyState::Down;
    assert!(!ks.shortcut_pressed(&sc));
    ks.lshift = KeyState::Down;
    assert!(ks.shortcut_pressed(&sc));
}

#[test]
fn mouse_events_update_the_mouse() {
    let mut m = Mouse::default();
    m.get_event(MouseEvent::Motion { x: 10, y: 20, xrel: 3, yrel: -4 });
    assert_eq!((m.x, m.y, m.delta_x, m.delta_y), (10, 20, 3, -4));
    assert!(m.moved());
    m.get_event(MouseEvent::ButtonDown(MouseButton::Left));
    assert_eq!(m.left_button, KeyState::Pressed);
    m.get_event(MouseEvent::Wheel { y: 2 });
    assert_eq!(m.wheel, 2);
    m.update();
    assert_eq!(m.left_button, KeyState::Down);
    assert_eq!((m.delta_x, m.delta_y, m.wheel), (0, 0, 0));
    assert!(!m.moved());
    assert_eq!((m.x, m.y), (10, 20));
    m.get_event(MouseEvent::ButtonUp(MouseButton::Left));
    assert_eq!(m.left_button, KeyState::Released);
    m.get_event(MouseEvent::ButtonDown(MouseButton::Right));
    assert_eq!(m.right_button, KeyState::Pressed);
    m.get_event(MouseEvent::ButtonUp(MouseButton::Middle));
    assert_eq!(m.middle_button, KeyState::Released);
}

#[test]
fn input_frame_records_events() {
    let mut input = Input::new();
    assert!(!input.window_closed);
    input.handle_event(InputEvent::TextInput(vec!['é']));
    assert_eq!(input.last_char, Some('é'));
    input.handle_event(InputEvent::KeyDown(Some(Key::Left)));
    assert_eq!(input.keys_state.left, KeyState::Pressed);
    input.handle_event(InputEvent::WindowSizeChanged { width: 800, height: 600 });
    assert_eq!(input.window_resized, Some((800, 600)));
    input.handle_event(InputEvent::Mouse(MouseEvent::ButtonDown(MouseButton::Left)));
    assert_eq!(input.mouse.left_button, KeyState::Pressed);
    input.begin_frame();
    assert_eq!(input.last_char, None);
    assert_eq!(input.window_resized, None);
    assert_eq!(input.keys_state.left, KeyState::Down);
    assert_eq!(input.mouse.left_button, KeyState::Down);
    input.handle_event(InputEvent::KeyUp(Some(Key::Left)));
    assert_eq!(input.keys_state.left, KeyState::Released);
    input.handle_event(InputEvent::Quit);
    assert!(input.window_closed);
}

#[test]
fn input_shortcut_pressed() {
    let mut input = Input::new();
    input.handle_event(InputEvent::KeyDown(Some(Key::LCtrl)));
    input.begin_frame();
    input.handle_event(InputEvent::KeyDown(Some(Key::V)));
    assert!(input.shortcut_pressed(&Shortcut::PASTE()));
    assert!(!input.shortcut_pressed(&Shortcut::CUT()));
}
