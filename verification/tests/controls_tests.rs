use benday::controls::{Button, Switch};
use benday::input::Input;
use benday::key_state::KeyState;
use benday::widgets::Base;

#[test]
fn button_is_pushed_by_click_or_enter() {
    let mut b = Button::new(Base::new(false), "i".to_string());
    assert_eq!(b.get_text(), "i");
    let mut input = Input::new();
    input.keys_state.enter = KeyState::Pressed;
    assert!(b.update(&input));
    assert!(b.is_pressed());
    let idle = Input::new();
    assert!(!b.update(&idle));
    assert!(!b.is_pressed());
    assert_eq!(b.get_base().get_state(), KeyState::Down);
    b.set_text("c".to_string());
    assert_eq!(b.get_text(), "c");
}

#[test]
fn switch_flips_when_let_go() {
    let mut s = Switch::new(Base::new(false));
    assert!(!s.is_switched());
    let mut click = Input::new();
    click.mouse.left_button = KeyState::Pressed;
    s.update(&click);
    assert!(!s.is_switched());
    let mut release = Input::new();
    release.mouse.left_button = KeyState::Released;
    assert!(s.update(&release));
    assert!(s.is_switched());
    s.update(&Input::new());
    assert!(s.is_switched());
    s.update(&click);
    s.update(&release);
    assert!(!s.is_switched());
    s.set_switched(true);
    assert!(s.is_switched());
}
