use benday::input::Input;
use benday::key_state::KeyState;
use benday::text_input::{get_word_position, CharType, TextInput, BLINKING_TIME, DOUBLE_CLICK_TIME};
use benday::widgets::Base;

fn chars(s: &str) -> Vec<char> {
    s.chars().collect()
}

fn text_of(t: &TextInput) -> String {
    t.get_text().iter().collect()
}

fn input_with(f: impl Fn(&mut Input)) -> Input {
    let mut input = Input::new();
    f(&mut input);
    input
}

fn frame(t: &mut TextInput, input: &Input, mouse: usize, clipboard: Option<Vec<char>>) -> (bool, Option<Vec<char>>) {
    let mut base = Base::new(false);
    let r = t.update(&mut base, input, 0, 1_000_000_000, mouse, clipboard);
    (r.changed, r.clipboard)
}

#[test]
fn char_types() {
    assert_eq!(CharType::from_char('a'), CharType::AlphaNum);
    assert_eq!(CharType::from_char('7'), CharType::AlphaNum);
    assert_eq!(CharType::from_char('é'), CharType::AlphaNum);
    assert_eq!(CharType::from_char(' '), CharType::Space);
    assert_eq!(CharType::from_char('\t'), CharType::Space);
    assert_eq!(CharType::from_char('-'), CharType::Other);
}

#[test]
fn word_positions() {
    let text = chars("hello world");
    assert_eq!(get_word_position(&text, 2), (0, 5));
    assert_eq!(get_word_position(&text, 8), (6, 11));
    assert_eq!(get_word_position(&text, 5), (5, 6));
    assert_eq!(get_word_position(&text, 40), (6, 11));
    assert_eq!(get_word_position(&Vec::new(), 3), (0, 0));
    // The first character is never examined on the way back.
    let text = chars("a+b");
    assert_eq!(get_word_position(&text, 1), (0, 2));
    let text = chars("ab+c");
    assert_eq!(get_word_position(&text, 2), (2, 3));
}

#[test]
fn new_input_is_empty() {
    let t = TextInput::new("name".to_string(), 0);
    assert!(t.get_text().is_empty());
    assert_eq!(t.get_placeholder(), "name");
    assert_eq!(t.get_carrot_position(), 0);
    assert_eq!(t.get_selection(), None);
    assert!(t.is_carrot_visible());
}

#[test]
fn set_text_moves_carrot_to_end() {
    let mut t = TextInput::new(String::new(), 0);
    t.set_text(chars("abc"));
    assert_eq!(text_of(&t), "abc");
    assert_eq!(t.get_carrot_position(), 3);
    assert_eq!(t.get_selection(), None);
}

#[test]
fn typing_inserts_at_carrot() {
    let mut t = TextInput::new(String::new(), 0);
    t.set_text(chars("ac"));
    let input = input_with(|i| {
        i.keys_state.left = KeyState::Pressed;
    });
    let (changed, _) = frame(&mut t, &input, 0, None);
    assert!(changed);
    assert_eq!(t.get_carrot_position(), 1);
    let input = input_with(|i| i.last_char = Some('b'));
    frame(&mut t, &input, 0, None);
    assert_eq!(text_of(&t), "abc");
    assert_eq!(t.get_carrot_position(), 2);
}

#[test]
fn type_then_backspace_restores() {
    let mut t = TextInput::new(String::new(), 0);
    t.set_text(chars("xy"));
    let input = input_with(|i| i.last_char = Some('z'));
    frame(&mut t, &input, 0, None);
    assert_eq!(text_of(&t), "xyz");
    let input = input_with(|i| i.keys_state.backspace = KeyState::Pressed);
    frame(&mut t, &input, 0, None);
    assert_eq!(text_of(&t), "xy");
    assert_eq!(t.get_carrot_position(), 2);
}

#[test]
fn ctrl_backspace_removes_a_word() {
    let mut t = TextInput::new(String::new(), 0);
    t.set_text(chars("hello world"));
    let input = input_with(|i| {
        i.keys_state.backspace = KeyState::Pressed;
        i.keys_state.lctrl = KeyState::Down;
    });
    frame(&mut t, &input, 0, None);
    assert_eq!(text_of(&t), "hello ");
    assert_eq!(t.get_carrot_position(), 6);
}

#[test]
fn delete_removes_after_carrot() {
    let mut t = TextInput::new(String::new(), 0);
    t.set_text(chars("abc"));
    let input = input_with(|i| i.keys_state.left = KeyState::Pressed);
    frame(&mut t, &input, 0, None);
    frame(&mut t, &input, 0, None);
    assert_eq!(t.get_carrot_position(), 1);
    let input = input_with(|i| i.keys_state.delete = KeyState::Pressed);
    frame(&mut t, &input, 0, None);
    assert_eq!(text_of(&t), "ac");
    assert_eq!(t.get_carrot_position(), 1);
}

#[test]
fn shift_arrows_select_and_typing_replaces_selection() {
    let mut t = TextInput::new(String::new(), 0);
    t.set_text(chars("abcd"));
    let input = input_with(|i| {
        i.keys_state.left = KeyState::Pressed;
        i.keys_state.lshift = KeyState::Down;
    });
    frame(&mut t, &input, 0, None);
    frame(&mut t, &input, 0, None);
    assert_eq!(t.get_selection(), Some((2, 4)));
    assert_eq!(t.get_carrot_position(), 2);
    let input = input_with(|i| i.last_char = Some('X'));
    frame(&mut t, &input, 0, None);
    assert_eq!(text_of(&t), "abX");
    assert_eq!(t.get_selection(), None);
}

#[test]
fn cut_then_paste_restores_text() {
    let mut t = TextInput::new(String::new(), 0);
    t.set_text(chars("abcd"));
    let select = input_with(|i| {
        i.keys_state.left = KeyState::Pressed;
        i.keys_state.lshift = KeyState::Down;
    });
    frame(&mut t, &select, 0, None);
    let cut = input_with(|i| {
        i.keys_state.x = KeyState::Pressed;
        i.keys_state.lctrl = KeyState::Down;
    });
    let (changed, clipboard) = frame(&mut t, &cut, 0, None);
    assert!(changed);
    assert_eq!(clipboard, Some(vec!['d']));
    assert_eq!(text_of(&t), "abc");
    let paste = input_with(|i| {
        i.keys_state.v = KeyState::Pressed;
        i.keys_state.rctrl = KeyState::Down;
    });
    let (_, clipboard2) = frame(&mut t, &paste, 0, clipboard);
    assert_eq!(clipboard2, None);
    assert_eq!(text_of(&t), "abcd");
    assert_eq!(t.get_carrot_position(), 4);
}

#[test]
fn cut_without_selection_takes_everything() {
    let mut t = TextInput::new(String::new(), 0);
    t.set_text(chars("abc"));
    let cut = input_with(|i| {
        i.keys_state.x = KeyState::Pressed;
        i.keys_state.lctrl = KeyState::Down;
    });
    let (_, clipboard) = frame(&mut t, &cut, 0, None);
    assert_eq!(clipboard, Some(chars("abc")));
    assert!(t.get_text().is_empty());
    assert_eq!(t.get_carrot_position(), 0);
}

#[test]
fn copy_keeps_text() {
    let mut t = TextInput::new(String::new(), 0);
    t.set_text(chars("abc"));
    let copy = input_with(|i| {
        i.keys_state.c = KeyState::Pressed;
        i.keys_state.lctrl = KeyState::Down;
    });
    let (changed, clipboard) = frame(&mut t, &copy, 0, None);
    assert!(changed);
    assert_eq!(clipboard, Some(chars("abc")));
    assert_eq!(text_of(&t), "abc");
}

#[test]
fn ctrl_arrows_jump_words() {
    let mut t = TextInput::new(String::new(), 0);
    t.set_text(chars("one two"));
    let input = input_with(|i| {
        i.keys_state.left = KeyState::Pressed;
        i.keys_state.lctrl = KeyState::Down;
    });
    frame(&mut t, &input, 0, None);
    assert_eq!(t.get_carrot_position(), 4);
    let input = input_with(|i| {
        i.keys_state.right = KeyState::Pressed;
        i.keys_state.lctrl = KeyState::Down;
    });
    frame(&mut t, &input, 0, None);
    assert_eq!(t.get_carrot_position(), 7);
}

#[test]
fn double_and_triple_click_select_word_then_all() {
    let mut t = TextInput::new(String::new(), 0);
    t.set_text(chars("one two"));
    let click = input_with(|i| i.mouse.left_button = KeyState::Pressed);
    let mut base = Base::new(false);
    t.update(&mut base, &click, 0, 1_000_000_000, 5, None);
    assert_eq!(t.get_carrot_position(), 5);
    assert_eq!(t.get_selection(), None);
    t.update(&mut base, &click, 0, 1_000_000_000 + DOUBLE_CLICK_TIME / 2, 5, None);
    assert_eq!(t.get_selection(), Some((4, 7)));
    t.update(&mut base, &click, 0, 1_000_000_000 + DOUBLE_CLICK_TIME, 5, None);
    assert_eq!(t.get_selection(), Some((0, 7)));
}

#[test]
fn carrot_blinks() {
    let mut t = TextInput::new(String::new(), 0);
    let input = Input::new();
    let mut base = Base::new(false);
    let r = t.update(&mut base, &input, BLINKING_TIME + 1, 0, 0, None);
    assert!(r.changed);
    assert!(!t.is_carrot_visible());
    let r = t.update(&mut base, &input, BLINKING_TIME, 0, 0, None);
    assert!(r.changed);
    assert!(t.is_carrot_visible());
}
