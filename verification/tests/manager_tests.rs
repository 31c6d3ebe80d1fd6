use benday::input::Input;
use benday::key_state::KeyState;
use benday::manager::{Command, Manager, WidgetEvent};
use benday::widgets::{contains_id, find_id, Base};

fn manager_with(n: u32, has_camera: bool) -> Manager {
    let mut m = Manager::new();
    for _ in 0..n {
        m.add_widget(Base::new(false), has_camera);
    }
    m
}

#[test]
fn new_manager_is_empty() {
    let m = Manager::new();
    assert!(!m.has_widget(0));
    assert!(m.get_cam_order().is_empty());
    assert!(m.get_no_cam_order().is_empty());
    assert_eq!(m.focused_widget(), None);
    assert_eq!(m.hovered_widget(), None);
}

#[test]
fn add_widget_gives_consecutive_ids() {
    let mut m = Manager::new();
    let a = m.add_widget(Base::new(false), true);
    let b = m.add_widget(Base::new(true), false);
    assert_eq!((a, b), (0, 1));
    assert_eq!(m.last_id(), 1);
    assert!(m.has_widget(0) && m.has_widget(1) && !m.has_widget(2));
    assert_eq!(m.get_widget(1).get_id(), 1);
    assert_eq!(m.get_cam_order(), &vec![0]);
    assert_eq!(m.get_no_cam_order(), &vec![1]);
    assert!(m.widget_has_no_camera(1));
    assert!(!m.widget_has_no_camera(0));
}

#[test]
fn focus_moves_and_reports_events() {
    let mut m = manager_with(3, true);
    let e = m.focus_widget(0);
    assert_eq!(e, vec![WidgetEvent::Focus(0)]);
    assert!(m.get_widget(0).is_focused());
    let e = m.focus_widget(2);
    assert_eq!(e, vec![WidgetEvent::Unfocus(0), WidgetEvent::Focus(2)]);
    assert!(!m.get_widget(0).is_focused());
    assert!(m.get_widget(2).is_focused());
    assert_eq!(m.focused_widget(), Some(2));
    let e = m.update_focused_widget(None);
    assert_eq!(e, vec![WidgetEvent::Unfocus(2)]);
    assert_eq!(m.focused_widget(), None);
}

#[test]
fn focusing_a_child_keeps_the_parent_focused() {
    let mut m = Manager::new();
    let parent = m.add_widget(Base::new(false), true);
    let mut child_base = Base::new(false);
    child_base.set_parent_id(Some(parent));
    let child = m.add_widget(child_base, true);
    m.focus_widget(parent);
    let e = m.focus_widget(child);
    assert_eq!(e, vec![WidgetEvent::Focus(child), WidgetEvent::Focus(parent)]);
    assert!(m.get_widget(parent).is_focused());
    assert!(m.get_widget(child).is_focused());
}

#[test]
fn hover_moves() {
    let mut m = manager_with(2, false);
    let e = m.update_hovered_widget(Some(1));
    assert_eq!(e, vec![WidgetEvent::Hover(1)]);
    assert!(m.get_widget(1).is_hovered());
    assert_eq!(m.hovered_widget(), Some(1));
}

#[test]
fn put_on_top_moves_to_the_end() {
    let mut m = manager_with(3, true);
    m.put_on_top_cam(0);
    assert_eq!(m.get_cam_order(), &vec![1, 2, 0]);
    let mut n = manager_with(2, false);
    n.put_on_top_no_cam(0);
    assert_eq!(n.get_no_cam_order(), &vec![1, 0]);
}

#[test]
fn removed_widget_is_gone() {
    let mut m = manager_with(3, true);
    m.focus_widget(1);
    m.update_hovered_widget(Some(1));
    m.remove_widget(1);
    assert!(!m.has_widget(1));
    assert_eq!(m.get_cam_order(), &vec![0, 2]);
    assert_eq!(m.focused_widget(), None);
    assert_eq!(m.hovered_widget(), None);
    assert_eq!(m.last_id(), 2);
}

#[test]
fn click_focuses_the_hovered_widget() {
    let mut m = manager_with(2, false);
    let mut input = Input::new();
    input.mouse.delta_x = 1;
    let r = m.update(&input, &vec![1], &vec![]);
    assert!(r.changed);
    assert_eq!(m.hovered_widget(), Some(1));
    assert_eq!(r.events, vec![WidgetEvent::Hover(1)]);
    let mut click = Input::new();
    click.mouse.left_button = KeyState::Pressed;
    let r = m.update(&click, &vec![], &vec![]);
    assert_eq!(m.focused_widget(), Some(1));
    assert_eq!(r.events, vec![WidgetEvent::Focus(1)]);
}

#[test]
fn topmost_fixed_widget_wins_the_hover() {
    let mut m = Manager::new();
    let cam = m.add_widget(Base::new(false), true);
    let fixed = m.add_widget(Base::new(false), false);
    let mut input = Input::new();
    input.mouse.delta_y = 2;
    m.update(&input, &vec![fixed], &vec![cam]);
    assert_eq!(m.hovered_widget(), Some(fixed));
    m.get_widget(fixed);
}

#[test]
fn tab_cycles_and_escape_drops_focus() {
    let mut m = manager_with(3, true);
    m.focus_widget(2);
    let mut tab = Input::new();
    tab.keys_state.tab = KeyState::Pressed;
    m.update(&tab, &vec![], &vec![]);
    assert_eq!(m.focused_widget(), Some(0));
    let mut back = Input::new();
    back.keys_state.tab = KeyState::Pressed;
    back.keys_state.lshift = KeyState::Down;
    m.update(&back, &vec![], &vec![]);
    assert_eq!(m.focused_widget(), Some(2));
    let mut esc = Input::new();
    esc.keys_state.escape = KeyState::Pressed;
    let r = m.update(&esc, &vec![], &vec![]);
    assert!(r.changed);
    assert_eq!(m.focused_widget(), None);
}

#[test]
fn commands_run_in_order() {
    let mut m = manager_with(3, true);
    m.focus_widget(0);
    m.push_command(Command::PutOnTopCam { id: 0 });
    m.push_command(Command::UnfocusWidget);
    let e = m.run_commands();
    assert_eq!(e, vec![WidgetEvent::Unfocus(0)]);
    assert_eq!(m.get_cam_order(), &vec![1, 2, 0]);
    assert_eq!(m.focused_widget(), None);
    m.clear_commands();
}

#[test]
fn scroll_goes_to_focused_hovered_scrolling_widget() {
    let mut m = Manager::new();
    let w = m.add_widget(Base::new(true), false);
    assert!(!m.focused_takes_scroll());
    m.focus_widget(w);
    m.update_hovered_widget(Some(w));
    assert!(m.focused_takes_scroll());
}

#[test]
fn id_search_helpers() {
    let ids = vec![4, 7, 9];
    assert!(contains_id(&ids, 7));
    assert!(!contains_id(&ids, 5));
    assert_eq!(find_id(&ids, 9), Some(2));
    assert_eq!(find_id(&ids, 1), None);
}

#[test]
fn base_press_cycle() {
    let mut b = Base::new(false);
    let mut input = Input::new();
    input.mouse.left_button = KeyState::Pressed;
    assert!(b.update(&input, vec![]));
    assert!(b.is_pushed());
    input.mouse.left_button = KeyState::Down;
    assert!(!b.update(&input, vec![]));
    assert_eq!(b.get_state(), KeyState::Down);
    input.mouse.left_button = KeyState::Up;
    assert!(b.update(&input, vec![KeyState::Released]));
    assert_eq!(b.get_state(), KeyState::Released);
    b.set_invisible();
    assert!(!b.is_visible());
    b.set_visible();
    assert!(b.is_visible());
}

#[test]
fn widgets_can_be_hidden_and_shown() {
    let mut m = manager_with(2, true);
    m.set_widget_visible(1, false);
    assert!(!m.get_widget(1).is_visible());
    assert!(m.get_widget(0).is_visible());
    m.set_widget_visible(1, true);
    assert!(m.get_widget(1).is_visible());
}
