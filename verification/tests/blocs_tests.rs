use benday::front::{adding_bloc_step, MenuOutcome};
use benday::keys_state::{Key, Shortcut};
use benday::blocs::{get_recursive_childs, get_recursive_widget_childs, BlocParts, connection_effects, set_parent_and_child, WidgetEffect, BlocContainer, BlocType, Container, Sequence, Slot, BLOC_NAMES};
use benday::front::{
    animation_index, bloc_gesture, forget_blocs, step_animation_timer, topmost_container, BlocGesture, ANIM_TIME,
};
use benday::key_state::KeyState;
use benday::select::{Select, SelectElement};
use benday::keys_state::KeysState;
use benday::input::Input;

fn seq_container(bloc_id: u32, place: usize) -> Container {
    Container { bloc_id, bloc_container: BlocContainer::Sequence { nth_sequence: 0, place } }
}

#[test]
fn bloc_types_from_menu_names() {
    assert_eq!(BlocType::from_string("Variable assignment".to_string()), Some(BlocType::VariableAssignment));
    assert_eq!(BlocType::from_string("If else".to_string()), Some(BlocType::IfElse));
    assert_eq!(BlocType::from_string("Function call".to_string()), Some(BlocType::FunctionCall));
    assert_eq!(BlocType::from_string("Sequence".to_string()), Some(BlocType::Sequence));
    assert_eq!(BlocType::from_string("While".to_string()), None);
    assert_eq!(BlocType::from_string("sequence".to_string()), None);
    assert_eq!(BLOC_NAMES.len(), 5);
}

/// A bloc with one slot and one sequence, and room for `n` blocs.
fn parent_bloc(n: usize) -> (Vec<Option<Container>>, Vec<Slot>, Vec<Sequence>) {
    (vec![None; n], vec![Slot::new(100)], vec![Sequence::new()])
}

fn childs(sequences: &[Sequence]) -> Vec<u32> {
    sequences[0].get_childs_ids().clone()
}

#[test]
fn attaching_in_a_sequence_shifts_the_blocs_below() {
    let (mut parents, mut slots, mut sequences) = parent_bloc(5);
    set_parent_and_child(&mut parents, &mut slots, &mut sequences, seq_container(0, 0), 2, true);
    set_parent_and_child(&mut parents, &mut slots, &mut sequences, seq_container(0, 1), 3, true);
    set_parent_and_child(&mut parents, &mut slots, &mut sequences, seq_container(0, 0), 4, true);
    assert_eq!(childs(&sequences), vec![4, 2, 3]);
    assert_eq!(parents[4], Some(seq_container(0, 0)));
    assert_eq!(parents[2], Some(seq_container(0, 1)));
    assert_eq!(parents[3], Some(seq_container(0, 2)));
    assert_eq!(parents[1], None);
}

#[test]
fn detaching_undoes_attaching() {
    let (mut parents, mut slots, mut sequences) = parent_bloc(4);
    set_parent_and_child(&mut parents, &mut slots, &mut sequences, seq_container(0, 0), 1, true);
    set_parent_and_child(&mut parents, &mut slots, &mut sequences, seq_container(0, 1), 2, true);
    let before = (parents.clone(), childs(&sequences));
    set_parent_and_child(&mut parents, &mut slots, &mut sequences, seq_container(0, 1), 3, true);
    assert_eq!(childs(&sequences), vec![1, 3, 2]);
    set_parent_and_child(&mut parents, &mut slots, &mut sequences, seq_container(0, 1), 3, false);
    assert_eq!((parents, childs(&sequences)), before);
}

#[test]
fn detaching_the_first_bloc_moves_the_others_up() {
    let (mut parents, mut slots, mut sequences) = parent_bloc(4);
    for (place, id) in [(0usize, 1u32), (1, 2), (2, 3)] {
        set_parent_and_child(&mut parents, &mut slots, &mut sequences, seq_container(0, place), id, true);
    }
    set_parent_and_child(&mut parents, &mut slots, &mut sequences, seq_container(0, 0), 1, false);
    assert_eq!(childs(&sequences), vec![2, 3]);
    assert_eq!(parents[1], None);
    assert_eq!(parents[2], Some(seq_container(0, 0)));
    assert_eq!(parents[3], Some(seq_container(0, 1)));
}

#[test]
fn slots_hold_one_bloc() {
    let (mut parents, mut slots, mut sequences) = parent_bloc(3);
    assert_eq!(slots[0].get_id(), 100);
    assert!(!slots[0].has_child());
    let c = Container { bloc_id: 0, bloc_container: BlocContainer::Slot { nth_slot: 0 } };
    set_parent_and_child(&mut parents, &mut slots, &mut sequences, c, 2, true);
    assert!(slots[0].has_child());
    assert_eq!(slots[0].get_id(), 2);
    assert_eq!(slots[0].get_text_input_id(), 100);
    assert_eq!(parents[2], Some(c));
    set_parent_and_child(&mut parents, &mut slots, &mut sequences, c, 2, false);
    assert!(!slots[0].has_child());
    assert_eq!(slots[0].get_id(), 100);
    assert_eq!(parents[2], None);
    assert!(childs(&sequences).is_empty());
}

#[test]
fn slot_child_can_be_set_directly() {
    let mut slot = Slot::new(7);
    slot.set_child(Some(9));
    assert_eq!(slot.get_id(), 9);
    slot.set_child(None);
    assert_eq!(slot.get_id(), 7);
}

#[test]
fn timer_moves_towards_its_target() {
    assert_eq!(step_animation_timer(0, ANIM_TIME, 100), (100, true));
    assert_eq!(step_animation_timer(ANIM_TIME - 50, ANIM_TIME, 100), (ANIM_TIME, true));
    assert_eq!(step_animation_timer(ANIM_TIME, ANIM_TIME, 100), (ANIM_TIME, false));
    assert_eq!(step_animation_timer(2 * ANIM_TIME, ANIM_TIME, 100), (2 * ANIM_TIME - 100, true));
    assert_eq!(step_animation_timer(0, 10 * ANIM_TIME, 5), (7 * ANIM_TIME + 5, true));
    assert_eq!(step_animation_timer(10 * ANIM_TIME, 0, 5), (3 * ANIM_TIME - 5, true));
    assert_eq!(step_animation_timer(ANIM_TIME + 3, ANIM_TIME, 100), (ANIM_TIME, true));
}

#[test]
fn animation_steps() {
    assert_eq!(animation_index(0), 0);
    assert_eq!(animation_index(1), 0);
    assert_eq!(animation_index(ANIM_TIME), 0);
    assert_eq!(animation_index(ANIM_TIME + 1), 1);
    assert_eq!(animation_index(3 * ANIM_TIME), 2);
}

#[test]
fn gestures() {
    let c = seq_container(0, 1);
    let h = seq_container(5, 0);
    assert_eq!(bloc_gesture(KeyState::Pressed, Some(c.clone()), None, false), BlocGesture::Detach(c.clone()));
    assert_eq!(bloc_gesture(KeyState::Pressed, None, Some(h.clone()), true), BlocGesture::Nothing);
    assert_eq!(bloc_gesture(KeyState::Released, Some(c.clone()), Some(h.clone()), false), BlocGesture::Attach(h));
    assert_eq!(bloc_gesture(KeyState::Released, None, None, false), BlocGesture::Destroy);
    assert_eq!(bloc_gesture(KeyState::Down, None, None, true), BlocGesture::TrackHover);
    assert_eq!(bloc_gesture(KeyState::Down, None, None, false), BlocGesture::Nothing);
    assert_eq!(bloc_gesture(KeyState::Up, Some(c), None, true), BlocGesture::Nothing);
}

#[test]
fn topmost_bloc_container_wins() {
    let order = vec![0, 1, 2, 3];
    let blocs = vec![0, 1, 3];
    let a = seq_container(1, 0);
    let b = seq_container(2, 0);
    let hits = vec![None, Some(a.clone()), Some(b), None];
    assert_eq!(topmost_container(&order, &blocs, &hits), Some(a));
    assert_eq!(topmost_container(&order, &blocs, &vec![None, None, None, None]), None);
}

#[test]
fn forgetting_removed_blocs() {
    let mut blocs = vec![1, 4, 6, 9];
    forget_blocs(&mut blocs, &vec![6, 7, 1]);
    assert_eq!(blocs, vec![4, 9]);
}

fn chars(s: &str) -> Vec<char> {
    s.chars().collect()
}

fn frame(s: &mut Select, keys: fn(&mut KeysState), left: KeyState, hovered: Option<SelectElement>) -> bool {
    let mut input = Input::new();
    keys(&mut input.keys_state);
    input.mouse.left_button = left;
    s.update(&input, hovered, 0, 0, 0, None).changed
}

#[test]
fn select_arrows_wrap_and_enter_shows_option() {
    let mut s = Select::new(vec![chars("one"), chars("two"), chars("three")], "Name".to_string(), 0);
    assert_eq!(s.get_selected_option(), None);
    let ks: fn(&mut KeysState) = |k| k.up = KeyState::Pressed;
    assert!(frame(&mut s, ks, KeyState::Up, None));
    assert_eq!(s.get_selected_option(), Some(0));
    assert_eq!(s.get_base().get_state(), KeyState::Pressed);
    frame(&mut s, ks, KeyState::Up, None);
    assert_eq!(s.get_selected_option(), Some(2));
    let down: fn(&mut KeysState) = |k| k.down = KeyState::Pressed;
    frame(&mut s, down, KeyState::Up, None);
    assert_eq!(s.get_selected_option(), Some(0));
    let enter: fn(&mut KeysState) = |k| k.enter = KeyState::Pressed;
    frame(&mut s, enter, KeyState::Up, None);
    assert_eq!(s.get_option(), &chars("one"));
}

#[test]
fn select_click_on_option() {
    let mut s = Select::new(vec![chars("a"), chars("b")], String::new(), 0);
    let ks: fn(&mut KeysState) = |_| {};
    let changed = frame(&mut s, ks, KeyState::Up, Some(SelectElement::Options { option_index: 1 }));
    assert!(changed);
    frame(&mut s, ks, KeyState::Pressed, None);
    assert_eq!(s.get_selected_option(), Some(1));
    assert_eq!(s.get_option(), &chars("b"));
    assert!(!s.is_on_text_input());
    frame(&mut s, ks, KeyState::Released, None);
    assert!(s.is_on_text_input());
    frame(&mut s, ks, KeyState::Pressed, Some(SelectElement::TextInput));
    assert_eq!(s.get_selected_option(), None);
    frame(&mut s, ks, KeyState::Pressed, Some(SelectElement::Slider));
    assert!(s.is_on_slider());
    frame(&mut s, ks, KeyState::Released, None);
    assert!(!s.is_on_slider());
}

#[test]
fn select_text_input_takes_typing_once_released() {
    let mut s = Select::new(vec![chars("a")], String::new(), 0);
    let mut input = Input::new();
    input.last_char = Some('x');
    let r = s.update(&input, None, 0, 0, 0, None);
    assert!(!r.changed);
    assert!(s.get_option().is_empty());
    frame(&mut s, |_| {}, KeyState::Released, None);
    let r = s.update(&input, None, 0, 0, 7, None);
    assert!(r.changed);
    assert_eq!(s.get_option(), &chars("x"));
    assert_eq!(s.get_text_input().get_carrot_position(), 1);
}

#[test]
fn bloc_kinds_have_their_parts() {
    assert_eq!(BlocType::VariableAssignment.parts(), (1, 0));
    assert_eq!(BlocType::IfElse.parts(), (1, 2));
    assert_eq!(BlocType::FunctionCall.parts(), (5, 0));
    assert_eq!(BlocType::Sequence.parts(), (0, 1));
}

#[test]
fn menu_closes_when_it_loses_the_focus() {
    assert_eq!(adding_bloc_step(true, "If else".to_string()), MenuOutcome::Stay);
    assert_eq!(adding_bloc_step(false, "If else".to_string()), MenuOutcome::Create(BlocType::IfElse));
    assert_eq!(adding_bloc_step(false, "While".to_string()), MenuOutcome::Close);
    assert_eq!(adding_bloc_step(false, String::new()), MenuOutcome::Close);
}

#[test]
fn shortcut_built_with_new_can_be_checked() {
    let sc = Shortcut::new(vec![vec![Key::LAlt]], Key::Q);
    let mut ks = KeysState::default();
    ks.q = KeyState::Pressed;
    ks.lalt = KeyState::Down;
    assert!(ks.shortcut_pressed(&sc));
}

#[test]
fn slot_connection_hides_its_text_input() {
    let slots = vec![Slot::new(100)];
    let c = Container { bloc_id: 0, bloc_container: BlocContainer::Slot { nth_slot: 0 } };
    let lifted = vec![7, 8, 0];
    assert_eq!(
        connection_effects(c, &slots, true, &lifted),
        vec![WidgetEffect::Hide(100), WidgetEffect::PutOnTop(0), WidgetEffect::PutOnTop(8), WidgetEffect::PutOnTop(7)]
    );
    assert_eq!(
        connection_effects(c, &slots, false, &vec![5]),
        vec![WidgetEffect::Show(100), WidgetEffect::PutOnTop(100), WidgetEffect::PutOnTop(5)]
    );
}

#[test]
fn sequence_connection_lifts_only_when_connecting() {
    let c = seq_container(0, 0);
    assert_eq!(connection_effects(c, &vec![], true, &vec![1, 2]), vec![WidgetEffect::PutOnTop(2), WidgetEffect::PutOnTop(1)]);
    assert_eq!(connection_effects(c, &vec![], false, &vec![1, 2]), vec![]);
}

#[test]
fn select_keeps_its_placeholder() {
    let s = Select::new(vec![chars("a")], "Name".to_string(), 0);
    assert_eq!(s.get_text_input().get_placeholder(), "Name");
}

#[test]
fn select_without_options_chooses_nothing_to_show() {
    let mut s = Select::new(vec![], String::new(), 0);
    assert!(!frame(&mut s, |_| {}, KeyState::Up, None));
    frame(&mut s, |k| k.up = KeyState::Pressed, KeyState::Up, None);
    assert_eq!(s.get_selected_option(), Some(0));
}

#[test]
fn dragging_the_slider_is_a_change() {
    let mut s = Select::new(vec![chars("a"), chars("b")], String::new(), 0);
    frame(&mut s, |_| {}, KeyState::Pressed, Some(SelectElement::Slider));
    assert!(s.is_on_slider());
    let mut input = Input::new();
    input.mouse.left_button = KeyState::Down;
    input.mouse.delta_y = 3;
    assert!(s.update(&input, None, 0, 0, 0, None).changed);
    input.mouse.delta_y = 0;
    input.mouse.delta_x = 3;
    assert!(!s.update(&input, None, 0, 0, 0, None).changed);
}

/// Bloc 0 holds bloc 1 in its slot (text input 10) and blocs 2 and 3 in its
/// sequence; bloc 2 has an empty slot (text input 11) and a widget 12.
fn small_tree() -> Vec<Option<BlocParts>> {
    let mut parents: Vec<Option<Container>> = vec![None; 4];
    let mut slots0 = vec![Slot::new(10)];
    let mut seqs0 = vec![Sequence::new()];
    let slot = Container { bloc_id: 0, bloc_container: BlocContainer::Slot { nth_slot: 0 } };
    set_parent_and_child(&mut parents, &mut slots0, &mut seqs0, slot, 1, true);
    set_parent_and_child(&mut parents, &mut slots0, &mut seqs0, seq_container(0, 0), 2, true);
    set_parent_and_child(&mut parents, &mut slots0, &mut seqs0, seq_container(0, 1), 3, true);
    vec![
        Some(BlocParts { slots: slots0, sequences: seqs0, widgets: vec![] }),
        Some(BlocParts { slots: vec![], sequences: vec![], widgets: vec![] }),
        Some(BlocParts { slots: vec![Slot::new(11)], sequences: vec![], widgets: vec![12] }),
        None,
    ]
}

#[test]
fn recursive_childs_go_from_leaf_to_root() {
    let blocs = small_tree();
    assert_eq!(get_recursive_childs(&blocs, 0), vec![1, 2, 3, 0]);
    assert_eq!(get_recursive_childs(&blocs, 2), vec![2]);
}

#[test]
fn recursive_widget_childs_list_slots_and_widgets() {
    let blocs = small_tree();
    assert_eq!(get_recursive_widget_childs(&blocs, 0), vec![1, 3, 11, 12, 2, 0]);
    assert_eq!(get_recursive_widget_childs(&blocs, 2), vec![11, 12, 2]);
}
