use vstd::prelude::*;
use crate::blocs::{bloc_type_of_name, BlocType, Container};
use crate::key_state::KeyState;
use crate::widgets::{contains_id, find_id, WidgetId};

verus! {

/// How long one step of a program's run is animated, in nanoseconds.
pub const ANIM_TIME: u64 = 600_000_000;

/// The animation clock after a frame of `delta`: it never lags more than
/// three steps behind (or ahead of) its target, then moves towards it by
/// `delta` without passing it.
pub open spec fn timer_step(timer: u64, target: u64, delta: u64) -> u64 {
    if timer < target {
        let t = if target - timer > 3 * ANIM_TIME { target - 3 * ANIM_TIME } else { timer as int };
        if t + delta > target { target } else { (t + delta) as u64 }
    } else if timer > target {
        let t = if timer - target > 3 * ANIM_TIME { target + 3 * ANIM_TIME } else { timer as int };
        if t < target + delta { target } else { (t - delta) as u64 }
    } else {
        timer
    }
}

/// The distance between two instants.
pub open spec fn gap(a: u64, b: u64) -> int {
    if a <= b { b - a } else { a - b }
}

/// Advances the animation clock by one frame; also says whether it moved.
pub fn step_animation_timer(timer: u64, target: u64, delta: u64) -> (r: (u64, bool))
    ensures
        r.0 == timer_step(timer, target, delta),
        r.1 == (timer != target),
{
    if timer < target {
        let mut t = timer;
        if target - t > 3 * ANIM_TIME {
            t = target - 3 * ANIM_TIME;
        }
        if target - t < delta {
            (target, true)
        } else {
            (t + delta, true)
        }
    } else if timer > target {
        let mut t = timer;
        if t - target > 3 * ANIM_TIME {
            t = target + 3 * ANIM_TIME;
        }
        if t - target < delta {
            (target, true)
        } else {
            (t - delta, true)
        }
    } else {
        (timer, false)
    }
}

/// The animation clock never passes its target, never gets farther from it,
/// ends within three steps of it, and reaches it when a frame covers the gap.
pub proof fn law_timer_approaches_target(timer: u64, target: u64, delta: u64)
    ensures
        timer <= target ==> timer_step(timer, target, delta) <= target,
        timer >= target ==> timer_step(timer, target, delta) >= target,
        gap(timer_step(timer, target, delta), target) <= gap(timer, target),
        gap(timer_step(timer, target, delta), target) <= 3 * ANIM_TIME,
        gap(timer, target) <= delta ==> timer_step(timer, target, delta) == target,
        timer != target && delta > 0 ==> gap(timer_step(timer, target, delta), target) < gap(timer, target),
{
}

/// Which step of the run the clock shows: the step whose interval
/// `(index * ANIM_TIME, (index + 1) * ANIM_TIME]` holds it, the first one
/// at the start.
pub fn animation_index(timer: u64) -> (index: u64)
    ensures
        timer == 0 ==> index == 0,
        timer > 0 ==> index * ANIM_TIME < timer <= (index + 1) * ANIM_TIME,
{
    if timer == 0 {
        0
    } else {
        let t: u64 = timer - 1;
        let index = t / ANIM_TIME;
        assert(index * ANIM_TIME <= t < (index + 1) * ANIM_TIME) by (nonlinear_arith)
            requires
                index == t / 600_000_000u64,
                ANIM_TIME == 600_000_000u64,
        ;
        index
    }
}

/// What becomes of the menu that adds a bloc.
#[derive(PartialEq, Eq, Debug, Clone, Copy, Structural)]
pub enum MenuOutcome {
    /// The menu keeps the focus: it stays open.
    Stay,
    /// The menu lost the focus on a known name: a bloc of that kind is made,
    /// and the menu closes.
    Create(BlocType),
    /// The menu lost the focus on any other text: it closes.
    Close,
}

/// The menu stays while it has the focus; once it loses it, the text it
/// shows names the bloc to make, if it names one.
pub open spec fn menu_outcome(menu_focused: bool, option: Seq<char>) -> MenuOutcome {
    if menu_focused {
        MenuOutcome::Stay
    } else {
        match bloc_type_of_name(option) {
            Some(kind) => MenuOutcome::Create(kind),
            None => MenuOutcome::Close,
        }
    }
}

pub fn adding_bloc_step(menu_focused: bool, option: String) -> (r: MenuOutcome)
    ensures
        r == menu_outcome(menu_focused, option@),
{
    if menu_focused {
        MenuOutcome::Stay
    } else {
        match BlocType::from_string(option) {
            Some(kind) => MenuOutcome::Create(kind),
            None => MenuOutcome::Close,
        }
    }
}

/// What the editor does with the focused bloc in a frame.
#[derive(PartialEq, Eq, Debug, Clone, Copy, Structural)]
pub enum BlocGesture {
    /// The bloc is grabbed: it leaves its container.
    Detach(Container),
    /// The bloc is dropped on a container: it joins it.
    Attach(Container),
    /// The bloc is dropped in the void: it is destroyed with its children.
    Destroy,
    /// The bloc is dragged: the container under it is looked for again.
    TrackHover,
    Nothing,
}

/// The gesture of a frame, from the state of the focused bloc, its container,
/// the container under it and whether the mouse moved.
pub open spec fn gesture(
    state: KeyState,
    parent: Option<Container>,
    hovered: Option<Container>,
    mouse_moved: bool,
) -> BlocGesture {
    if state == KeyState::Pressed {
        match parent {
            Some(c) => BlocGesture::Detach(c),
            None => BlocGesture::Nothing,
        }
    } else if state == KeyState::Released {
        match hovered {
            Some(c) => BlocGesture::Attach(c),
            None => BlocGesture::Destroy,
        }
    } else if state == KeyState::Down && mouse_moved {
        BlocGesture::TrackHover
    } else {
        BlocGesture::Nothing
    }
}

pub fn bloc_gesture(
    state: KeyState,
    parent: Option<Container>,
    hovered: Option<Container>,
    mouse_moved: bool,
) -> (r: BlocGesture)
    ensures
        r == gesture(state, parent, hovered, mouse_moved),
{
    if state.is_pressed() {
        match parent {
            Some(c) => BlocGesture::Detach(c),
            None => BlocGesture::Nothing,
        }
    } else if state.is_released() {
        match hovered {
            Some(c) => BlocGesture::Attach(c),
            None => BlocGesture::Destroy,
        }
    } else if state.is_down() && mouse_moved {
        BlocGesture::TrackHover
    } else {
        BlocGesture::Nothing
    }
}

/// Letting a bloc go drops it into the container under it whenever there is
/// one, and destroys it only over the void, whatever container it came from.
/// Grabbing it takes it out of its own container, whatever is under it.
pub proof fn law_release_drops_into_hovered_container(
    parent: Option<Container>,
    hovered: Option<Container>,
    mouse_moved: bool,
    c: Container,
)
    ensures
        hovered == Some(c) ==> gesture(KeyState::Released, parent, hovered, mouse_moved) == BlocGesture::Attach(c),
        hovered is None ==> gesture(KeyState::Released, parent, hovered, mouse_moved) == BlocGesture::Destroy,
        gesture(KeyState::Released, parent, hovered, mouse_moved) == BlocGesture::Destroy ==> hovered is None,
        gesture(KeyState::Released, parent, hovered, mouse_moved) == gesture(
            KeyState::Released,
            None,
            hovered,
            !mouse_moved,
        ),
        parent == Some(c) ==> gesture(KeyState::Pressed, parent, hovered, mouse_moved) == BlocGesture::Detach(c),
{
}

/// Among the first `n` entries of the drawing order, the container found
/// under the mouse in the topmost bloc that has one.
pub open spec fn top_container(
    order: Seq<WidgetId>,
    blocs: Seq<WidgetId>,
    hits: Seq<Option<Container>>,
    n: int,
) -> Option<Container>
    decreases n,
{
    if n <= 0 {
        None
    } else if blocs.contains(order[n - 1]) && hits[n - 1] is Some {
        hits[n - 1]
    } else {
        top_container(order, blocs, hits, n - 1)
    }
}

/// The container under the mouse: the widgets are tried from the top of the
/// drawing order down, blocs only, and the first container found is taken.
/// `hits[i]` is the container of `order[i]` under the mouse, if any.
pub fn topmost_container(
    order: &Vec<WidgetId>,
    blocs: &Vec<WidgetId>,
    hits: &Vec<Option<Container>>,
) -> (r: Option<Container>)
    requires
        hits.len() == order.len(),
    ensures
        r == top_container(order@, blocs@, hits@, order.len() as int),
{
    let mut i = order.len();
    while i > 0
        invariant
            i <= order.len(),
            hits.len() == order.len(),
            top_container(order@, blocs@, hits@, order.len() as int)
                == top_container(order@, blocs@, hits@, i as int),
        decreases i,
    {
        let id = order[i - 1];
        if contains_id(blocs, id) && hits[i - 1].is_some() {
            return hits[i - 1];
        }
        i = i - 1;
    }
    None
}

/// `blocs` without the ids of `removed`.
pub open spec fn forgotten(blocs: Seq<WidgetId>, removed: Seq<WidgetId>) -> Seq<WidgetId> {
    blocs.filter(|b: WidgetId| !removed.contains(b))
}

proof fn lemma_filter_all(s: Seq<WidgetId>, p: spec_fn(WidgetId) -> bool)
    requires
        forall|k: int| 0 <= k < s.len() ==> p(#[trigger] s[k]),
    ensures
        s.filter(p) == s,
    decreases s.len(),
{
    if s.len() > 0 {
        let l = s.drop_last();
        assert(forall|k: int| 0 <= k < l.len() ==> #[trigger] l[k] == s[k]);
        lemma_filter_all(l, p);
        l.lemma_filter_push(s.last(), p);
        assert(l.push(s.last()) =~= s);
    } else {
        reveal(Seq::filter);
    }
}

proof fn lemma_filter_filter(
    s: Seq<WidgetId>,
    p: spec_fn(WidgetId) -> bool,
    q: spec_fn(WidgetId) -> bool,
    r: spec_fn(WidgetId) -> bool,
)
    requires
        forall|b: WidgetId| #[trigger] r(b) == (p(b) && q(b)),
    ensures
        s.filter(p).filter(q) == s.filter(r),
    decreases s.len(),
{
    if s.len() > 0 {
        let l = s.drop_last();
        let e = s.last();
        assert(l.push(e) =~= s);
        lemma_filter_filter(l, p, q, r);
        l.lemma_filter_push(e, p);
        l.lemma_filter_push(e, r);
        l.filter(p).lemma_filter_push(e, q);
    } else {
        reveal(Seq::filter);
    }
}

proof fn lemma_remove_keeps_unique(s: Seq<WidgetId>, i: int)
    requires
        s.no_duplicates(),
        0 <= i < s.len(),
    ensures
        s.remove(i).no_duplicates(),
{
    let r = s.remove(i);
    assert forall|a: int, b: int| 0 <= a < r.len() && 0 <= b < r.len() && a != b implies r[a] != r[b] by {
        let oa = if a < i { a } else { a + 1 };
        let ob = if b < i { b } else { b + 1 };
        assert(r[a] == s[oa]);
        assert(r[b] == s[ob]);
    }
}

proof fn lemma_remove_is_filter(s: Seq<WidgetId>, i: int, x: WidgetId)
    requires
        s.no_duplicates(),
        0 <= i < s.len(),
        s[i] == x,
    ensures
        s.remove(i) == s.filter(|b: WidgetId| b != x),
    decreases s.len(),
{
    let f = |b: WidgetId| b != x;
    let l = s.drop_last();
    let e = s.last();
    assert(l.push(e) =~= s);
    l.lemma_filter_push(e, f);
    if i == s.len() - 1 {
        assert forall|k: int| 0 <= k < l.len() implies f(#[trigger] l[k]) by {
            assert(s[k] != s[i]);
        }
        lemma_filter_all(l, f);
        assert(s.remove(i) =~= l);
    } else {
        assert(l.no_duplicates()) by {
            assert forall|a: int, b: int| 0 <= a < l.len() && 0 <= b < l.len() && a != b implies l[a] != l[b] by {
                assert(s[a] != s[b]);
            }
        }
        lemma_remove_is_filter(l, i, x);
        assert(s.remove(i) =~= l.remove(i).push(e));
        assert(f(e)) by {
            assert(s[s.len() - 1] != s[i]);
        }
    }
}

proof fn lemma_contains_push(s: Seq<WidgetId>, x: WidgetId, b: WidgetId)
    ensures
        s.push(x).contains(b) == (s.contains(b) || b == x),
{
    if s.contains(b) {
        let k = choose|k: int| 0 <= k < s.len() && s[k] == b;
        assert(s.push(x)[k] == b);
    }
    if b == x {
        assert(s.push(x)[s.len() as int] == x);
    }
    if s.push(x).contains(b) {
        let k = choose|k: int| 0 <= k < s.push(x).len() && s.push(x)[k] == b;
        if k < s.len() {
            assert(s[k] == b);
        }
    }
}

/// Takes the removed ids out of the list of blocs.
pub fn forget_blocs(blocs: &mut Vec<WidgetId>, removed: &Vec<WidgetId>)
    requires
        old(blocs)@.no_duplicates(),
    ensures
        final(blocs)@ == forgotten(old(blocs)@, removed@),
        final(blocs)@.no_duplicates(),
{
    let ghost start = blocs@;
    let mut j: usize = 0;
    proof {
        lemma_filter_all(start, |b: WidgetId| !removed@.subrange(0, 0).contains(b));
    }
    while j < removed.len()
        invariant
            j <= removed.len(),
            blocs@.no_duplicates(),
            blocs@ == start.filter(|b: WidgetId| !removed@.subrange(0, j as int).contains(b)),
        decreases removed.len() - j,
    {
        let x = removed[j];
        let ghost before = blocs@;
        let ghost p = |b: WidgetId| !removed@.subrange(0, j as int).contains(b);
        let ghost q = |b: WidgetId| b != x;
        let ghost r = |b: WidgetId| !removed@.subrange(0, j + 1).contains(b);
        assert(removed@.subrange(0, j + 1) =~= removed@.subrange(0, j as int).push(x));
        assert forall|b: WidgetId| #[trigger] r(b) == (p(b) && q(b)) by {
            lemma_contains_push(removed@.subrange(0, j as int), x, b);
        }
        proof {
            lemma_filter_filter(start, p, q, r);
        }
        match find_id(blocs, x) {
            Some(k) => {
                proof {
                    lemma_remove_is_filter(blocs@, k as int, x);
                    lemma_remove_keeps_unique(blocs@, k as int);
                }
                blocs.remove(k);
            },
            None => {
                proof {
                    lemma_filter_all(before, q);
                }
            },
        }
        j = j + 1;
    }
    assert(removed@.subrange(0, removed.len() as int) =~= removed@);
}

} // verus!
