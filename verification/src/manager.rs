use vstd::prelude::*;
use crate::input::Input;
use crate::key_state::KeyState;
use crate::widgets::{Base, BaseView, WidgetId};

verus! {

/// A request that a widget makes to the manager during its update.
#[derive(PartialEq, Eq, Debug, Clone, Copy, Structural)]
pub enum Command {
    UnfocusWidget,
    PutOnTopCam { id: WidgetId },
    PutOnTopNoCam { id: WidgetId },
}

/// A notification that a widget must receive: it gained or lost the focus
/// or the hover. The manager has already updated the widget's flags.
#[derive(PartialEq, Eq, Debug, Clone, Copy, Structural)]
pub enum WidgetEvent {
    Focus(WidgetId),
    Unfocus(WidgetId),
    Hover(WidgetId),
    Unhover(WidgetId),
}

/// Which of the two flags a change concerns.
#[derive(PartialEq, Eq, Debug, Clone, Copy, Structural)]
pub enum Channel {
    Focus,
    Hover,
}

/// The manager's state, as plain values.
pub struct ManagerView {
    pub widgets: Seq<Option<BaseView>>,
    pub no_cam_order: Seq<WidgetId>,
    pub cam_order: Seq<WidgetId>,
    pub id_counter: WidgetId,
    pub focused: Option<WidgetId>,
    pub hovered: Option<WidgetId>,
    pub commands: Seq<Command>,
}

impl ManagerView {
    pub open spec fn has(self, id: WidgetId) -> bool {
        id < self.widgets.len() && self.widgets[id as int] is Some
    }

    pub open spec fn base(self, id: WidgetId) -> BaseView {
        self.widgets[id as int].unwrap()
    }

    pub open spec fn parent(self, id: WidgetId) -> Option<WidgetId> {
        self.base(id).parent_id
    }

    /// The widget exists and so does its parent, if it has one.
    pub open spec fn can_flag(self, id: WidgetId) -> bool {
        &&& self.has(id)
        &&& self.parent(id) matches Some(p) ==> self.has(p)
    }

    pub open spec fn current(self, ch: Channel) -> Option<WidgetId> {
        match ch {
            Channel::Focus => self.focused,
            Channel::Hover => self.hovered,
        }
    }

    /// Ids are indices, each widget is in exactly one drawing order, the
    /// orders hold existing widgets once, and the focused and hovered widgets
    /// exist.
    pub open spec fn wf(self) -> bool {
        &&& self.widgets.len() == self.id_counter
        &&& forall|i: WidgetId| #[trigger] self.has(i) ==> self.base(i).id == i
        &&& self.no_cam_order.no_duplicates()
        &&& self.cam_order.no_duplicates()
        &&& forall|j: int| 0 <= j < self.no_cam_order.len() ==> self.has(#[trigger] self.no_cam_order[j])
        &&& forall|j: int| 0 <= j < self.cam_order.len() ==> self.has(#[trigger] self.cam_order[j])
        &&& forall|i: WidgetId| #[trigger] self.has(i) ==> (self.no_cam_order.contains(i) != self.cam_order.contains(i))
        &&& self.focused matches Some(f) ==> self.has(f)
        &&& self.hovered matches Some(h) ==> self.has(h)
    }

    /// The view with the flag of `ch` of widget `id` set to `b`.
    pub open spec fn with_flag(self, id: WidgetId, ch: Channel, b: bool) -> Self {
        let old = self.base(id);
        let new = match ch {
            Channel::Focus => BaseView { focused: b, ..old },
            Channel::Hover => BaseView { hovered: b, ..old },
        };
        ManagerView { widgets: self.widgets.update(id as int, Some(new)), ..self }
    }

    /// The view with widget `id` shown (`b`) or hidden.
    pub open spec fn with_visible(self, id: WidgetId, b: bool) -> Self {
        ManagerView {
            widgets: self.widgets.update(id as int, Some(BaseView { visible: b, ..self.base(id) })),
            ..self
        }
    }

    pub open spec fn with_current(self, ch: Channel, c: Option<WidgetId>) -> Self {
        match ch {
            Channel::Focus => ManagerView { focused: c, ..self },
            Channel::Hover => ManagerView { hovered: c, ..self },
        }
    }
}

pub open spec fn gain_event(ch: Channel, id: WidgetId) -> WidgetEvent {
    match ch {
        Channel::Focus => WidgetEvent::Focus(id),
        Channel::Hover => WidgetEvent::Hover(id),
    }
}

pub open spec fn lose_event(ch: Channel, id: WidgetId) -> WidgetEvent {
    match ch {
        Channel::Focus => WidgetEvent::Unfocus(id),
        Channel::Hover => WidgetEvent::Unhover(id),
    }
}

/// The widgets that lose the flag when it moves from `old` to `new`: none
/// when `new` is a child of `old`; `old` alone when they are siblings;
/// otherwise `old` and its parent.
pub open spec fn losers(v: ManagerView, old: WidgetId, new: Option<WidgetId>) -> Seq<WidgetId> {
    let with_parent = match v.parent(old) {
        Some(p) => seq![old, p],
        None => seq![old],
    };
    match new {
        Some(n) => if v.parent(n) == Some(old) {
            Seq::empty()
        } else if v.parent(n) == v.parent(old) {
            seq![old]
        } else {
            with_parent
        },
        None => with_parent,
    }
}

/// The widgets that gain the flag: `new` and its parent.
pub open spec fn gainers(v: ManagerView, new: Option<WidgetId>) -> Seq<WidgetId> {
    match new {
        Some(n) => match v.parent(n) {
            Some(p) => seq![n, p],
            None => seq![n],
        },
        None => Seq::empty(),
    }
}

/// Sets the flag of `ch` of every widget of `ids` to `b`, in order.
pub open spec fn set_flags(v: ManagerView, ids: Seq<WidgetId>, ch: Channel, b: bool) -> ManagerView
    decreases ids.len(),
{
    if ids.len() == 0 {
        v
    } else {
        set_flags(v.with_flag(ids[0], ch, b), ids.drop_first(), ch, b)
    }
}

/// Moving the flag of `ch` to `new`: the losers lose it, then the gainers
/// gain it; the events name them in that order.
pub open spec fn move_flag(v: ManagerView, ch: Channel, new: Option<WidgetId>) -> (ManagerView, Seq<WidgetEvent>) {
    let lose = match v.current(ch) {
        Some(old) => losers(v, old, new),
        None => Seq::empty(),
    };
    let v1 = set_flags(v, lose, ch, false);
    let gain = gainers(v1, new);
    let v2 = set_flags(v1, gain, ch, true);
    (
        v2.with_current(ch, new),
        lose.map_values(|id: WidgetId| lose_event(ch, id)) + gain.map_values(|id: WidgetId| gain_event(ch, id)),
    )
}

/// The manager of the widgets: it gives them ids, keeps the order in which
/// they are drawn (widgets that follow the camera, then widgets fixed on the
/// screen), and tracks which widget has the focus and which one is hovered.
pub struct Manager {
    widgets: Vec<Option<Base>>,
    no_cam_order: Vec<WidgetId>,
    cam_order: Vec<WidgetId>,
    id_counter: WidgetId,
    focused_widget_id: Option<WidgetId>,
    hovered_widget_id: Option<WidgetId>,
    commands: Vec<Command>,
}

pub open spec fn opt_base_view(b: Option<Base>) -> Option<BaseView> {
    match b {
        Some(b) => Some(b@),
        None => None,
    }
}

impl Manager {
    pub closed spec fn view(&self) -> ManagerView {
        ManagerView {
            widgets: self.widgets@.map_values(|b: Option<Base>| opt_base_view(b)),
            no_cam_order: self.no_cam_order@,
            cam_order: self.cam_order@,
            id_counter: self.id_counter,
            focused: self.focused_widget_id,
            hovered: self.hovered_widget_id,
            commands: self.commands@,
        }
    }

    /// An empty manager.
    pub fn new() -> (r: Self)
        ensures
            r@.wf(),
            r@.widgets.len() == 0,
            r@.no_cam_order.len() == 0,
            r@.cam_order.len() == 0,
            r@.focused.is_none(),
            r@.hovered.is_none(),
            r@.commands.len() == 0,
    {
        let r = Manager {
            widgets: Vec::new(),
            no_cam_order: Vec::new(),
            cam_order: Vec::new(),
            id_counter: 0,
            focused_widget_id: None,
            hovered_widget_id: None,
            commands: Vec::new(),
        };
        assert(r@.widgets =~= Seq::empty());
        r
    }

    /// Adds a widget, drawn on top of the widgets of its kind, and returns
    /// its id: the number of widgets added before it.
    pub fn add_widget(&mut self, widget: Base, has_camera: bool) -> (id: WidgetId)
        requires
            old(self)@.wf(),
            old(self)@.id_counter < u32::MAX,
        ensures
            final(self)@.wf(),
            id == old(self)@.id_counter,
            final(self)@ == (ManagerView {
                widgets: old(self)@.widgets.push(Some(BaseView { id, ..widget@ })),
                no_cam_order: if has_camera {
                    old(self)@.no_cam_order
                } else {
                    old(self)@.no_cam_order.push(id)
                },
                cam_order: if has_camera {
                    old(self)@.cam_order.push(id)
                } else {
                    old(self)@.cam_order
                },
                id_counter: (id + 1) as WidgetId,
                ..old(self)@
            }),
    {
        let id = self.id_counter;
        let mut widget = widget;
        widget.set_id(id);
        self.widgets.push(Some(widget));
        proof {
            assert(!old(self)@.no_cam_order.contains(id));
            assert(!old(self)@.cam_order.contains(id));
        }
        if has_camera {
            self.cam_order.push(id);
        } else {
            self.no_cam_order.push(id);
        }
        self.id_counter = self.id_counter + 1;
        proof {
            let v = self@;
            let o = old(self)@;
            assert(v.widgets =~= o.widgets.push(Some(BaseView { id, ..widget@ })));
            assert forall|i: WidgetId| #[trigger] v.has(i) implies v.base(i).id == i by {
                if i < o.widgets.len() {
                    assert(o.has(i));
                }
            }
            assert forall|j: int| 0 <= j < v.no_cam_order.len() implies v.has(#[trigger] v.no_cam_order[j]) by {
                if j < o.no_cam_order.len() {
                    assert(o.has(o.no_cam_order[j]));
                }
            }
            assert forall|j: int| 0 <= j < v.cam_order.len() implies v.has(#[trigger] v.cam_order[j]) by {
                if j < o.cam_order.len() {
                    assert(o.has(o.cam_order[j]));
                }
            }
            assert forall|i: WidgetId| #[trigger] v.has(i) implies (v.no_cam_order.contains(i)
                != v.cam_order.contains(i)) by {
                if i < o.widgets.len() {
                    assert(o.has(i));
                    if o.no_cam_order.contains(i) {
                        let j = choose|j: int| 0 <= j < o.no_cam_order.len() && o.no_cam_order[j] == i;
                        assert(v.no_cam_order[j] == i);
                    }
                    if o.cam_order.contains(i) {
                        let j = choose|j: int| 0 <= j < o.cam_order.len() && o.cam_order[j] == i;
                        assert(v.cam_order[j] == i);
                    }
                    if v.no_cam_order.contains(i) {
                        let j = choose|j: int| 0 <= j < v.no_cam_order.len() && v.no_cam_order[j] == i;
                        if j < o.no_cam_order.len() {
                            assert(o.no_cam_order[j] == i);
                        }
                    }
                    if v.cam_order.contains(i) {
                        let j = choose|j: int| 0 <= j < v.cam_order.len() && v.cam_order[j] == i;
                        if j < o.cam_order.len() {
                            assert(o.cam_order[j] == i);
                        }
                    }
                } else {
                    if has_camera {
                        assert(v.cam_order[v.cam_order.len() - 1] == i);
                    } else {
                        assert(v.no_cam_order[v.no_cam_order.len() - 1] == i);
                    }
                }
            }
        }
        id
    }
}

/// `order` with `id` moved to the end (drawn on top).
pub open spec fn moved_on_top(order: Seq<WidgetId>, id: WidgetId) -> Seq<WidgetId> {
    order.remove(order.index_of(id)).push(id)
}

/// The widget that gets the focus this frame: a click focuses the hovered
/// widget, escape drops the focus, tab moves it to the next id (with shift,
/// the previous one), cycling over all ids.
pub open spec fn focus_target(v: ManagerView, input: Input) -> Option<WidgetId> {
    let ks = input.keys_state;
    if input.mouse.left_button == KeyState::Pressed {
        if v.focused != v.hovered {
            v.hovered
        } else {
            v.focused
        }
    } else if ks.escape == KeyState::Pressed {
        None
    } else if ks.tab == KeyState::Pressed {
        match v.focused {
            Some(f) => Some(
                if ks.lshift == KeyState::Down || ks.rshift == KeyState::Down {
                    if f == 0 {
                        (v.id_counter - 1) as WidgetId
                    } else {
                        (f - 1) as WidgetId
                    }
                } else {
                    if f == v.id_counter - 1 {
                        0
                    } else {
                        (f + 1) as WidgetId
                    }
                },
            ),
            None => None,
        }
    } else {
        v.focused
    }
}

/// The topmost visible widget of `order` among `hits`.
pub open spec fn top_hit(v: ManagerView, order: Seq<WidgetId>, hits: Seq<WidgetId>) -> Option<WidgetId>
    decreases order.len(),
{
    if order.len() == 0 {
        None
    } else {
        let last = order.last();
        if v.base(last).visible && hits.contains(last) {
            Some(last)
        } else {
            top_hit(v, order.drop_last(), hits)
        }
    }
}

/// The widget under the mouse: the topmost visible fixed widget that the
/// mouse hits, else the topmost visible widget that follows the camera.
pub open spec fn hover_target(v: ManagerView, hits_no_cam: Seq<WidgetId>, hits_cam: Seq<WidgetId>) -> Option<WidgetId> {
    match top_hit(v, v.no_cam_order, hits_no_cam) {
        Some(id) => Some(id),
        None => top_hit(v, v.cam_order, hits_cam),
    }
}

/// The hover is recomputed when the mouse moves without the left button held.
pub open spec fn hover_recomputed(input: Input) -> bool {
    (input.mouse.delta_x != 0 || input.mouse.delta_y != 0) && input.mouse.left_button != KeyState::Down
}

/// Every parent of a widget exists.
pub open spec fn parents_exist(v: ManagerView) -> bool {
    forall|i: WidgetId| #[trigger] v.has(i) && v.parent(i) is Some ==> v.has(v.parent(i).unwrap())
}

/// The state of the manager after running `cmds`, and the events for the
/// widgets.
pub open spec fn run_commands_spec(v: ManagerView, cmds: Seq<Command>) -> (ManagerView, Seq<WidgetEvent>)
    decreases cmds.len(),
{
    if cmds.len() == 0 {
        (v, Seq::empty())
    } else {
        let (v1, e1) = match cmds[0] {
            Command::UnfocusWidget => match v.focused {
                Some(f) => (
                    ManagerView { focused: None, ..v.with_flag(f, Channel::Focus, false) },
                    seq![WidgetEvent::Unfocus(f)],
                ),
                None => (v, Seq::empty()),
            },
            Command::PutOnTopCam { id } => (ManagerView { cam_order: moved_on_top(v.cam_order, id), ..v }, Seq::empty()),
            Command::PutOnTopNoCam { id } => (
                ManagerView { no_cam_order: moved_on_top(v.no_cam_order, id), ..v },
                Seq::empty(),
            ),
        };
        let (v2, e2) = run_commands_spec(v1, cmds.drop_first());
        (v2, e1 + e2)
    }
}

/// Each command of `cmds` moves a widget that is in the order it names.
pub open spec fn commands_ok(v: ManagerView, cmds: Seq<Command>) -> bool {
    forall|j: int|
        0 <= j < cmds.len() ==> match #[trigger] cmds[j] {
            Command::PutOnTopCam { id } => v.cam_order.contains(id),
            Command::PutOnTopNoCam { id } => v.no_cam_order.contains(id),
            Command::UnfocusWidget => true,
        }
}

/// What a frame of the manager gives back: whether something changed and
/// the events to deliver, in order.
pub struct ManagerUpdate {
    pub changed: bool,
    pub events: Vec<WidgetEvent>,
}

/// The flags of `ch` changed, nothing else.
pub proof fn lemma_with_flag_keeps(v: ManagerView, id: WidgetId, ch: Channel, b: bool)
    requires
        v.wf(),
        v.has(id),
    ensures
        v.with_flag(id, ch, b).wf(),
        forall|i: WidgetId| #[trigger] v.with_flag(id, ch, b).has(i) == v.has(i),
        forall|i: WidgetId| v.has(i) ==> #[trigger] v.with_flag(id, ch, b).parent(i) == v.parent(i),
        forall|i: WidgetId| v.has(i) ==> #[trigger] v.with_flag(id, ch, b).base(i).visible == v.base(i).visible,
        parents_exist(v) ==> parents_exist(v.with_flag(id, ch, b)),
{
    let w = v.with_flag(id, ch, b);
    assert forall|i: WidgetId| #[trigger] w.has(i) implies w.base(i).id == i by {
        assert(v.has(i));
    }
    assert forall|i: WidgetId| #[trigger] w.has(i) implies (w.no_cam_order.contains(i) != w.cam_order.contains(i)) by {
        assert(v.has(i));
    }
    assert forall|i: WidgetId| #[trigger] w.has(i) == v.has(i) by {}
}

/// Moving the current widget of a channel to an existing widget keeps the
/// manager well formed.
pub proof fn lemma_with_current(v: ManagerView, ch: Channel, c: Option<WidgetId>)
    requires
        v.wf(),
        c matches Some(x) ==> v.has(x),
    ensures
        v.with_current(ch, c).wf(),
{
    let w = v.with_current(ch, c);
    assert forall|i: WidgetId| #[trigger] w.has(i) implies w.base(i).id == i by {
        assert(v.has(i));
    }
    assert forall|i: WidgetId| #[trigger] w.has(i) implies (w.no_cam_order.contains(i) != w.cam_order.contains(i)) by {
        assert(v.has(i));
    }
    assert forall|j: int| 0 <= j < w.no_cam_order.len() implies w.has(#[trigger] w.no_cam_order[j]) by {
        assert(v.has(v.no_cam_order[j]));
    }
    assert forall|j: int| 0 <= j < w.cam_order.len() implies w.has(#[trigger] w.cam_order[j]) by {
        assert(v.has(v.cam_order[j]));
    }
}

impl Manager {
    proof fn lemma_view_index(&self, id: WidgetId)
        requires
            self@.has(id),
        ensures
            self.widgets@[id as int] is Some,
            self.widgets@[id as int].unwrap()@ == self@.base(id),
    {
    }

    /// The base of widget `id`.
    pub fn get_widget(&self, id: WidgetId) -> (r: &Base)
        requires
            self@.has(id),
        ensures
            r@ == self@.base(id),
    {
        proof {
            self.lemma_view_index(id);
        }
        match &self.widgets[id as usize] {
            Some(b) => b,
            None => {
                proof {
                    assert(false);
                }
                &self.widgets[id as usize].as_ref().unwrap()
            },
        }
    }

    /// Whether widget `id` exists.
    pub fn has_widget(&self, id: WidgetId) -> (r: bool)
        ensures
            r == self@.has(id),
    {
        if (id as usize) < self.widgets.len() {
            proof {
                assert(self.widgets@[id as int] is Some == self@.widgets[id as int] is Some);
            }
            self.widgets[id as usize].is_some()
        } else {
            false
        }
    }

    fn parent_of(&self, id: WidgetId) -> (r: Option<WidgetId>)
        requires
            self@.has(id),
        ensures
            r == self@.parent(id),
    {
        self.get_widget(id).get_parent_id()
    }

    fn set_flag(&mut self, id: WidgetId, ch: Channel, b: bool)
        requires
            old(self)@.wf(),
            old(self)@.has(id),
        ensures
            final(self)@ == old(self)@.with_flag(id, ch, b),
    {
        proof {
            self.lemma_view_index(id);
        }
        let mut entry = None;
        std::mem::swap(&mut entry, &mut self.widgets[id as usize]);
        let mut base = match entry {
            Some(b) => b,
            None => {
                proof {
                    assert(false);
                }
                Base::new(false)
            },
        };
        match ch {
            Channel::Focus => base.set_focused(b),
            Channel::Hover => base.set_hovered(b),
        }
        self.widgets.set(id as usize, Some(base));
        proof {
            assert(self@.widgets =~= old(self)@.with_flag(id, ch, b).widgets);
        }
    }

    /// Shows (`visible`) or hides widget `id`.
    pub fn set_widget_visible(&mut self, id: WidgetId, visible: bool)
        requires
            old(self)@.wf(),
            old(self)@.has(id),
        ensures
            final(self)@ == old(self)@.with_visible(id, visible),
            final(self)@.wf(),
    {
        proof {
            self.lemma_view_index(id);
        }
        let mut entry = None;
        std::mem::swap(&mut entry, &mut self.widgets[id as usize]);
        let mut base = match entry {
            Some(b) => b,
            None => {
                proof {
                    assert(false);
                }
                Base::new(false)
            },
        };
        if visible {
            base.set_visible();
        } else {
            base.set_invisible();
        }
        self.widgets.set(id as usize, Some(base));
        proof {
            let v = old(self)@;
            let w = v.with_visible(id, visible);
            assert(self@.widgets =~= w.widgets);
            assert forall|i: WidgetId| #[trigger] w.has(i) implies w.base(i).id == i by {
                assert(v.has(i));
            }
            assert forall|i: WidgetId| #[trigger] w.has(i) implies (w.no_cam_order.contains(i)
                != w.cam_order.contains(i)) by {
                assert(v.has(i));
            }
            assert forall|j: int| 0 <= j < w.no_cam_order.len() implies w.has(#[trigger] w.no_cam_order[j]) by {
                assert(v.has(v.no_cam_order[j]));
            }
            assert forall|j: int| 0 <= j < w.cam_order.len() implies w.has(#[trigger] w.cam_order[j]) by {
                assert(v.has(v.cam_order[j]));
            }
        }
    }

    fn current(&self, ch: Channel) -> (r: Option<WidgetId>)
        ensures
            r == self@.current(ch),
    {
        match ch {
            Channel::Focus => self.focused_widget_id,
            Channel::Hover => self.hovered_widget_id,
        }
    }

    fn set_current(&mut self, ch: Channel, c: Option<WidgetId>)
        ensures
            final(self)@ == old(self)@.with_current(ch, c),
    {
        match ch {
            Channel::Focus => self.focused_widget_id = c,
            Channel::Hover => self.hovered_widget_id = c,
        }
    }

    /// The losers of the move of the flag of `ch` to `new` lose it.
    fn lose_flag(&mut self, ch: Channel, new: Option<WidgetId>) -> (events: Vec<WidgetEvent>)
        requires
            old(self)@.wf(),
            new matches Some(n) ==> old(self)@.has(n),
            old(self)@.current(ch) matches Some(o) ==> old(self)@.can_flag(o),
        ensures
            ({
                let lose = match old(self)@.current(ch) {
                    Some(o) => losers(old(self)@, o, new),
                    None => Seq::empty(),
                };
                &&& final(self)@ == set_flags(old(self)@, lose, ch, false)
                &&& events@ == lose.map_values(|id: WidgetId| lose_event(ch, id))
            }),
            final(self)@.wf(),
            forall|i: WidgetId| #[trigger] final(self)@.has(i) == old(self)@.has(i),
            forall|i: WidgetId| old(self)@.has(i) ==> #[trigger] final(self)@.parent(i) == old(self)@.parent(i),
            forall|i: WidgetId| old(self)@.has(i) ==> #[trigger] final(self)@.base(i).visible == old(self)@.base(i).visible,
            final(self)@.focused == old(self)@.focused,
            final(self)@.hovered == old(self)@.hovered,
            final(self)@.no_cam_order == old(self)@.no_cam_order,
            final(self)@.cam_order == old(self)@.cam_order,
            final(self)@.commands == old(self)@.commands,
            final(self)@.id_counter == old(self)@.id_counter,
    {
        let ghost v0 = self@;
        let mut events: Vec<WidgetEvent> = Vec::new();
        let ghost lose: Seq<WidgetId> = match v0.current(ch) {
            Some(old) => losers(v0, old, new),
            None => Seq::empty(),
        };
        if let Some(old) = self.current(ch) {
            let old_parent = self.parent_of(old);
            let (lose_old, lose_parent) = match new {
                Some(n) => {
                    let pn = self.parent_of(n);
                    if pn == Some(old) {
                        (false, false)
                    } else if pn == old_parent {
                        (true, false)
                    } else {
                        (true, true)
                    }
                },
                None => (true, true),
            };
            if lose_old {
                proof {
                    lemma_with_flag_keeps(self@, old, ch, false);
                }
                self.set_flag(old, ch, false);
                events.push(
                    match ch {
                        Channel::Focus => WidgetEvent::Unfocus(old),
                        Channel::Hover => WidgetEvent::Unhover(old),
                    },
                );
                if lose_parent {
                    if let Some(p) = old_parent {
                        proof {
                            lemma_with_flag_keeps(self@, p, ch, false);
                        }
                        self.set_flag(p, ch, false);
                        events.push(
                            match ch {
                                Channel::Focus => WidgetEvent::Unfocus(p),
                                Channel::Hover => WidgetEvent::Unhover(p),
                            },
                        );
                    }
                }
            }
            proof {
                reveal_with_fuel(set_flags, 3);
                assert(self@ == set_flags(v0, lose, ch, false));
                assert(events@ =~= lose.map_values(|id: WidgetId| lose_event(ch, id)));
            }
        } else {
            proof {
                assert(events@ =~= lose.map_values(|id: WidgetId| lose_event(ch, id)));
            }
        }
        events
    }

    /// The gainers of the move of the flag of `ch` to `new` gain it.
    fn gain_flag(&mut self, ch: Channel, new: Option<WidgetId>) -> (events: Vec<WidgetEvent>)
        requires
            old(self)@.wf(),
            new matches Some(n) ==> old(self)@.can_flag(n),
        ensures
            final(self)@ == set_flags(old(self)@, gainers(old(self)@, new), ch, true),
            events@ == gainers(old(self)@, new).map_values(|id: WidgetId| gain_event(ch, id)),
            final(self)@.wf(),
            forall|i: WidgetId| #[trigger] final(self)@.has(i) == old(self)@.has(i),
            forall|i: WidgetId| old(self)@.has(i) ==> #[trigger] final(self)@.parent(i) == old(self)@.parent(i),
            forall|i: WidgetId| old(self)@.has(i) ==> #[trigger] final(self)@.base(i).visible == old(self)@.base(i).visible,
            final(self)@.focused == old(self)@.focused,
            final(self)@.hovered == old(self)@.hovered,
            final(self)@.no_cam_order == old(self)@.no_cam_order,
            final(self)@.cam_order == old(self)@.cam_order,
            final(self)@.commands == old(self)@.commands,
            final(self)@.id_counter == old(self)@.id_counter,
    {
        let ghost v1 = self@;
        let ghost gain = gainers(v1, new);
        let mut events: Vec<WidgetEvent> = Vec::new();
        if let Some(n) = new {
            let pn = self.parent_of(n);
            proof {
                lemma_with_flag_keeps(self@, n, ch, true);
            }
            self.set_flag(n, ch, true);
            events.push(
                match ch {
                    Channel::Focus => WidgetEvent::Focus(n),
                    Channel::Hover => WidgetEvent::Hover(n),
                },
            );
            if let Some(p) = pn {
                proof {
                    lemma_with_flag_keeps(self@, p, ch, true);
                }
                self.set_flag(p, ch, true);
                events.push(
                    match ch {
                        Channel::Focus => WidgetEvent::Focus(p),
                        Channel::Hover => WidgetEvent::Hover(p),
                    },
                );
            }
        }
        proof {
            reveal_with_fuel(set_flags, 3);
            assert(self@ == set_flags(v1, gain, ch, true));
            assert(events@ =~= gain.map_values(|id: WidgetId| gain_event(ch, id)));
        }
        events
    }

    /// Moves the flag of `ch` to `new` (see `move_flag`).
    fn update_flag(&mut self, ch: Channel, new: Option<WidgetId>) -> (events: Vec<WidgetEvent>)
        requires
            old(self)@.wf(),
            new matches Some(n) ==> old(self)@.can_flag(n),
            old(self)@.current(ch) matches Some(o) ==> old(self)@.can_flag(o),
        ensures
            final(self)@ == move_flag(old(self)@, ch, new).0,
            events@ == move_flag(old(self)@, ch, new).1,
            final(self)@.wf(),
            forall|i: WidgetId| #[trigger] final(self)@.has(i) == old(self)@.has(i),
            forall|i: WidgetId| old(self)@.has(i) ==> #[trigger] final(self)@.parent(i) == old(self)@.parent(i),
            forall|i: WidgetId| old(self)@.has(i) ==> #[trigger] final(self)@.base(i).visible == old(self)@.base(i).visible,
            final(self)@.no_cam_order == old(self)@.no_cam_order,
            final(self)@.cam_order == old(self)@.cam_order,
            final(self)@.commands == old(self)@.commands,
            final(self)@.id_counter == old(self)@.id_counter,
    {
        let ghost v0 = self@;
        let mut events = self.lose_flag(ch, new);
        let ghost v1 = self@;
        assert(new matches Some(n) ==> v1.can_flag(n));
        let mut gained = self.gain_flag(ch, new);
        events.append(&mut gained);
        assert(new matches Some(n) ==> self@.has(n));
        assert(self@.current(ch) matches Some(o) ==> self@.has(o)) by {
            if let Some(o) = v0.current(ch) {
                assert(v0.has(o));
            }
        }
        proof {
            lemma_with_current(self@, ch, new);
        }
        let ghost v2 = self@;
        self.set_current(ch, new);
        proof {
            assert(self@.widgets == v2.widgets);
            assert forall|i: WidgetId| #[trigger] self@.has(i) == v0.has(i) by {
                assert(v2.has(i) == v1.has(i));
            }
            assert forall|i: WidgetId| v0.has(i) implies #[trigger] self@.parent(i) == v0.parent(i) by {
                assert(v1.has(i));
                assert(v2.parent(i) == v1.parent(i));
            }
            assert forall|i: WidgetId| v0.has(i) implies #[trigger] self@.base(i).visible == v0.base(i).visible by {
                assert(v1.has(i));
                assert(v2.base(i).visible == v1.base(i).visible);
            }
        }
        events
    }

    /// Gives the focus to widget `id`.
    pub fn focus_widget(&mut self, id: WidgetId) -> (events: Vec<WidgetEvent>)
        requires
            old(self)@.wf(),
            old(self)@.can_flag(id),
            old(self)@.focused matches Some(o) ==> old(self)@.can_flag(o),
        ensures
            final(self)@ == move_flag(old(self)@, Channel::Focus, Some(id)).0,
            events@ == move_flag(old(self)@, Channel::Focus, Some(id)).1,
            final(self)@.wf(),
    {
        self.update_flag(Channel::Focus, Some(id))
    }

    /// Moves the focus to `new` (see `move_flag`).
    pub fn update_focused_widget(&mut self, new: Option<WidgetId>) -> (events: Vec<WidgetEvent>)
        requires
            old(self)@.wf(),
            new matches Some(n) ==> old(self)@.can_flag(n),
            old(self)@.focused matches Some(o) ==> old(self)@.can_flag(o),
        ensures
            final(self)@ == move_flag(old(self)@, Channel::Focus, new).0,
            events@ == move_flag(old(self)@, Channel::Focus, new).1,
            final(self)@.wf(),
            forall|i: WidgetId| #[trigger] final(self)@.has(i) == old(self)@.has(i),
            forall|i: WidgetId| old(self)@.has(i) ==> #[trigger] final(self)@.parent(i) == old(self)@.parent(i),
            forall|i: WidgetId| old(self)@.has(i) ==> #[trigger] final(self)@.base(i).visible == old(self)@.base(i).visible,
    {
        self.update_flag(Channel::Focus, new)
    }

    /// Moves the hover to `new` (see `move_flag`).
    pub fn update_hovered_widget(&mut self, new: Option<WidgetId>) -> (events: Vec<WidgetEvent>)
        requires
            old(self)@.wf(),
            new matches Some(n) ==> old(self)@.can_flag(n),
            old(self)@.hovered matches Some(o) ==> old(self)@.can_flag(o),
        ensures
            final(self)@ == move_flag(old(self)@, Channel::Hover, new).0,
            events@ == move_flag(old(self)@, Channel::Hover, new).1,
            final(self)@.wf(),
            forall|i: WidgetId| #[trigger] final(self)@.has(i) == old(self)@.has(i),
            forall|i: WidgetId| old(self)@.has(i) ==> #[trigger] final(self)@.parent(i) == old(self)@.parent(i),
            forall|i: WidgetId| old(self)@.has(i) ==> #[trigger] final(self)@.base(i).visible == old(self)@.base(i).visible,
    {
        self.update_flag(Channel::Hover, new)
    }

    pub fn push_command(&mut self, command: Command)
        ensures
            final(self)@ == (ManagerView { commands: old(self)@.commands.push(command), ..old(self)@ }),
    {
        self.commands.push(command);
    }

    pub fn clear_commands(&mut self)
        ensures
            final(self)@ == (ManagerView { commands: Seq::empty(), ..old(self)@ }),
    {
        self.commands.clear();
    }

    pub fn get_cam_order(&self) -> (r: &Vec<WidgetId>)
        ensures
            r@ == self@.cam_order,
    {
        &self.cam_order
    }

    pub fn get_no_cam_order(&self) -> (r: &Vec<WidgetId>)
        ensures
            r@ == self@.no_cam_order,
    {
        &self.no_cam_order
    }

    /// Returns the id of the last added widget.
    pub fn last_id(&self) -> (r: WidgetId)
        requires
            self@.id_counter > 0,
        ensures
            r == self@.id_counter - 1,
    {
        self.id_counter - 1
    }

    pub fn focused_widget(&self) -> (r: Option<WidgetId>)
        ensures
            r == self@.focused,
    {
        self.focused_widget_id
    }

    pub fn hovered_widget(&self) -> (r: Option<WidgetId>)
        ensures
            r == self@.hovered,
    {
        self.hovered_widget_id
    }

    /// The widget is drawn fixed on the screen, not through the camera.
    pub fn widget_has_no_camera(&self, id: WidgetId) -> (r: bool)
        ensures
            r == self@.no_cam_order.contains(id),
    {
        let mut i: usize = 0;
        while i < self.no_cam_order.len()
            invariant
                0 <= i <= self@.no_cam_order.len(),
                forall|j: int| 0 <= j < i ==> self@.no_cam_order[j] != id,
            decreases self@.no_cam_order.len() - i,
        {
            if self.no_cam_order[i] == id {
                return true;
            }
            i = i + 1;
        }
        false
    }
}

/// The index of `id` in `order`, where it occurs once.
fn position(order: &Vec<WidgetId>, id: WidgetId) -> (r: usize)
    requires
        order@.contains(id),
        order@.no_duplicates(),
    ensures
        r < order@.len(),
        order@[r as int] == id,
        r == order@.index_of(id),
{
    let mut i: usize = 0;
    while i < order.len()
        invariant
            0 <= i <= order@.len(),
            order@.contains(id),
            order@.no_duplicates(),
            forall|j: int| 0 <= j < i ==> order@[j] != id,
        decreases order@.len() - i,
    {
        if order[i] == id {
            proof {
                let k = order@.index_of(id);
                assert(order@[k] == id);
                if k != i as int {
                    assert(order@[k] != order@[i as int]);
                }
            }
            return i;
        }
        i = i + 1;
    }
    proof {
        let k = order@.index_of(id);
        assert(order@[k] == id);
    }
    0
}

/// Moves `id` to the end of `order`.
fn move_on_top(order: &mut Vec<WidgetId>, id: WidgetId)
    requires
        old(order)@.contains(id),
        old(order)@.no_duplicates(),
    ensures
        final(order)@ == moved_on_top(old(order)@, id),
{
    let index = position(order, id);
    order.remove(index);
    order.push(id);
}

/// Moving an element of a duplicate-free order on top keeps its elements.
proof fn lemma_moved_on_top(order: Seq<WidgetId>, id: WidgetId)
    requires
        order.contains(id),
        order.no_duplicates(),
    ensures
        moved_on_top(order, id).no_duplicates(),
        forall|x: WidgetId| #[trigger] moved_on_top(order, id).contains(x) == order.contains(x),
        moved_on_top(order, id).len() == order.len(),
{
    let k = order.index_of(id);
    let r = order.remove(k);
    let m = r.push(id);
    assert forall|x: WidgetId| #[trigger] m.contains(x) == order.contains(x) by {
        if m.contains(x) {
            let j = choose|j: int| 0 <= j < m.len() && m[j] == x;
            if j < r.len() {
                if j < k {
                    assert(order[j] == x);
                } else {
                    assert(order[j + 1] == x);
                }
            }
        }
        if order.contains(x) {
            let j = choose|j: int| 0 <= j < order.len() && order[j] == x;
            if j < k {
                assert(m[j] == x);
            } else if j > k {
                assert(m[j - 1] == x);
            } else {
                assert(m[m.len() - 1] == x);
            }
        }
    }
    assert forall|a: int, b: int| 0 <= a < m.len() && 0 <= b < m.len() && a != b implies m[a] != m[b] by {
        let oa = if a == m.len() - 1 { k } else if a < k { a } else { a + 1 };
        let ob = if b == m.len() - 1 { k } else if b < k { b } else { b + 1 };
        assert(m[a] == order[oa]);
        assert(m[b] == order[ob]);
    }
}

impl Manager {
    /// Puts widget `id`, drawn through the camera, on top of the others.
    pub fn put_on_top_cam(&mut self, id: WidgetId)
        requires
            old(self)@.wf(),
            old(self)@.cam_order.contains(id),
        ensures
            final(self)@ == (ManagerView { cam_order: moved_on_top(old(self)@.cam_order, id), ..old(self)@ }),
            final(self)@.wf(),
    {
        proof {
            lemma_moved_on_top(self@.cam_order, id);
        }
        move_on_top(&mut self.cam_order, id);
        proof {
            let v = self@;
            assert forall|j: int| 0 <= j < v.cam_order.len() implies v.has(#[trigger] v.cam_order[j]) by {
                assert(v.cam_order.contains(v.cam_order[j]));
                assert(old(self)@.cam_order.contains(v.cam_order[j]));
            }
            assert forall|i: WidgetId| #[trigger] v.has(i) implies (v.no_cam_order.contains(i)
                != v.cam_order.contains(i)) by {
                assert(old(self)@.has(i));
                assert(v.cam_order.contains(i) == old(self)@.cam_order.contains(i));
            }
        }
    }

    /// Puts widget `id`, fixed on the screen, on top of the others.
    pub fn put_on_top_no_cam(&mut self, id: WidgetId)
        requires
            old(self)@.wf(),
            old(self)@.no_cam_order.contains(id),
        ensures
            final(self)@ == (ManagerView {
                no_cam_order: moved_on_top(old(self)@.no_cam_order, id),
                ..old(self)@
            }),
            final(self)@.wf(),
    {
        proof {
            lemma_moved_on_top(self@.no_cam_order, id);
        }
        move_on_top(&mut self.no_cam_order, id);
        proof {
            let v = self@;
            assert forall|j: int| 0 <= j < v.no_cam_order.len() implies v.has(#[trigger] v.no_cam_order[j]) by {
                assert(v.no_cam_order.contains(v.no_cam_order[j]));
                assert(old(self)@.no_cam_order.contains(v.no_cam_order[j]));
            }
            assert forall|i: WidgetId| #[trigger] v.has(i) implies (v.no_cam_order.contains(i)
                != v.cam_order.contains(i)) by {
                assert(old(self)@.has(i));
                assert(v.no_cam_order.contains(i) == old(self)@.no_cam_order.contains(i));
            }
        }
    }
}

/// Removing an element from a duplicate-free order.
proof fn lemma_removed(order: Seq<WidgetId>, id: WidgetId)
    requires
        order.contains(id),
        order.no_duplicates(),
    ensures
        order.remove(order.index_of(id)).no_duplicates(),
        forall|x: WidgetId| #[trigger] order.remove(order.index_of(id)).contains(x) == (order.contains(x) && x != id),
{
    let k = order.index_of(id);
    let r = order.remove(k);
    assert forall|x: WidgetId| #[trigger] r.contains(x) == (order.contains(x) && x != id) by {
        if r.contains(x) {
            let j = choose|j: int| 0 <= j < r.len() && r[j] == x;
            if j < k {
                assert(order[j] == x);
                assert(j != k);
            } else {
                assert(order[j + 1] == x);
                assert(j + 1 != k);
            }
        }
        if order.contains(x) && x != id {
            let j = choose|j: int| 0 <= j < order.len() && order[j] == x;
            if j < k {
                assert(r[j] == x);
            } else {
                assert(j != k);
                assert(r[j - 1] == x);
            }
        }
    }
    assert forall|a: int, b: int| 0 <= a < r.len() && 0 <= b < r.len() && a != b implies r[a] != r[b] by {
        let oa = if a < k { a } else { a + 1 };
        let ob = if b < k { b } else { b + 1 };
        assert(r[a] == order[oa]);
        assert(r[b] == order[ob]);
    }
}

/// `order` without `id`, when it holds it.
pub open spec fn without(order: Seq<WidgetId>, id: WidgetId) -> Seq<WidgetId> {
    if order.contains(id) {
        order.remove(order.index_of(id))
    } else {
        order
    }
}

/// Widget `id` gone: out of its order, no longer focused nor hovered.
pub open spec fn removed(v: ManagerView, id: WidgetId) -> ManagerView {
    ManagerView {
        widgets: v.widgets.update(id as int, None),
        no_cam_order: without(v.no_cam_order, id),
        cam_order: without(v.cam_order, id),
        focused: if v.focused == Some(id) {
            None
        } else {
            v.focused
        },
        hovered: if v.hovered == Some(id) {
            None
        } else {
            v.hovered
        },
        ..v
    }
}

impl Manager {
    /// Removes widget `id`.
    pub fn remove_widget(&mut self, id: WidgetId)
        requires
            old(self)@.wf(),
            old(self)@.has(id),
        ensures
            final(self)@ == removed(old(self)@, id),
            final(self)@.wf(),
    {
        let ghost v0 = self@;
        if self.widget_has_no_camera(id) {
            proof {
                lemma_removed(self@.no_cam_order, id);
            }
            let index = position(&self.no_cam_order, id);
            self.no_cam_order.remove(index);
        } else {
            proof {
                lemma_removed(self@.cam_order, id);
            }
            let index = position(&self.cam_order, id);
            self.cam_order.remove(index);
        }
        self.widgets.set(id as usize, None);
        if self.focused_widget_id == Some(id) {
            self.focused_widget_id = None;
        }
        if self.hovered_widget_id == Some(id) {
            self.hovered_widget_id = None;
        }
        proof {
            let v = self@;
            let r = removed(v0, id);
            assert(v.widgets =~= r.widgets);
            assert(v == r);
            assert(!v.has(id));
            assert forall|i: WidgetId| #[trigger] v.has(i) implies v.base(i).id == i by {
                assert(v0.has(i));
            }
            assert forall|j: int| 0 <= j < v.no_cam_order.len() implies v.has(#[trigger] v.no_cam_order[j]) by {
                let x = v.no_cam_order[j];
                assert(v.no_cam_order.contains(x));
                assert(v0.no_cam_order.contains(x) && x != id);
                let k = choose|k: int| 0 <= k < v0.no_cam_order.len() && v0.no_cam_order[k] == x;
                assert(v0.has(v0.no_cam_order[k]));
            }
            assert forall|j: int| 0 <= j < v.cam_order.len() implies v.has(#[trigger] v.cam_order[j]) by {
                let x = v.cam_order[j];
                assert(v.cam_order.contains(x));
                assert(v0.cam_order.contains(x) && x != id);
                let k = choose|k: int| 0 <= k < v0.cam_order.len() && v0.cam_order[k] == x;
                assert(v0.has(v0.cam_order[k]));
            }
            assert forall|i: WidgetId| #[trigger] v.has(i) implies (v.no_cam_order.contains(i) != v.cam_order.contains(i)) by {
                assert(v0.has(i));
                assert(i != id);
            }
        }
    }

    /// The topmost visible widget of `order` among `hits`.
    fn top_hit(&self, order: &Vec<WidgetId>, hits: &Vec<WidgetId>) -> (r: Option<WidgetId>)
        requires
            self@.wf(),
            forall|j: int| 0 <= j < order@.len() ==> self@.has(#[trigger] order@[j]),
        ensures
            r == top_hit(self@, order@, hits@),
            r matches Some(id) ==> self@.has(id),
    {
        let mut i: usize = order.len();
        proof {
            assert(order@.take(order@.len() as int) =~= order@);
        }
        while i > 0
            invariant
                0 <= i <= order@.len(),
                self@.wf(),
                forall|j: int| 0 <= j < order@.len() ==> self@.has(#[trigger] order@[j]),
                top_hit(self@, order@, hits@) == top_hit(self@, order@.take(i as int), hits@),
            decreases i,
        {
            let id = order[i - 1];
            let mut hit = false;
            let mut k: usize = 0;
            while k < hits.len()
                invariant
                    0 <= k <= hits@.len(),
                    hit == (exists|m: int| 0 <= m < k && hits@[m] == id),
                decreases hits@.len() - k,
            {
                if hits[k] == id {
                    hit = true;
                }
                k = k + 1;
            }
            proof {
                let t = order@.take(i as int);
                assert(t.last() == id);
                assert(t.drop_last() =~= order@.take(i - 1));
            }
            if self.get_widget(id).is_visible() && hit {
                return Some(id);
            }
            i = i - 1;
        }
        proof {
            assert(order@.take(0) =~= Seq::<WidgetId>::empty());
        }
        None
    }

    /// The widget under the mouse, given the widgets that the mouse hits when
    /// fixed on the screen (`hits_no_cam`) and through the camera (`hits_cam`).
    pub fn hovered_candidate(&self, hits_no_cam: &Vec<WidgetId>, hits_cam: &Vec<WidgetId>) -> (r: Option<WidgetId>)
        requires
            self@.wf(),
        ensures
            r == hover_target(self@, hits_no_cam@, hits_cam@),
            r matches Some(id) ==> self@.has(id),
    {
        match self.top_hit(&self.no_cam_order, hits_no_cam) {
            Some(id) => Some(id),
            None => self.top_hit(&self.cam_order, hits_cam),
        }
    }

    /// The widget that gets the focus this frame (see `focus_target`).
    pub fn focus_candidate(&self, input: &Input) -> (r: Option<WidgetId>)
        requires
            self@.wf(),
        ensures
            r == focus_target(self@, *input),
    {
        let ks = &input.keys_state;
        if input.mouse.left_button.is_pressed() {
            if self.focused_widget_id != self.hovered_widget_id {
                self.hovered_widget_id
            } else {
                self.focused_widget_id
            }
        } else if ks.escape.is_pressed() {
            None
        } else if ks.tab.is_pressed() {
            match self.focused_widget_id {
                Some(f) => {
                    proof {
                        assert(self@.has(f));
                    }
                    Some(
                        if ks.lshift.is_down() || ks.rshift.is_down() {
                            if f == 0 {
                                self.id_counter - 1
                            } else {
                                f - 1
                            }
                        } else {
                            if f == self.id_counter - 1 {
                                0
                            } else {
                                f + 1
                            }
                        },
                    )
                },
                None => None,
            }
        } else {
            self.focused_widget_id
        }
    }

    /// The focus and hover part of a frame: a click, escape or tab moves the
    /// focus; a mouse move (left button not held) moves the hover to the
    /// widget under the mouse. Returns whether something changed and the
    /// events, focus events first.
    pub fn update(&mut self, input: &Input, hits_no_cam: &Vec<WidgetId>, hits_cam: &Vec<WidgetId>) -> (r: ManagerUpdate)
        requires
            old(self)@.wf(),
            parents_exist(old(self)@),
            focus_target(old(self)@, *input) matches Some(t) ==> old(self)@.has(t),
        ensures
            final(self)@.wf(),
            ({
                let v0 = old(self)@;
                let t = focus_target(v0, *input);
                let (v1, e1) = if t != v0.focused {
                    move_flag(v0, Channel::Focus, t)
                } else {
                    (v0, Seq::empty())
                };
                let h = hover_target(v1, hits_no_cam@, hits_cam@);
                let hover_moves = hover_recomputed(*input) && h != v1.hovered;
                let (v2, e2) = if hover_moves {
                    move_flag(v1, Channel::Hover, h)
                } else {
                    (v1, Seq::empty())
                };
                &&& final(self)@ == v2
                &&& r.events@ == e1 + e2
                &&& r.changed == (t != v0.focused || hover_moves)
            }),
    {
        let ghost v0 = self@;
        let mut changed = false;
        let mut events: Vec<WidgetEvent> = Vec::new();
        let new_focused = self.focus_candidate(input);
        if new_focused != self.focused_widget_id {
            proof {
                if let Some(f) = v0.focused {
                    assert(v0.has(f));
                }
            }
            events = self.update_focused_widget(new_focused);
            changed = true;
        }
        let ghost v1 = self@;
        let ghost e1 = events@;
        assert(parents_exist(v1)) by {
            assert forall|i: WidgetId| #[trigger] v1.has(i) && v1.parent(i) is Some implies v1.has(v1.parent(i).unwrap()) by {
                assert(v0.has(i));
            }
        }
        if input.mouse.moved() && !input.mouse.left_button.is_down() {
            let new_hovered = self.hovered_candidate(hits_no_cam, hits_cam);
            if new_hovered != self.hovered_widget_id {
                proof {
                    if let Some(h) = v1.hovered {
                        assert(v1.has(h));
                    }
                }
                let mut more = self.update_hovered_widget(new_hovered);
                events.append(&mut more);
                changed = true;
            }
        }
        proof {
            assert(events@ =~= e1 + (events@.subrange(e1.len() as int, events@.len() as int)));
        }
        ManagerUpdate { changed, events }
    }

    /// The focused widget is hovered and scrolls: it takes the wheel, the
    /// camera does not.
    pub fn focused_takes_scroll(&self) -> (r: bool)
        requires
            self@.wf(),
        ensures
            r == (self@.focused matches Some(f) && self@.hovered == Some(f) && self@.base(f).has_scroll),
    {
        match self.focused_widget_id {
            Some(f) => self.hovered_widget_id == Some(f) && self.get_widget(f).has_scroll(),
            None => false,
        }
    }

    /// Runs the commands that the widgets pushed (see `run_commands_spec`).
    pub fn run_commands(&mut self) -> (events: Vec<WidgetEvent>)
        requires
            old(self)@.wf(),
            commands_ok(old(self)@, old(self)@.commands),
        ensures
            final(self)@ == run_commands_spec(old(self)@, old(self)@.commands).0,
            events@ == run_commands_spec(old(self)@, old(self)@.commands).1,
            final(self)@.wf(),
    {
        let ghost v0 = self@;
        let ghost cmds = self@.commands;
        let mut events: Vec<WidgetEvent> = Vec::new();
        let mut i: usize = 0;
        proof {
            assert(cmds.skip(0) =~= cmds);
            let (vf, ef) = run_commands_spec(self@, cmds);
            assert(events@ + ef =~= ef);
        }
        while i < self.commands.len()
            invariant
                0 <= i <= cmds.len(),
                self@.commands == cmds,
                self@.wf(),
                commands_ok(self@, cmds.skip(i as int)),
                run_commands_spec(v0, cmds) == ({
                    let (vf, ef) = run_commands_spec(self@, cmds.skip(i as int));
                    (vf, events@ + ef)
                }),
            decreases cmds.len() - i,
        {
            let cmd = self.commands[i];
            let ghost vi = self@;
            let ghost ei = events@;
            proof {
                assert(cmds.skip(i as int)[0] == cmd);
                assert(cmds.skip(i as int).drop_first() =~= cmds.skip(i + 1));
            }
            match cmd {
                Command::UnfocusWidget => {
                    if let Some(f) = self.focused_widget_id {
                        events.push(WidgetEvent::Unfocus(f));
                        proof {
                            lemma_with_flag_keeps(self@, f, Channel::Focus, false);
                        }
                        self.set_flag(f, Channel::Focus, false);
                        proof {
                            lemma_with_current(self@, Channel::Focus, None);
                        }
                        self.focused_widget_id = None;
                    }
                },
                Command::PutOnTopCam { id } => {
                    proof {
                        assert(commands_ok(vi, cmds.skip(i as int)));
                        assert(match cmds.skip(i as int)[0] {
                            Command::PutOnTopCam { id } => vi.cam_order.contains(id),
                            _ => true,
                        });
                        lemma_moved_on_top(vi.cam_order, id);
                    }
                    self.put_on_top_cam(id);
                },
                Command::PutOnTopNoCam { id } => {
                    proof {
                        assert(match cmds.skip(i as int)[0] {
                            Command::PutOnTopNoCam { id } => vi.no_cam_order.contains(id),
                            _ => true,
                        });
                        lemma_moved_on_top(vi.no_cam_order, id);
                    }
                    self.put_on_top_no_cam(id);
                },
            }
            proof {
                let rest = cmds.skip(i + 1);
                assert forall|j: int| 0 <= j < rest.len() implies match #[trigger] rest[j] {
                    Command::PutOnTopCam { id } => self@.cam_order.contains(id),
                    Command::PutOnTopNoCam { id } => self@.no_cam_order.contains(id),
                    Command::UnfocusWidget => true,
                } by {
                    assert(rest[j] == cmds.skip(i as int)[j + 1]);
                    match rest[j] {
                        Command::PutOnTopCam { id } => {
                            assert(vi.cam_order.contains(id));
                            if let Command::PutOnTopCam { id: m } = cmd {
                                lemma_moved_on_top(vi.cam_order, m);
                            }
                        },
                        Command::PutOnTopNoCam { id } => {
                            assert(vi.no_cam_order.contains(id));
                            if let Command::PutOnTopNoCam { id: m } = cmd {
                                lemma_moved_on_top(vi.no_cam_order, m);
                            }
                        },
                        Command::UnfocusWidget => {},
                    }
                }
                assert(events@ =~= ei + run_commands_spec(vi, seq![cmd]).1) by {
                    reveal_with_fuel(run_commands_spec, 2);
                }
                reveal_with_fuel(run_commands_spec, 2);
                let (vf, ef) = run_commands_spec(self@, rest);
                assert(run_commands_spec(vi, cmds.skip(i as int)) == (vf, run_commands_spec(vi, seq![cmd]).1 + ef));
                assert(events@ + ef =~= ei + (run_commands_spec(vi, seq![cmd]).1 + ef));
            }
            i = i + 1;
        }
        proof {
            assert(cmds.skip(i as int) =~= Seq::<Command>::empty());
            assert(events@ + Seq::<WidgetEvent>::empty() =~= events@);
        }
        events
    }
}

/// The flag of `ch` of widget `id`.
pub open spec fn flag(v: ManagerView, id: WidgetId, ch: Channel) -> bool {
    match ch {
        Channel::Focus => v.base(id).focused,
        Channel::Hover => v.base(id).hovered,
    }
}

proof fn lemma_set_flags(v: ManagerView, ids: Seq<WidgetId>, ch: Channel, b: bool)
    requires
        v.wf(),
        forall|k: int| 0 <= k < ids.len() ==> v.has(#[trigger] ids[k]),
    ensures
        set_flags(v, ids, ch, b).wf(),
        set_flags(v, ids, ch, b).current(ch) == v.current(ch),
        forall|i: WidgetId| #[trigger] set_flags(v, ids, ch, b).has(i) == v.has(i),
        forall|i: WidgetId| v.has(i) ==> #[trigger] set_flags(v, ids, ch, b).parent(i) == v.parent(i),
        forall|i: WidgetId|
            v.has(i) ==> #[trigger] flag(set_flags(v, ids, ch, b), i, ch) == if ids.contains(i) {
                b
            } else {
                flag(v, i, ch)
            },
    decreases ids.len(),
{
    if ids.len() > 0 {
        let x = ids[0];
        let w = v.with_flag(x, ch, b);
        lemma_with_flag_keeps(v, x, ch, b);
        let rest = ids.drop_first();
        assert forall|k: int| 0 <= k < rest.len() implies w.has(#[trigger] rest[k]) by {
            assert(rest[k] == ids[k + 1]);
        }
        lemma_set_flags(w, rest, ch, b);
        assert forall|i: WidgetId| v.has(i) implies #[trigger] flag(set_flags(v, ids, ch, b), i, ch) == if ids.contains(i) {
            b
        } else {
            flag(v, i, ch)
        } by {
            assert(flag(w, i, ch) == if i == x { b } else { flag(v, i, ch) });
            if rest.contains(i) {
                let k = choose|k: int| 0 <= k < rest.len() && rest[k] == i;
                assert(ids[k + 1] == i);
            }
            if ids.contains(i) && i != x {
                let k = choose|k: int| 0 <= k < ids.len() && ids[k] == i;
                assert(rest[k - 1] == i);
            }
            if i == x {
                assert(ids[0] == i);
            }
        }
    } else {
        assert forall|i: WidgetId| v.has(i) implies #[trigger] flag(set_flags(v, ids, ch, b), i, ch) == if ids.contains(i) {
            b
        } else {
            flag(v, i, ch)
        } by {
            assert(!ids.contains(i));
        }
    }
}

/// Moving a flag (the focus or the hover) to a widget gives it that flag
/// and makes it the current one; the widget that had it before loses it,
/// unless it is the new widget or the new widget's parent.
pub proof fn law_flag_moves_to_target(v: ManagerView, ch: Channel, n: WidgetId)
    requires
        v.wf(),
        v.can_flag(n),
        v.current(ch) matches Some(o) ==> v.can_flag(o),
    ensures
        move_flag(v, ch, Some(n)).0.current(ch) == Some(n),
        flag(move_flag(v, ch, Some(n)).0, n, ch),
        v.current(ch) matches Some(o) ==> (o != n && v.parent(n) != Some(o) ==> !flag(
            move_flag(v, ch, Some(n)).0,
            o,
            ch,
        )),
{
    let lose = match v.current(ch) {
        Some(old) => losers(v, old, Some(n)),
        None => Seq::empty(),
    };
    assert forall|k: int| 0 <= k < lose.len() implies v.has(#[trigger] lose[k]) by {}
    lemma_set_flags(v, lose, ch, false);
    let v1 = set_flags(v, lose, ch, false);
    let gain = gainers(v1, Some(n));
    assert forall|k: int| 0 <= k < gain.len() implies v1.has(#[trigger] gain[k]) by {}
    lemma_set_flags(v1, gain, ch, true);
    let v2 = set_flags(v1, gain, ch, true);
    assert(gain[0] == n);
    assert(gain.contains(n));
    let w = v2.with_current(ch, Some(n));
    assert(flag(w, n, ch) == flag(v2, n, ch));
    if let Some(o) = v.current(ch) {
        if o != n && v.parent(n) != Some(o) {
            assert(lose[0] == o);
            assert(lose.contains(o));
            assert(!gain.contains(o)) by {
                if gain.contains(o) {
                    let k = choose|k: int| 0 <= k < gain.len() && gain[k] == o;
                    assert(k == 0 || k == 1);
                }
            }
            assert(flag(w, o, ch) == flag(v2, o, ch));
        }
    }
}

/// A removed widget is gone: it has no place in the drawing orders and is
/// neither focused nor hovered.
pub proof fn law_removed_widget_is_gone(v: ManagerView, id: WidgetId)
    requires
        v.wf(),
        v.has(id),
    ensures
        !removed(v, id).has(id),
        !removed(v, id).no_cam_order.contains(id),
        !removed(v, id).cam_order.contains(id),
        removed(v, id).focused != Some(id),
        removed(v, id).hovered != Some(id),
{
    if v.no_cam_order.contains(id) {
        lemma_removed(v.no_cam_order, id);
    }
    if v.cam_order.contains(id) {
        lemma_removed(v.cam_order, id);
    }
}

/// The widget `id` of `order` is shown and under the mouse.
pub open spec fn shown_hit(v: ManagerView, hits: Seq<WidgetId>, id: WidgetId) -> bool {
    v.base(id).visible && hits.contains(id)
}

/// The topmost hit is a shown widget under the mouse that nothing drawn
/// after it in the order covers: no later widget is both shown and under the
/// mouse. There is none only when no widget of the order is.
pub proof fn law_top_hit_is_topmost(v: ManagerView, order: Seq<WidgetId>, hits: Seq<WidgetId>)
    ensures
        top_hit(v, order, hits) matches Some(id) ==> exists|i: int|
            0 <= i < order.len() && order[i] == id && shown_hit(v, hits, id) && forall|j: int|
                i < j < order.len() ==> !shown_hit(v, hits, #[trigger] order[j]),
        top_hit(v, order, hits) is None ==> forall|j: int|
            0 <= j < order.len() ==> !shown_hit(v, hits, #[trigger] order[j]),
    decreases order.len(),
{
    if order.len() > 0 {
        let rest = order.drop_last();
        law_top_hit_is_topmost(v, rest, hits);
        let last = order.last();
        if shown_hit(v, hits, last) {
            assert(order[order.len() - 1] == last);
        } else {
            assert forall|j: int| 0 <= j < rest.len() implies #[trigger] order[j] == rest[j] by {}
            if let Some(id) = top_hit(v, rest, hits) {
                let i = choose|i: int|
                    0 <= i < rest.len() && rest[i] == id && shown_hit(v, hits, id) && forall|j: int|
                        i < j < rest.len() ==> !shown_hit(v, hits, #[trigger] rest[j]);
                assert(order[i] == id);
                assert forall|j: int| i < j < order.len() implies !shown_hit(v, hits, #[trigger] order[j]) by {
                    if j < rest.len() {
                        assert(order[j] == rest[j]);
                    }
                }
            } else {
                assert forall|j: int| 0 <= j < order.len() implies !shown_hit(v, hits, #[trigger] order[j]) by {
                    if j < rest.len() {
                        assert(order[j] == rest[j]);
                    }
                }
            }
        }
    }
}

/// The hover goes to the topmost shown fixed widget under the mouse; only
/// when there is none does it go to a widget that follows the camera.
pub proof fn law_hover_prefers_fixed_widgets(v: ManagerView, hits_no_cam: Seq<WidgetId>, hits_cam: Seq<WidgetId>)
    ensures
        (exists|j: int| 0 <= j < v.no_cam_order.len() && shown_hit(v, hits_no_cam, #[trigger] v.no_cam_order[j]))
            ==> hover_target(v, hits_no_cam, hits_cam) == top_hit(v, v.no_cam_order, hits_no_cam)
            && hover_target(v, hits_no_cam, hits_cam) is Some,
        (forall|j: int| 0 <= j < v.no_cam_order.len() ==> !shown_hit(v, hits_no_cam, #[trigger] v.no_cam_order[j]))
            ==> hover_target(v, hits_no_cam, hits_cam) == top_hit(v, v.cam_order, hits_cam),
{
    law_top_hit_is_topmost(v, v.no_cam_order, hits_no_cam);
    if let Some(id) = top_hit(v, v.no_cam_order, hits_no_cam) {
        let i = choose|i: int|
            0 <= i < v.no_cam_order.len() && v.no_cam_order[i] == id && shown_hit(v, hits_no_cam, id) && forall|
                j: int,
            | i < j < v.no_cam_order.len() ==> !shown_hit(v, hits_no_cam, #[trigger] v.no_cam_order[j]);
        assert(shown_hit(v, hits_no_cam, v.no_cam_order[i]));
    }
}

} // verus!
