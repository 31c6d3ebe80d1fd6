use vstd::prelude::*;
use crate::widgets::WidgetId;

verus! {

/// Where a bloc sits inside its parent bloc.
#[derive(PartialEq, Eq, Debug, Clone, Copy, Structural)]
pub enum BlocContainer {
    Slot { nth_slot: usize },
    Sequence { nth_sequence: usize, place: usize },
}

/// A place inside a bloc where another bloc can be dropped.
#[derive(PartialEq, Eq, Debug, Clone, Copy, Structural)]
pub struct Container {
    pub bloc_id: WidgetId,
    pub bloc_container: BlocContainer,
}

/// The names offered in the menu that creates blocs.
pub const BLOC_NAMES: [&'static str; 5] = ["Variable assignment", "If else", "Function call", "Sequence", "While"];

/// The kinds of bloc.
#[derive(PartialEq, Eq, Debug, Clone, Copy, Structural)]
pub enum BlocType {
    VariableAssignment,
    IfElse,
    While,
    FunctionCall,
    FunctionDeclaration,
    Sequence,
}

/// The bloc kind that a menu name creates. "While" is listed in the menu but
/// creates nothing yet.
pub open spec fn bloc_type_of_name(name: Seq<char>) -> Option<BlocType> {
    if name == "Variable assignment"@ {
        Some(BlocType::VariableAssignment)
    } else if name == "If else"@ {
        Some(BlocType::IfElse)
    } else if name == "Function call"@ {
        Some(BlocType::FunctionCall)
    } else if name == "Sequence"@ {
        Some(BlocType::Sequence)
    } else {
        None
    }
}

/// How many slots and sequences a new bloc of a kind has. Blocs of the kinds
/// `While` and `FunctionDeclaration` cannot be made yet.
pub open spec fn bloc_parts(kind: BlocType) -> (usize, usize) {
    match kind {
        BlocType::VariableAssignment => (1, 0),
        BlocType::IfElse => (1, 2),
        BlocType::FunctionCall => (5, 0),
        _ => (0, 1),
    }
}

impl BlocType {
    /// The number of slots and of sequences of a new bloc of this kind.
    pub fn parts(&self) -> (r: (usize, usize))
        requires
            *self != BlocType::While,
            *self != BlocType::FunctionDeclaration,
        ensures
            r == bloc_parts(*self),
    {
        match self {
            BlocType::VariableAssignment => (1, 0),
            BlocType::IfElse => (1, 2),
            BlocType::FunctionCall => (5, 0),
            _ => (0, 1),
        }
    }

    pub fn from_string(string: String) -> (r: Option<Self>)
        ensures
            r == bloc_type_of_name(string@),
    {
        if string == String::from_str("Variable assignment") {
            Some(BlocType::VariableAssignment)
        } else if string == String::from_str("If else") {
            Some(BlocType::IfElse)
        } else if string == String::from_str("Function call") {
            Some(BlocType::FunctionCall)
        } else if string == String::from_str("Sequence") {
            Some(BlocType::Sequence)
        } else {
            None
        }
    }
}

/// The container of `place` in sequence `nth` of bloc `bloc_id`.
pub open spec fn in_sequence(bloc_id: WidgetId, nth: usize, place: usize) -> Container {
    Container { bloc_id, bloc_container: BlocContainer::Sequence { nth_sequence: nth, place } }
}

/// The place that a container gives in sequence `nth` of bloc `bloc_id`, if
/// it is in that sequence.
pub open spec fn place_in(c: Option<Container>, bloc_id: WidgetId, nth: usize) -> Option<usize> {
    match c {
        Some(Container { bloc_id: b, bloc_container: BlocContainer::Sequence { nth_sequence: n, place: p } }) => {
            if b == bloc_id && n == nth {
                Some(p)
            } else {
                None
            }
        },
        _ => None,
    }
}

/// `parents[id]` is the container of bloc `id`. The blocs of sequence `nth`
/// of bloc `bloc_id` are `childs`, in order: each one records its own place,
/// and a bloc that records a place in this sequence stands at that place.
pub open spec fn placed(
    parents: Seq<Option<Container>>,
    childs: Seq<WidgetId>,
    bloc_id: WidgetId,
    nth: usize,
) -> bool {
    &&& forall|k: int|
        0 <= k < childs.len() ==> #[trigger] childs[k] < parents.len() && parents[childs[k] as int]
            == Some(in_sequence(bloc_id, nth, k as usize))
    &&& forall|id: int|
        0 <= id < parents.len() && (#[trigger] place_in(parents[id], bloc_id, nth)) is Some ==> place_in(
            parents[id],
            bloc_id,
            nth,
        )->0 < childs.len() && childs[place_in(parents[id], bloc_id, nth)->0 as int] == id
}

/// A container after the blocs of sequence `nth` of bloc `bloc_id` at places
/// in `[from, upto)` move by `shift` places.
pub open spec fn shift_one(
    c: Option<Container>,
    bloc_id: WidgetId,
    nth: usize,
    from: int,
    upto: int,
    shift: int,
) -> Option<Container> {
    match c {
        Some(Container { bloc_id: b, bloc_container: BlocContainer::Sequence { nth_sequence: n, place: p } }) => {
            if b == bloc_id && n == nth && from <= p < upto {
                Some(in_sequence(b, n, (p + shift) as usize))
            } else {
                c
            }
        },
        _ => c,
    }
}

/// The containers after a bloc moves: blocs of the same sequence from `from`
/// on move by `shift` places; the others keep theirs.
pub open spec fn shifted(
    parents: Seq<Option<Container>>,
    bloc_id: WidgetId,
    nth: usize,
    from: int,
    shift: int,
) -> Seq<Option<Container>> {
    Seq::new(parents.len(), |id: int| shift_one(parents[id], bloc_id, nth, from, usize::MAX + 1, shift))
}

/// Puts bloc `child` in sequence `nth` of bloc `parent.bloc_id`, at `place`:
/// the blocs from that place on move one place down.
fn attach_in_sequence(
    parents: &mut Vec<Option<Container>>,
    childs: &mut Vec<WidgetId>,
    parent: Container,
    child: WidgetId,
)
    requires
        parent.bloc_container matches BlocContainer::Sequence { nth_sequence, place } && place
            <= old(childs)@.len() && placed(old(parents)@, old(childs)@, parent.bloc_id, nth_sequence),
        child < old(parents)@.len(),
        !old(childs)@.contains(child),
        old(childs)@.len() + 1 < usize::MAX,
    ensures
        parent.bloc_container matches BlocContainer::Sequence { nth_sequence, place } && {
            &&& final(childs)@ == old(childs)@.insert(place as int, child)
            &&& final(parents)@ == shifted(old(parents)@, parent.bloc_id, nth_sequence, place as int, 1).update(
                child as int,
                Some(parent),
            )
        },
{
    let (nth, place) = match parent.bloc_container {
        BlocContainer::Sequence { nth_sequence, place } => (nth_sequence, place),
        BlocContainer::Slot { .. } => (0, 0),
    };
    let ghost p0 = parents@;
    let ghost c0 = childs@;
    let mut k = place;
    while k < childs.len()
        invariant
            place <= k <= childs.len(),
            childs@ == c0,
            parents@.len() == p0.len(),
            placed(p0, c0, parent.bloc_id, nth),
            forall|id: int|
                0 <= id < p0.len() ==> #[trigger] parents@[id] == shift_one(p0[id], parent.bloc_id, nth, place as int, k as int, 1),
        decreases childs.len() - k,
    {
        let id = childs[k];
        assert(p0[id as int] == Some(in_sequence(parent.bloc_id, nth, k)));
        parents.set(id as usize, Some(Container {
            bloc_id: parent.bloc_id,
            bloc_container: BlocContainer::Sequence { nth_sequence: nth, place: k + 1 },
        }));
        assert forall|j: int| 0 <= j < p0.len() implies #[trigger] parents@[j] == shift_one(
            p0[j],
            parent.bloc_id,
            nth,
            place as int,
            k + 1,
            1,
        ) by {
            if j != id as int {
                if place_in(p0[j], parent.bloc_id, nth) is Some {
                    assert(c0[place_in(p0[j], parent.bloc_id, nth)->0 as int] == j);
                }
            }
        }
        k = k + 1;
    }
    assert forall|j: int| 0 <= j < p0.len() implies #[trigger] parents@[j] == shift_one(
        p0[j],
        parent.bloc_id,
        nth,
        place as int,
        usize::MAX + 1,
        1,
    ) by {
        if place_in(p0[j], parent.bloc_id, nth) is Some {
            assert(c0[place_in(p0[j], parent.bloc_id, nth)->0 as int] == j);
        }
    }
    parents.set(child as usize, Some(parent));
    childs.insert(place, child);
    assert(parents@ =~= shifted(p0, parent.bloc_id, nth, place as int, 1).update(child as int, Some(parent)));
}

/// Takes bloc `child` out of place `place` of sequence `nth` of bloc
/// `parent.bloc_id`: the blocs after it move one place up.
fn detach_from_sequence(
    parents: &mut Vec<Option<Container>>,
    childs: &mut Vec<WidgetId>,
    parent: Container,
    child: WidgetId,
)
    requires
        parent.bloc_container matches BlocContainer::Sequence { nth_sequence, place } && place
            < old(childs)@.len() && old(childs)@[place as int] == child && placed(
            old(parents)@,
            old(childs)@,
            parent.bloc_id,
            nth_sequence,
        ),
    ensures
        parent.bloc_container matches BlocContainer::Sequence { nth_sequence, place } && {
            &&& final(childs)@ == old(childs)@.remove(place as int)
            &&& final(parents)@ == shifted(old(parents)@, parent.bloc_id, nth_sequence, place + 1, -1).update(
                child as int,
                None,
            )
        },
{
    let (nth, place) = match parent.bloc_container {
        BlocContainer::Sequence { nth_sequence, place } => (nth_sequence, place),
        BlocContainer::Slot { .. } => (0, 0),
    };
    let ghost p0 = parents@;
    let ghost c0 = childs@;
    let len = childs.len();
    assert(place < len);
    let mut k = place + 1;
    while k < childs.len()
        invariant
            place + 1 <= k <= childs.len(),
            childs@ == c0,
            parents@.len() == p0.len(),
            placed(p0, c0, parent.bloc_id, nth),
            forall|j: int|
                0 <= j < p0.len() ==> #[trigger] parents@[j] == shift_one(p0[j], parent.bloc_id, nth, place + 1, k as int, -1),
        decreases childs.len() - k,
    {
        let id = childs[k];
        assert(p0[id as int] == Some(in_sequence(parent.bloc_id, nth, k)));
        parents.set(id as usize, Some(Container {
            bloc_id: parent.bloc_id,
            bloc_container: BlocContainer::Sequence { nth_sequence: nth, place: k - 1 },
        }));
        assert forall|j: int| 0 <= j < p0.len() implies #[trigger] parents@[j] == shift_one(
            p0[j],
            parent.bloc_id,
            nth,
            place + 1,
            k + 1,
            -1,
        ) by {
            if j != id as int {
                if place_in(p0[j], parent.bloc_id, nth) is Some {
                    assert(c0[place_in(p0[j], parent.bloc_id, nth)->0 as int] == j);
                }
            }
        }
        k = k + 1;
    }
    assert forall|j: int| 0 <= j < p0.len() implies #[trigger] parents@[j] == shift_one(
        p0[j],
        parent.bloc_id,
        nth,
        place + 1,
        usize::MAX + 1,
        -1,
    ) by {
        if place_in(p0[j], parent.bloc_id, nth) is Some {
            assert(c0[place_in(p0[j], parent.bloc_id, nth)->0 as int] == j);
        }
    }
    assert(c0[place as int] == child);
    parents.set(child as usize, None);
    childs.remove(place);
    assert(parents@ =~= shifted(p0, parent.bloc_id, nth, place + 1, -1).update(child as int, None));
}

/// Puts bloc `child` in a slot of bloc `parent.bloc_id`.
fn attach_in_slot(
    parents: &mut Vec<Option<Container>>,
    slot_child: &mut Option<WidgetId>,
    parent: Container,
    child: WidgetId,
)
    requires
        child < old(parents)@.len(),
    ensures
        *final(slot_child) == Some(child),
        final(parents)@ == old(parents)@.update(child as int, Some(parent)),
{
    parents.set(child as usize, Some(parent));
    *slot_child = Some(child);
}

/// Takes bloc `child` out of its slot.
fn detach_from_slot(parents: &mut Vec<Option<Container>>, slot_child: &mut Option<WidgetId>, child: WidgetId)
    requires
        child < old(parents)@.len(),
    ensures
        *final(slot_child) == None::<WidgetId>,
        final(parents)@ == old(parents)@.update(child as int, None),
{
    parents.set(child as usize, None);
    *slot_child = None;
}

/// A slot of a bloc: a text input, or a bloc put in its place.
pub struct Slot {
    text_input_id: WidgetId,
    child_id: Option<WidgetId>,
}

impl Slot {
    pub closed spec fn text_input(&self) -> WidgetId {
        self.text_input_id
    }

    pub closed spec fn child(&self) -> Option<WidgetId> {
        self.child_id
    }

    /// An empty slot showing the text input `text_input_id`.
    pub fn new(text_input_id: WidgetId) -> (r: Self)
        ensures
            r.text_input() == text_input_id,
            r.child() is None,
    {
        Slot { text_input_id, child_id: None }
    }

    pub fn has_child(&self) -> (r: bool)
        ensures
            r == self.child() is Some,
    {
        self.child_id.is_some()
    }

    pub fn set_child(&mut self, child_id: Option<WidgetId>)
        ensures
            final(self).child() == child_id,
            final(self).text_input() == old(self).text_input(),
    {
        self.child_id = child_id;
    }

    /// The widget shown in the slot: its bloc, else its text input.
    pub fn get_id(&self) -> (r: WidgetId)
        ensures
            r == match self.child() {
                Some(c) => c,
                None => self.text_input(),
            },
    {
        match self.child_id {
            Some(c) => c,
            None => self.text_input_id,
        }
    }

    pub fn get_text_input_id(&self) -> (r: WidgetId)
        ensures
            r == self.text_input(),
    {
        self.text_input_id
    }
}

/// A sequence of a bloc: the blocs it holds, in order.
pub struct Sequence {
    childs_ids: Vec<WidgetId>,
}

impl Sequence {
    pub closed spec fn childs(&self) -> Seq<WidgetId> {
        self.childs_ids@
    }

    /// An empty sequence.
    pub fn new() -> (r: Self)
        ensures
            r.childs() == Seq::<WidgetId>::empty(),
    {
        Sequence { childs_ids: Vec::new() }
    }

    pub fn get_childs_ids(&self) -> (r: &Vec<WidgetId>)
        ensures
            r@ == self.childs(),
    {
        &self.childs_ids
    }
}

/// Puts bloc `child` in container `parent` (`connection`), or takes it out
/// of it. `slots` and `sequences` are those of the parent bloc. In a
/// sequence, the blocs after the place move down one place when a bloc comes
/// in, and up one place when it leaves; every bloc records its container in
/// `parents`.
pub fn set_parent_and_child(
    parents: &mut Vec<Option<Container>>,
    slots: &mut Vec<Slot>,
    sequences: &mut Vec<Sequence>,
    parent: Container,
    child: WidgetId,
    connection: bool,
)
    requires
        child < old(parents)@.len(),
        match parent.bloc_container {
            BlocContainer::Slot { nth_slot } => nth_slot < old(slots)@.len(),
            BlocContainer::Sequence { nth_sequence, place } => {
                &&& nth_sequence < old(sequences)@.len()
                &&& placed(old(parents)@, old(sequences)@[nth_sequence as int].childs(), parent.bloc_id, nth_sequence)
                &&& old(sequences)@[nth_sequence as int].childs().len() + 1 < usize::MAX
                &&& if connection {
                    place <= old(sequences)@[nth_sequence as int].childs().len()
                        && !old(sequences)@[nth_sequence as int].childs().contains(child)
                } else {
                    place < old(sequences)@[nth_sequence as int].childs().len()
                        && old(sequences)@[nth_sequence as int].childs()[place as int] == child
                }
            },
        },
    ensures
        match parent.bloc_container {
            BlocContainer::Slot { nth_slot } => {
                &&& final(parents)@ == old(parents)@.update(
                    child as int,
                    if connection { Some(parent) } else { None },
                )
                &&& final(slots)@.len() == old(slots)@.len()
                &&& final(slots)@[nth_slot as int].child() == if connection { Some(child) } else { None }
                &&& final(slots)@[nth_slot as int].text_input() == old(slots)@[nth_slot as int].text_input()
                &&& forall|i: int| 0 <= i < old(slots)@.len() && i != nth_slot ==> final(slots)@[i] == old(slots)@[i]
                &&& final(sequences)@ == old(sequences)@
            },
            BlocContainer::Sequence { nth_sequence, place } => {
                &&& final(slots)@ == old(slots)@
                &&& final(sequences)@.len() == old(sequences)@.len()
                &&& forall|i: int|
                    0 <= i < old(sequences)@.len() && i != nth_sequence ==> final(sequences)@[i] == old(sequences)@[i]
                &&& if connection {
                    &&& final(sequences)@[nth_sequence as int].childs() == old(sequences)@[nth_sequence as int].childs().insert(
                        place as int,
                        child,
                    )
                    &&& final(parents)@ == shifted(old(parents)@, parent.bloc_id, nth_sequence, place as int, 1).update(
                        child as int,
                        Some(parent),
                    )
                } else {
                    &&& final(sequences)@[nth_sequence as int].childs() == old(sequences)@[nth_sequence as int].childs().remove(
                        place as int,
                    )
                    &&& final(parents)@ == shifted(old(parents)@, parent.bloc_id, nth_sequence, place + 1, -1).update(
                        child as int,
                        None,
                    )
                }
            },
        },
{
    match parent.bloc_container {
        BlocContainer::Slot { nth_slot } => {
            let mut slot = slots.remove(nth_slot);
            let mut child_slot = slot.child_id;
            if connection {
                attach_in_slot(parents, &mut child_slot, parent, child);
            } else {
                detach_from_slot(parents, &mut child_slot, child);
            }
            slot.child_id = child_slot;
            slots.insert(nth_slot, slot);
        },
        BlocContainer::Sequence { nth_sequence, place: _ } => {
            let mut sequence = sequences.remove(nth_sequence);
            if connection {
                attach_in_sequence(parents, &mut sequence.childs_ids, parent, child);
            } else {
                detach_from_sequence(parents, &mut sequence.childs_ids, parent, child);
            }
            sequences.insert(nth_sequence, sequence);
        },
    }
}

/// The parts of a bloc that hold other widgets: its slots, its sequences and
/// its own widgets (a name field, buttons).
pub struct BlocParts {
    pub slots: Vec<Slot>,
    pub sequences: Vec<Sequence>,
    pub widgets: Vec<WidgetId>,
}

/// The blocs under bloc `id` and the bloc itself, from leaf to root: for each
/// slot in order the blocs under the bloc it holds, then for each sequence in
/// order the blocs under each of its blocs, then `id`. `blocs[i]` holds the
/// parts of bloc `i`; the search goes at most `fuel` levels deep.
pub open spec fn subtree(blocs: Seq<Option<BlocParts>>, id: WidgetId, fuel: nat) -> Seq<WidgetId>
    decreases fuel, 3int, 0int,
{
    if fuel == 0 || id >= blocs.len() || blocs[id as int] is None {
        seq![id]
    } else {
        let p = blocs[id as int].unwrap();
        (slots_subtrees(blocs, p.slots@, p.slots@.len() as int, fuel) + sequences_subtrees(
            blocs,
            p.sequences@,
            p.sequences@.len() as int,
            fuel,
        )).push(id)
    }
}

/// The subtrees of the blocs held by the first `n` slots.
pub open spec fn slots_subtrees(blocs: Seq<Option<BlocParts>>, slots: Seq<Slot>, n: int, fuel: nat) -> Seq<WidgetId>
    decreases fuel, 2int, n,
{
    if n <= 0 || fuel == 0 || n > slots.len() {
        Seq::empty()
    } else {
        slots_subtrees(blocs, slots, n - 1, fuel) + match slots[n - 1].child() {
            Some(c) => subtree(blocs, c, (fuel - 1) as nat),
            None => Seq::empty(),
        }
    }
}

/// The subtrees of the blocs of the first `n` sequences.
pub open spec fn sequences_subtrees(
    blocs: Seq<Option<BlocParts>>,
    sequences: Seq<Sequence>,
    n: int,
    fuel: nat,
) -> Seq<WidgetId>
    decreases fuel, 2int, n,
{
    if n <= 0 || fuel == 0 || n > sequences.len() {
        Seq::empty()
    } else {
        sequences_subtrees(blocs, sequences, n - 1, fuel) + list_subtrees(
            blocs,
            sequences[n - 1].childs(),
            sequences[n - 1].childs().len() as int,
            fuel,
        )
    }
}

/// The subtrees of the first `n` blocs of `ids`.
pub open spec fn list_subtrees(blocs: Seq<Option<BlocParts>>, ids: Seq<WidgetId>, n: int, fuel: nat) -> Seq<WidgetId>
    decreases fuel, 1int, n,
{
    if n <= 0 || fuel == 0 || n > ids.len() {
        Seq::empty()
    } else {
        list_subtrees(blocs, ids, n - 1, fuel) + subtree(blocs, ids[n - 1], (fuel - 1) as nat)
    }
}

fn collect_subtree(blocs: &Vec<Option<BlocParts>>, id: WidgetId, fuel: usize, out: &mut Vec<WidgetId>)
    ensures
        final(out)@ == old(out)@ + subtree(blocs@, id, fuel as nat),
    decreases fuel,
{
    if fuel == 0 || id as usize >= blocs.len() || blocs[id as usize].is_none() {
        out.push(id);
        assert(subtree(blocs@, id, fuel as nat) =~= seq![id]);
        return;
    }
    let ghost start = out@;
    let p = match &blocs[id as usize] {
        Some(p) => p,
        None => {
            assert(false);
            return;
        },
    };
    let mut i: usize = 0;
    while i < p.slots.len()
        invariant
            0 < fuel,
            i <= p.slots@.len(),
            out@ == start + slots_subtrees(blocs@, p.slots@, i as int, fuel as nat),
        decreases p.slots@.len() - i,
    {
        let ghost before = out@;
        if p.slots[i].has_child() {
            let c = p.slots[i].get_id();
            collect_subtree(blocs, c, fuel - 1, out);
        }
        i = i + 1;
        assert(out@ =~= start + slots_subtrees(blocs@, p.slots@, i as int, fuel as nat));
    }
    let ghost mid = out@;
    let mut j: usize = 0;
    while j < p.sequences.len()
        invariant
            0 < fuel,
            j <= p.sequences@.len(),
            mid == start + slots_subtrees(blocs@, p.slots@, p.slots@.len() as int, fuel as nat),
            out@ == mid + sequences_subtrees(blocs@, p.sequences@, j as int, fuel as nat),
        decreases p.sequences@.len() - j,
    {
        let ids = p.sequences[j].get_childs_ids();
        let ghost before = out@;
        let mut k: usize = 0;
        while k < ids.len()
            invariant
                0 < fuel,
                k <= ids@.len(),
                out@ == before + list_subtrees(blocs@, ids@, k as int, fuel as nat),
            decreases ids@.len() - k,
        {
            collect_subtree(blocs, ids[k], fuel - 1, out);
            k = k + 1;
            assert(out@ =~= before + list_subtrees(blocs@, ids@, k as int, fuel as nat));
        }
        j = j + 1;
        assert(out@ =~= mid + sequences_subtrees(blocs@, p.sequences@, j as int, fuel as nat));
    }
    out.push(id);
    assert(out@ =~= start + subtree(blocs@, id, fuel as nat));
}

/// Bloc `id` and the blocs under it, from leaf to root (see `subtree`); as
/// blocs form a tree, searching as deep as there are blocs finds them all.
pub fn get_recursive_childs(blocs: &Vec<Option<BlocParts>>, id: WidgetId) -> (r: Vec<WidgetId>)
    ensures
        r@ == subtree(blocs@, id, blocs@.len()),
{
    let mut out = Vec::new();
    collect_subtree(blocs, id, blocs.len(), &mut out);
    assert(out@ =~= subtree(blocs@, id, blocs@.len()));
    out
}

/// The widgets of bloc `id` and of the blocs under it, from leaf to root:
/// for each slot from the last to the first, the widgets of the bloc it
/// holds or else the slot's text input; then for each sequence from the last
/// to the first, the widgets of its blocs from the last to the first; then
/// the bloc's own widgets; then `id`. The search goes at most `fuel` levels
/// deep.
pub open spec fn widget_subtree(blocs: Seq<Option<BlocParts>>, id: WidgetId, fuel: nat) -> Seq<WidgetId>
    decreases fuel, 3int, 0int,
{
    if fuel == 0 || id >= blocs.len() || blocs[id as int] is None {
        seq![id]
    } else {
        let p = blocs[id as int].unwrap();
        (slots_widgets(blocs, p.slots@, p.slots@.len() as int, fuel) + sequences_widgets(
            blocs,
            p.sequences@,
            p.sequences@.len() as int,
            fuel,
        ) + p.widgets@).push(id)
    }
}

/// The widgets of the last `n` slots, from the last slot on.
pub open spec fn slots_widgets(blocs: Seq<Option<BlocParts>>, slots: Seq<Slot>, n: int, fuel: nat) -> Seq<WidgetId>
    decreases fuel, 2int, n,
{
    if n <= 0 || fuel == 0 || n > slots.len() {
        Seq::empty()
    } else {
        let slot = slots[slots.len() - n];
        slots_widgets(blocs, slots, n - 1, fuel) + match slot.child() {
            Some(c) => widget_subtree(blocs, c, (fuel - 1) as nat),
            None => seq![slot.text_input()],
        }
    }
}

/// The widgets of the blocs of the last `n` sequences, from the last on.
pub open spec fn sequences_widgets(
    blocs: Seq<Option<BlocParts>>,
    sequences: Seq<Sequence>,
    n: int,
    fuel: nat,
) -> Seq<WidgetId>
    decreases fuel, 2int, n,
{
    if n <= 0 || fuel == 0 || n > sequences.len() {
        Seq::empty()
    } else {
        let ids = sequences[sequences.len() - n].childs();
        sequences_widgets(blocs, sequences, n - 1, fuel) + list_widgets(blocs, ids, ids.len() as int, fuel)
    }
}

/// The widgets of the last `n` blocs of `ids`, from the last on.
pub open spec fn list_widgets(blocs: Seq<Option<BlocParts>>, ids: Seq<WidgetId>, n: int, fuel: nat) -> Seq<WidgetId>
    decreases fuel, 1int, n,
{
    if n <= 0 || fuel == 0 || n > ids.len() {
        Seq::empty()
    } else {
        list_widgets(blocs, ids, n - 1, fuel) + widget_subtree(blocs, ids[ids.len() - n], (fuel - 1) as nat)
    }
}

fn collect_widgets(blocs: &Vec<Option<BlocParts>>, id: WidgetId, fuel: usize, out: &mut Vec<WidgetId>)
    ensures
        final(out)@ == old(out)@ + widget_subtree(blocs@, id, fuel as nat),
    decreases fuel,
{
    if fuel == 0 || id as usize >= blocs.len() || blocs[id as usize].is_none() {
        out.push(id);
        assert(widget_subtree(blocs@, id, fuel as nat) =~= seq![id]);
        return;
    }
    let ghost start = out@;
    let p = match &blocs[id as usize] {
        Some(p) => p,
        None => {
            assert(false);
            return;
        },
    };
    let mut i: usize = 0;
    while i < p.slots.len()
        invariant
            0 < fuel,
            i <= p.slots@.len(),
            out@ == start + slots_widgets(blocs@, p.slots@, i as int, fuel as nat),
        decreases p.slots@.len() - i,
    {
        let slot = &p.slots[p.slots.len() - 1 - i];
        if slot.has_child() {
            collect_widgets(blocs, slot.get_id(), fuel - 1, out);
        } else {
            out.push(slot.get_id());
        }
        i = i + 1;
        assert(out@ =~= start + slots_widgets(blocs@, p.slots@, i as int, fuel as nat));
    }
    let ghost mid = out@;
    let mut j: usize = 0;
    while j < p.sequences.len()
        invariant
            0 < fuel,
            j <= p.sequences@.len(),
            mid == start + slots_widgets(blocs@, p.slots@, p.slots@.len() as int, fuel as nat),
            out@ == mid + sequences_widgets(blocs@, p.sequences@, j as int, fuel as nat),
        decreases p.sequences@.len() - j,
    {
        let ids = p.sequences[p.sequences.len() - 1 - j].get_childs_ids();
        let ghost before = out@;
        let mut k: usize = 0;
        while k < ids.len()
            invariant
                0 < fuel,
                k <= ids@.len(),
                out@ == before + list_widgets(blocs@, ids@, k as int, fuel as nat),
            decreases ids@.len() - k,
        {
            collect_widgets(blocs, ids[ids.len() - 1 - k], fuel - 1, out);
            k = k + 1;
            assert(out@ =~= before + list_widgets(blocs@, ids@, k as int, fuel as nat));
        }
        j = j + 1;
        assert(out@ =~= mid + sequences_widgets(blocs@, p.sequences@, j as int, fuel as nat));
    }
    let ghost mid2 = out@;
    let mut w: usize = 0;
    while w < p.widgets.len()
        invariant
            w <= p.widgets@.len(),
            out@ == mid2 + p.widgets@.subrange(0, w as int),
        decreases p.widgets@.len() - w,
    {
        out.push(p.widgets[w]);
        w = w + 1;
        assert(out@ =~= mid2 + p.widgets@.subrange(0, w as int));
    }
    assert(p.widgets@.subrange(0, p.widgets@.len() as int) =~= p.widgets@);
    out.push(id);
    assert(out@ =~= start + widget_subtree(blocs@, id, fuel as nat));
}

/// The widgets of bloc `id` and of the blocs under it, from leaf to root
/// (see `widget_subtree`); as blocs form a tree, searching as deep as there
/// are blocs finds them all.
pub fn get_recursive_widget_childs(blocs: &Vec<Option<BlocParts>>, id: WidgetId) -> (r: Vec<WidgetId>)
    ensures
        r@ == widget_subtree(blocs@, id, blocs@.len()),
{
    let mut out = Vec::new();
    collect_widgets(blocs, id, blocs.len(), &mut out);
    assert(out@ =~= widget_subtree(blocs@, id, blocs@.len()));
    out
}

/// Every element of `a` is one of `b`.
pub open spec fn included(a: Seq<WidgetId>, b: Seq<WidgetId>) -> bool {
    forall|x: WidgetId| a.contains(x) ==> #[trigger] b.contains(x)
}

proof fn lemma_concat_includes(a: Seq<WidgetId>, b: Seq<WidgetId>)
    ensures
        included(a, a + b),
        included(b, a + b),
{
    assert forall|x: WidgetId| a.contains(x) implies #[trigger] (a + b).contains(x) by {
        let i = choose|i: int| 0 <= i < a.len() && a[i] == x;
        assert((a + b)[i] == x);
    }
    assert forall|x: WidgetId| b.contains(x) implies #[trigger] (a + b).contains(x) by {
        let i = choose|i: int| 0 <= i < b.len() && b[i] == x;
        assert((a + b)[a.len() + i] == x);
    }
}

proof fn lemma_list_includes(blocs: Seq<Option<BlocParts>>, ids: Seq<WidgetId>, m: int, fuel: nat, k: int)
    requires
        fuel > 0,
        0 <= k < m <= ids.len(),
    ensures
        included(subtree(blocs, ids[k], (fuel - 1) as nat), list_subtrees(blocs, ids, m, fuel)),
    decreases m,
{
    let prev = list_subtrees(blocs, ids, m - 1, fuel);
    let last = subtree(blocs, ids[m - 1], (fuel - 1) as nat);
    lemma_concat_includes(prev, last);
    if k < m - 1 {
        lemma_list_includes(blocs, ids, m - 1, fuel, k);
    }
}

proof fn lemma_sequences_include(
    blocs: Seq<Option<BlocParts>>,
    sequences: Seq<Sequence>,
    n: int,
    fuel: nat,
    s: int,
    k: int,
)
    requires
        fuel > 0,
        0 <= s < n <= sequences.len(),
        0 <= k < sequences[s].childs().len(),
    ensures
        included(subtree(blocs, sequences[s].childs()[k], (fuel - 1) as nat), sequences_subtrees(blocs, sequences, n, fuel)),
    decreases n,
{
    let prev = sequences_subtrees(blocs, sequences, n - 1, fuel);
    let ids = sequences[n - 1].childs();
    let last = list_subtrees(blocs, ids, ids.len() as int, fuel);
    lemma_concat_includes(prev, last);
    if s < n - 1 {
        lemma_sequences_include(blocs, sequences, n - 1, fuel, s, k);
    } else {
        lemma_list_includes(blocs, ids, ids.len() as int, fuel, k);
    }
}

proof fn lemma_slots_include(blocs: Seq<Option<BlocParts>>, slots: Seq<Slot>, n: int, fuel: nat, t: int)
    requires
        fuel > 0,
        0 <= t < n <= slots.len(),
        slots[t].child() is Some,
    ensures
        included(subtree(blocs, slots[t].child()->0, (fuel - 1) as nat), slots_subtrees(blocs, slots, n, fuel)),
    decreases n,
{
    let prev = slots_subtrees(blocs, slots, n - 1, fuel);
    let last = match slots[n - 1].child() {
        Some(c) => subtree(blocs, c, (fuel - 1) as nat),
        None => Seq::empty(),
    };
    lemma_concat_includes(prev, last);
    if t < n - 1 {
        lemma_slots_include(blocs, slots, n - 1, fuel, t);
    }
}

/// The recursive childs of a bloc end with the bloc itself and hold, one
/// level down, everything under each bloc of each of its sequences and under
/// the bloc of each of its slots; by induction, every bloc at any depth.
pub proof fn law_subtree_holds_nested_blocs(blocs: Seq<Option<BlocParts>>, id: WidgetId, fuel: nat)
    ensures
        subtree(blocs, id, fuel).len() > 0,
        subtree(blocs, id, fuel).last() == id,
        fuel > 0 && id < blocs.len() && blocs[id as int] is Some ==> {
            let p = blocs[id as int].unwrap();
            &&& forall|s: int, k: int|
                0 <= s < p.sequences@.len() && 0 <= k < p.sequences@[s].childs().len() ==> included(
                    #[trigger] subtree(blocs, p.sequences@[s].childs()[k], (fuel - 1) as nat),
                    subtree(blocs, id, fuel),
                )
            &&& forall|t: int|
                0 <= t < p.slots@.len() && (#[trigger] p.slots@[t].child()) is Some ==> included(
                    subtree(blocs, p.slots@[t].child()->0, (fuel - 1) as nat),
                    subtree(blocs, id, fuel),
                )
        },
{
    if fuel > 0 && id < blocs.len() && blocs[id as int] is Some {
        let p = blocs[id as int].unwrap();
        let a = slots_subtrees(blocs, p.slots@, p.slots@.len() as int, fuel);
        let b = sequences_subtrees(blocs, p.sequences@, p.sequences@.len() as int, fuel);
        let whole = subtree(blocs, id, fuel);
        assert(whole == (a + b).push(id));
        lemma_concat_includes(a, b);
        lemma_concat_includes(a + b, seq![id]);
        assert((a + b).push(id) == (a + b) + seq![id]);
        assert forall|s: int, k: int|
            0 <= s < p.sequences@.len() && 0 <= k < p.sequences@[s].childs().len() implies included(
            #[trigger] subtree(blocs, p.sequences@[s].childs()[k], (fuel - 1) as nat),
            whole,
        ) by {
            lemma_sequences_include(blocs, p.sequences@, p.sequences@.len() as int, fuel, s, k);
        }
        assert forall|t: int| 0 <= t < p.slots@.len() && (#[trigger] p.slots@[t].child()) is Some implies included(
            subtree(blocs, p.slots@[t].child()->0, (fuel - 1) as nat),
            whole,
        ) by {
            lemma_slots_include(blocs, p.slots@, p.slots@.len() as int, fuel, t);
        }
    }
}

proof fn lemma_list_widgets_include(blocs: Seq<Option<BlocParts>>, ids: Seq<WidgetId>, m: int, fuel: nat, k: int)
    requires
        fuel > 0,
        m <= ids.len(),
        ids.len() - m <= k < ids.len(),
    ensures
        included(widget_subtree(blocs, ids[k], (fuel - 1) as nat), list_widgets(blocs, ids, m, fuel)),
    decreases m,
{
    let prev = list_widgets(blocs, ids, m - 1, fuel);
    let last = widget_subtree(blocs, ids[ids.len() - m], (fuel - 1) as nat);
    lemma_concat_includes(prev, last);
    if k > ids.len() - m {
        lemma_list_widgets_include(blocs, ids, m - 1, fuel, k);
    }
}

proof fn lemma_sequences_widgets_include(
    blocs: Seq<Option<BlocParts>>,
    sequences: Seq<Sequence>,
    n: int,
    fuel: nat,
    s: int,
    k: int,
)
    requires
        fuel > 0,
        n <= sequences.len(),
        sequences.len() - n <= s < sequences.len(),
        0 <= k < sequences[s].childs().len(),
    ensures
        included(
            widget_subtree(blocs, sequences[s].childs()[k], (fuel - 1) as nat),
            sequences_widgets(blocs, sequences, n, fuel),
        ),
    decreases n,
{
    let prev = sequences_widgets(blocs, sequences, n - 1, fuel);
    let ids = sequences[sequences.len() - n].childs();
    let last = list_widgets(blocs, ids, ids.len() as int, fuel);
    lemma_concat_includes(prev, last);
    if s > sequences.len() - n {
        lemma_sequences_widgets_include(blocs, sequences, n - 1, fuel, s, k);
    } else {
        lemma_list_widgets_include(blocs, ids, ids.len() as int, fuel, k);
    }
}

proof fn lemma_slots_widgets_include(blocs: Seq<Option<BlocParts>>, slots: Seq<Slot>, n: int, fuel: nat, t: int)
    requires
        fuel > 0,
        n <= slots.len(),
        slots.len() - n <= t < slots.len(),
    ensures
        included(
            match slots[t].child() {
                Some(c) => widget_subtree(blocs, c, (fuel - 1) as nat),
                None => seq![slots[t].text_input()],
            },
            slots_widgets(blocs, slots, n, fuel),
        ),
    decreases n,
{
    let slot = slots[slots.len() - n];
    let prev = slots_widgets(blocs, slots, n - 1, fuel);
    let last = match slot.child() {
        Some(c) => widget_subtree(blocs, c, (fuel - 1) as nat),
        None => seq![slot.text_input()],
    };
    lemma_concat_includes(prev, last);
    if t > slots.len() - n {
        lemma_slots_widgets_include(blocs, slots, n - 1, fuel, t);
    }
}

/// The widgets under a bloc end with the bloc itself and hold its own
/// widgets, the text input of each empty slot, and, one level down,
/// everything under the bloc of each slot and under each bloc of each
/// sequence.
pub proof fn law_widget_subtree_holds_nested_widgets(blocs: Seq<Option<BlocParts>>, id: WidgetId, fuel: nat)
    ensures
        widget_subtree(blocs, id, fuel).len() > 0,
        widget_subtree(blocs, id, fuel).last() == id,
        fuel > 0 && id < blocs.len() && blocs[id as int] is Some ==> {
            let p = blocs[id as int].unwrap();
            &&& forall|s: int, k: int|
                0 <= s < p.sequences@.len() && 0 <= k < p.sequences@[s].childs().len() ==> included(
                    #[trigger] widget_subtree(blocs, p.sequences@[s].childs()[k], (fuel - 1) as nat),
                    widget_subtree(blocs, id, fuel),
                )
            &&& forall|t: int|
                0 <= t < p.slots@.len() ==> included(
                    match (#[trigger] p.slots@[t]).child() {
                        Some(c) => widget_subtree(blocs, c, (fuel - 1) as nat),
                        None => seq![p.slots@[t].text_input()],
                    },
                    widget_subtree(blocs, id, fuel),
                )
            &&& included(p.widgets@, widget_subtree(blocs, id, fuel))
        },
{
    if fuel > 0 && id < blocs.len() && blocs[id as int] is Some {
        let p = blocs[id as int].unwrap();
        let a = slots_widgets(blocs, p.slots@, p.slots@.len() as int, fuel);
        let b = sequences_widgets(blocs, p.sequences@, p.sequences@.len() as int, fuel);
        let w = p.widgets@;
        let whole = widget_subtree(blocs, id, fuel);
        assert(whole == (a + b + w) + seq![id]);
        lemma_concat_includes(a, b);
        lemma_concat_includes(a + b, w);
        lemma_concat_includes(a + b + w, seq![id]);
        assert forall|s: int, k: int|
            0 <= s < p.sequences@.len() && 0 <= k < p.sequences@[s].childs().len() implies included(
            #[trigger] widget_subtree(blocs, p.sequences@[s].childs()[k], (fuel - 1) as nat),
            whole,
        ) by {
            lemma_sequences_widgets_include(blocs, p.sequences@, p.sequences@.len() as int, fuel, s, k);
        }
        assert forall|t: int| 0 <= t < p.slots@.len() implies included(
            match (#[trigger] p.slots@[t]).child() {
                Some(c) => widget_subtree(blocs, c, (fuel - 1) as nat),
                None => seq![p.slots@[t].text_input()],
            },
            whole,
        ) by {
            lemma_slots_widgets_include(blocs, p.slots@, p.slots@.len() as int, fuel, t);
        }
    }
}

/// What putting a bloc in or taking it out does to the widgets on screen.
#[derive(PartialEq, Eq, Debug, Clone, Copy, Structural)]
pub enum WidgetEffect {
    Show(WidgetId),
    Hide(WidgetId),
    PutOnTop(WidgetId),
}

/// `ids` from the last to the first, each put on top.
pub open spec fn lifted_on_top(ids: Seq<WidgetId>) -> Seq<WidgetEffect> {
    Seq::new(ids.len(), |i: int| WidgetEffect::PutOnTop(ids[ids.len() - 1 - i]))
}

/// The effects on screen of `set_parent_and_child`. A slot hides its text
/// input when a bloc comes in; when the bloc leaves, the text input shows
/// again and comes on top, followed by the bloc's widgets. After a bloc comes
/// in anywhere, the widgets of the whole program come on top. `lifted` lists
/// the widgets to put on top (the leaving bloc's, or the whole program's),
/// from leaf to root; they come on top from the last to the first.
pub open spec fn connection_effects_spec(
    parent: Container,
    slots: Seq<Slot>,
    connection: bool,
    lifted: Seq<WidgetId>,
) -> Seq<WidgetEffect> {
    let slot_part = match parent.bloc_container {
        BlocContainer::Slot { nth_slot } => {
            let t = slots[nth_slot as int].text_input();
            if connection {
                seq![WidgetEffect::Hide(t)]
            } else {
                seq![WidgetEffect::Show(t), WidgetEffect::PutOnTop(t)]
            }
        },
        BlocContainer::Sequence { .. } => Seq::empty(),
    };
    let lift = if connection || parent.bloc_container is Slot {
        lifted_on_top(lifted)
    } else {
        Seq::empty()
    };
    slot_part + lift
}

/// The effects on screen of putting bloc `child` in `parent` or taking it
/// out (see `connection_effects_spec`); `slots` are those of the parent bloc.
pub fn connection_effects(parent: Container, slots: &Vec<Slot>, connection: bool, lifted: &Vec<WidgetId>) -> (r: Vec<
    WidgetEffect,
>)
    requires
        parent.bloc_container matches BlocContainer::Slot { nth_slot } ==> nth_slot < slots@.len(),
    ensures
        r@ == connection_effects_spec(parent, slots@, connection, lifted@),
{
    let mut r: Vec<WidgetEffect> = Vec::new();
    let is_slot = match parent.bloc_container {
        BlocContainer::Slot { nth_slot } => {
            let t = slots[nth_slot].get_text_input_id();
            if connection {
                r.push(WidgetEffect::Hide(t));
            } else {
                r.push(WidgetEffect::Show(t));
                r.push(WidgetEffect::PutOnTop(t));
            }
            true
        },
        BlocContainer::Sequence { .. } => false,
    };
    let ghost head = r@;
    if connection || is_slot {
        let mut k = lifted.len();
        while k > 0
            invariant
                k <= lifted@.len(),
                r@ == head + lifted_on_top(lifted@).subrange(0, lifted@.len() - k),
            decreases k,
        {
            k = k - 1;
            r.push(WidgetEffect::PutOnTop(lifted[k]));
            assert(lifted_on_top(lifted@).subrange(0, lifted@.len() - k) =~= lifted_on_top(lifted@).subrange(
                0,
                lifted@.len() - k - 1,
            ).push(WidgetEffect::PutOnTop(lifted@[k as int])));
        }
        assert(lifted_on_top(lifted@).subrange(0, lifted@.len() as int) =~= lifted_on_top(lifted@));
    } else {
        assert(r@ =~= head + Seq::<WidgetEffect>::empty());
    }
    proof {
        let spec_head = match parent.bloc_container {
            BlocContainer::Slot { nth_slot } => {
                let t = slots@[nth_slot as int].text_input();
                if connection {
                    seq![WidgetEffect::Hide(t)]
                } else {
                    seq![WidgetEffect::Show(t), WidgetEffect::PutOnTop(t)]
                }
            },
            BlocContainer::Sequence { .. } => Seq::empty(),
        };
        assert(head =~= spec_head);
    }
    r
}

/// Attaching a bloc that is not in the sequence keeps every bloc of the
/// sequence at the place it records, the new one included.
pub proof fn law_attach_keeps_places(
    parents: Seq<Option<Container>>,
    childs: Seq<WidgetId>,
    bloc_id: WidgetId,
    nth: usize,
    place: usize,
    child: WidgetId,
)
    requires
        placed(parents, childs, bloc_id, nth),
        place <= childs.len(),
        childs.len() < usize::MAX,
        child < parents.len(),
        !childs.contains(child),
    ensures
        placed(
            shifted(parents, bloc_id, nth, place as int, 1).update(child as int, Some(in_sequence(bloc_id, nth, place))),
            childs.insert(place as int, child),
            bloc_id,
            nth,
        ),
{
    let sh = shifted(parents, bloc_id, nth, place as int, 1);
    let p1 = sh.update(child as int, Some(in_sequence(bloc_id, nth, place)));
    let c1 = childs.insert(place as int, child);
    assert forall|k: int| 0 <= k < c1.len() implies #[trigger] c1[k] < p1.len() && p1[c1[k] as int] == Some(
        in_sequence(bloc_id, nth, k as usize),
    ) by {
        if k < place {
            let ck = childs[k];
            assert(c1[k] == ck);
            assert(parents[ck as int] == Some(in_sequence(bloc_id, nth, k as usize)));
            assert(ck != child);
            assert(sh[ck as int] == shift_one(parents[ck as int], bloc_id, nth, place as int, usize::MAX + 1, 1));
        } else if k > place {
            let ck = childs[k - 1];
            assert(c1[k] == ck);
            assert(parents[ck as int] == Some(in_sequence(bloc_id, nth, (k - 1) as usize)));
            assert(ck != child);
            assert(sh[ck as int] == shift_one(parents[ck as int], bloc_id, nth, place as int, usize::MAX + 1, 1));
        }
    }
    assert forall|id: int|
        0 <= id < p1.len() && (#[trigger] place_in(p1[id], bloc_id, nth)) is Some implies place_in(
        p1[id],
        bloc_id,
        nth,
    )->0 < c1.len() && c1[place_in(p1[id], bloc_id, nth)->0 as int] == id by {
        if id != child {
            assert(p1[id] == shift_one(parents[id], bloc_id, nth, place as int, usize::MAX + 1, 1));
            let p = place_in(parents[id], bloc_id, nth);
            assert(p is Some);
            assert(childs[p->0 as int] == id);
            if p->0 >= place {
                assert(c1[p->0 + 1] == childs[p->0 as int]);
            } else {
                assert(c1[p->0 as int] == childs[p->0 as int]);
            }
        }
    }
}

/// Detaching a bloc from a sequence keeps every other bloc of it at the
/// place it records.
pub proof fn law_detach_keeps_places(
    parents: Seq<Option<Container>>,
    childs: Seq<WidgetId>,
    bloc_id: WidgetId,
    nth: usize,
    place: usize,
)
    requires
        placed(parents, childs, bloc_id, nth),
        place < childs.len(),
        childs.len() < usize::MAX,
    ensures
        placed(
            shifted(parents, bloc_id, nth, place + 1, -1).update(childs[place as int] as int, None),
            childs.remove(place as int),
            bloc_id,
            nth,
        ),
{
    let child = childs[place as int];
    let sh = shifted(parents, bloc_id, nth, place + 1, -1);
    let p1 = sh.update(child as int, None);
    let c1 = childs.remove(place as int);
    assert(parents[child as int] == Some(in_sequence(bloc_id, nth, place)));
    assert forall|k: int| 0 <= k < c1.len() implies #[trigger] c1[k] < p1.len() && p1[c1[k] as int] == Some(
        in_sequence(bloc_id, nth, k as usize),
    ) by {
        let j = if k < place { k } else { k + 1 };
        let ck = childs[j];
        assert(c1[k] == ck);
        assert(parents[ck as int] == Some(in_sequence(bloc_id, nth, j as usize)));
        assert(ck != child) by {
            if ck == child {
                assert(place_in(parents[child as int], bloc_id, nth) is Some);
            }
        }
        assert(sh[ck as int] == shift_one(parents[ck as int], bloc_id, nth, place + 1, usize::MAX + 1, -1));
    }
    assert forall|id: int|
        0 <= id < p1.len() && (#[trigger] place_in(p1[id], bloc_id, nth)) is Some implies place_in(
        p1[id],
        bloc_id,
        nth,
    )->0 < c1.len() && c1[place_in(p1[id], bloc_id, nth)->0 as int] == id by {
        if id != child {
            assert(p1[id] == shift_one(parents[id], bloc_id, nth, place + 1, usize::MAX + 1, -1));
            let p = place_in(parents[id], bloc_id, nth);
            assert(p is Some);
            assert(childs[p->0 as int] == id);
            if p->0 > place {
                assert(c1[p->0 - 1] == childs[p->0 as int]);
            } else {
                assert(p->0 != place);
                assert(c1[p->0 as int] == childs[p->0 as int]);
            }
        }
    }
}

/// Detaching a bloc just attached at a place gives back the sequence and the
/// containers of the other blocs as they were; the bloc is left with no
/// container.
pub proof fn law_detach_undoes_attach(
    parents: Seq<Option<Container>>,
    childs: Seq<WidgetId>,
    bloc_id: WidgetId,
    nth: usize,
    place: usize,
    child: WidgetId,
)
    requires
        placed(parents, childs, bloc_id, nth),
        place <= childs.len(),
        childs.len() < usize::MAX,
        child < parents.len(),
        !childs.contains(child),
    ensures
        ({
            let p1 = shifted(parents, bloc_id, nth, place as int, 1).update(
                child as int,
                Some(in_sequence(bloc_id, nth, place)),
            );
            let c1 = childs.insert(place as int, child);
            &&& c1.remove(place as int) == childs
            &&& shifted(p1, bloc_id, nth, place + 1, -1).update(child as int, None) == parents.update(
                child as int,
                None,
            )
        }),
{
    let p1 = shifted(parents, bloc_id, nth, place as int, 1).update(child as int, Some(in_sequence(bloc_id, nth, place)));
    let c1 = childs.insert(place as int, child);
    assert(c1.remove(place as int) =~= childs);
    let p2 = shifted(p1, bloc_id, nth, place + 1, -1).update(child as int, None);
    let p0 = parents.update(child as int, None);
    assert forall|id: int| 0 <= id < parents.len() implies #[trigger] p2[id] == p0[id] by {
        if id != child {
            assert(p1[id] == shift_one(parents[id], bloc_id, nth, place as int, usize::MAX + 1, 1));
            assert(p2[id] == shift_one(p1[id], bloc_id, nth, place + 1, usize::MAX + 1, -1));
            if place_in(parents[id], bloc_id, nth) is Some {
                assert(childs[place_in(parents[id], bloc_id, nth)->0 as int] == id);
            }
        }
    }
    assert(p2 =~= p0);
}

} // verus!
