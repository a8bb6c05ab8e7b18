//! The parameter store: the controllable attributes, the selection cursor, and the
//! two operations that change them.

use vstd::prelude::*;
use crate::queue::{offered, OutboundEvent, OutboundQueue, MAX_CHANNEL, MAX_DATA};
use crate::rotary_encoder::clamp_int;

verus! {

/// Shortest time between two button presses that both count, in milliseconds.
pub const BUTTON_DEBOUNCE_MS: u64 = 200;

/// Number of attributes in the store.
pub const ATTRIBUTE_COUNT: usize = 2;

/// One controllable attribute. Everything but `value` is its fixed identity.
#[derive(Copy, Clone, Debug)]
pub struct Attribute {
    /// Label shown to the user.
    pub name: &'static str,
    /// MIDI channel index, `0..=15`.
    pub channel: u8,
    /// MIDI control number, `0..=127`.
    pub control: u8,
    /// Lowest value, inclusive.
    pub min: u8,
    /// Highest value, inclusive, at most 127.
    pub max: u8,
    /// Current value, within `[min, max]`.
    pub value: u8,
}

/// The attribute list of the store.
pub type Attributes = [Attribute; 2];

impl Attribute {
    /// The identity lies in the MIDI ranges and the value within its bounds.
    pub open spec fn wf(self) -> bool {
        &&& self.channel <= MAX_CHANNEL
        &&& self.control <= MAX_DATA
        &&& self.max <= MAX_DATA
        &&& self.min <= self.value <= self.max
    }

    /// The attribute after its value was moved by `delta` and limited to its bounds.
    pub open spec fn adjusted(self, delta: int) -> Attribute {
        Attribute {
            value: clamp_int(self.value as int + delta, self.min as int, self.max as int) as u8,
            ..self
        }
    }

    /// Whether `other` is this attribute but for its value.
    pub open spec fn same_identity(self, other: Attribute) -> bool {
        &&& self.name == other.name
        &&& self.channel == other.channel
        &&& self.control == other.control
        &&& self.min == other.min
        &&& self.max == other.max
    }

    /// The Control Change event that announces the current value.
    pub open spec fn event(self) -> OutboundEvent {
        OutboundEvent { channel: self.channel, control: self.control, value: self.value }
    }

    /// Whether the attribute is well formed.
    pub fn is_valid(&self) -> (valid: bool)
        ensures
            valid == self.wf(),
    {
        self.channel <= MAX_CHANNEL && self.control <= MAX_DATA && self.max <= MAX_DATA
            && self.min <= self.value && self.value <= self.max
    }
}

/// The index that follows `selected` in a cyclic list of `length` entries.
pub open spec fn next_index(selected: int, length: int) -> int {
    (selected + 1) % length
}

/// The index reached from `selected` after `presses` steps through a cyclic list of
/// `length` entries.
pub open spec fn rotated(selected: int, length: int, presses: nat) -> int
    decreases presses,
{
    if presses == 0 {
        selected
    } else {
        next_index(rotated(selected, length, (presses - 1) as nat), length)
    }
}

/// What a store holds: the attributes in order and the index of the selected one.
pub struct StateView {
    pub attributes: Seq<Attribute>,
    pub selected_option: int,
}

impl StateView {
    /// The list is complete, the cursor is on it, and every attribute is well formed.
    pub open spec fn wf(self) -> bool {
        &&& self.attributes.len() == ATTRIBUTE_COUNT
        &&& 0 <= self.selected_option < self.attributes.len()
        &&& forall|i: int| 0 <= i < self.attributes.len() ==> (#[trigger] self.attributes[i]).wf()
    }

    /// The selected attribute.
    pub open spec fn selected(self) -> Attribute {
        self.attributes[self.selected_option]
    }

    /// The store after the selected attribute was adjusted by `delta`.
    pub open spec fn adjusted(self, delta: int) -> StateView {
        StateView {
            attributes: self.attributes.update(
                self.selected_option,
                self.selected().adjusted(delta),
            ),
            ..self
        }
    }

    /// The store after each of `deltas` was applied in turn.
    pub open spec fn adjusted_by(self, deltas: Seq<i16>) -> StateView
        decreases deltas.len(),
    {
        if deltas.len() == 0 {
            self
        } else {
            self.adjusted_by(deltas.drop_last()).adjusted(deltas.last() as int)
        }
    }

    /// The store after the cursor moved on by one.
    pub open spec fn advanced(self) -> StateView {
        StateView {
            selected_option: next_index(self.selected_option, self.attributes.len() as int),
            ..self
        }
    }

    /// The store after one wake-up of the control loop.
    pub open spec fn handled(self, event: ControlEvent) -> StateView {
        match event {
            ControlEvent::Delta(delta) => self.adjusted(delta as int),
            ControlEvent::ButtonPressed => self.advanced(),
        }
    }

    /// The store after each of `events` was handled in turn.
    pub open spec fn handled_all(self, events: Seq<ControlEvent>) -> StateView
        decreases events.len(),
    {
        if events.len() == 0 {
            self
        } else {
            self.handled_all(events.drop_last()).handled(events.last())
        }
    }

    /// Whether `other` holds the same attributes but for their values.
    pub open spec fn same_identities(self, other: StateView) -> bool {
        &&& self.attributes.len() == other.attributes.len()
        &&& forall|i: int|
            0 <= i < self.attributes.len() ==> (#[trigger] self.attributes[i]).same_identity(
                other.attributes[i],
            )
    }

    /// The store after the cursor moved on `presses` times.
    pub open spec fn advanced_by(self, presses: nat) -> StateView
        decreases presses,
    {
        if presses == 0 {
            self
        } else {
            self.advanced_by((presses - 1) as nat).advanced()
        }
    }
}

/// A copy of the store's contents for a reader that must not hold on to the store.
#[derive(Copy, Clone, Debug)]
pub struct Snapshot {
    pub attributes: Attributes,
    pub selected_option: usize,
}

/// What the store's control loop can be woken by.
#[derive(Copy, Clone, Debug, PartialEq, Eq, Structural)]
pub enum ControlEvent {
    /// The encoder moved by this much.
    Delta(i16),
    /// The button was pressed.
    ButtonPressed,
}

/// The parameter store.
pub struct State {
    attributes: Attributes,
    selected_option: usize,
}

impl View for State {
    type V = StateView;

    closed spec fn view(&self) -> StateView {
        StateView { attributes: self.attributes@, selected_option: self.selected_option as int }
    }
}

impl State {
    #[verifier::type_invariant]
    closed spec fn inv(self) -> bool {
        self@.wf()
    }

    /// A store over the given attributes with the first one selected, or nothing if
    /// one of the attributes is not well formed.
    pub fn new(attributes: Attributes) -> (state: Option<State>)
        ensures
            state is Some <==> (forall|i: int|
                0 <= i < ATTRIBUTE_COUNT ==> (#[trigger] attributes@[i]).wf()),
            state matches Some(s) ==> s@ == (StateView {
                attributes: attributes@,
                selected_option: 0,
            }) && s@.wf(),
    {
        if attributes[0].is_valid() && attributes[1].is_valid() {
            Some(State { attributes, selected_option: 0 })
        } else {
            None
        }
    }

    /// The store the device starts with: "Delay" on control 0 at 100 of `0..=127`,
    /// selected, and "Feedback" on control 1 at 50 of `0..=100`, both on channel
    /// index 0.
    pub fn initial() -> (state: State)
        ensures
            state@.wf(),
            state@.selected_option == 0,
            state@.attributes[0] == (Attribute {
                name: "Delay",
                channel: 0,
                control: 0,
                min: 0,
                max: 127,
                value: 100,
            }),
            state@.attributes[1] == (Attribute {
                name: "Feedback",
                channel: 0,
                control: 1,
                min: 0,
                max: 100,
                value: 50,
            }),
    {
        let attributes: Attributes = [
            Attribute { name: "Delay", channel: 0, control: 0, min: 0, max: 127, value: 100 },
            Attribute { name: "Feedback", channel: 0, control: 1, min: 0, max: 100, value: 50 },
        ];
        State { attributes, selected_option: 0 }
    }

    /// A copy of the attribute list.
    pub fn attributes(&self) -> (attributes: Attributes)
        ensures
            attributes@ == self@.attributes,
            self@.wf(),
    {
        proof {
            use_type_invariant(self);
        }
        self.attributes
    }

    /// The index of the selected attribute.
    pub fn selected_option(&self) -> (selected: usize)
        ensures
            selected as int == self@.selected_option,
            selected < ATTRIBUTE_COUNT,
            self@.wf(),
    {
        proof {
            use_type_invariant(self);
        }
        self.selected_option
    }

    /// A copy of the attribute list together with the selection.
    pub fn snapshot(&self) -> (snapshot: Snapshot)
        ensures
            snapshot.attributes@ == self@.attributes,
            snapshot.selected_option as int == self@.selected_option,
            self@.wf(),
    {
        proof {
            use_type_invariant(self);
        }
        Snapshot { attributes: self.attributes, selected_option: self.selected_option }
    }

    /// Moves the selected attribute's value by `delta`, limited to its bounds, and
    /// offers the Control Change event for the new value to `queue`.
    ///
    /// The event is offered whether or not the value changed. A full queue drops it;
    /// the store is updated all the same.
    pub fn adjust_selected(&mut self, delta: i16, queue: &mut OutboundQueue)
        ensures
            final(self)@ == old(self)@.adjusted(delta as int),
            final(self)@.wf(),
            final(queue)@ == offered(old(queue)@, final(self)@.selected().event()),
    {
        proof {
            use_type_invariant(&*self);
        }
        let index: usize = self.selected_option;
        let mut attribute: Attribute = self.attributes[index];
        let raised: i16 = match (attribute.value as i16).checked_add(delta) {
            Some(sum) => sum,
            None => i16::MAX,
        };
        let new_value: u8 = if raised < attribute.min as i16 {
            attribute.min
        } else if raised > attribute.max as i16 {
            attribute.max
        } else {
            raised as u8
        };
        attribute.value = new_value;
        self.attributes[index] = attribute;
        let event = OutboundEvent {
            channel: attribute.channel,
            control: attribute.control,
            value: attribute.value,
        };
        queue.try_send(event);
    }

    /// Moves the selection to the next attribute, and from the last to the first.
    pub fn next_option(&mut self)
        ensures
            final(self)@ == old(self)@.advanced(),
            final(self)@.wf(),
    {
        proof {
            use_type_invariant(&*self);
        }
        self.selected_option = (self.selected_option + 1) % ATTRIBUTE_COUNT;
    }

    /// Applies one wake-up of the control loop: an encoder delta adjusts the selected
    /// attribute, a button press moves the selection and leaves the queue alone.
    pub fn handle_event(&mut self, event: ControlEvent, queue: &mut OutboundQueue)
        ensures
            final(self)@ == old(self)@.handled(event),
            final(self)@.wf(),
            final(queue)@ == (match event {
                ControlEvent::Delta(_) => offered(old(queue)@, final(self)@.selected().event()),
                ControlEvent::ButtonPressed => old(queue)@,
            }),
    {
        match event {
            ControlEvent::Delta(delta) => self.adjust_selected(delta, queue),
            ControlEvent::ButtonPressed => self.next_option(),
        }
    }
}

/// Adjusting keeps a well-formed store well formed, keeps every attribute's identity
/// and the selection, and leaves the selected value within its bounds.
pub proof fn lemma_adjusted_within_bounds(state: StateView, delta: i16)
    requires
        state.wf(),
    ensures
        state.adjusted(delta as int).wf(),
        state.adjusted(delta as int).selected_option == state.selected_option,
        state.adjusted(delta as int).selected().min == state.selected().min,
        state.adjusted(delta as int).selected().max == state.selected().max,
        state.selected().min <= state.adjusted(delta as int).selected().value
            <= state.selected().max,
{
}

/// Whatever deltas are applied one after another, after each of them the selected
/// value lies within the bounds the attribute started with.
pub proof fn lemma_adjustments_stay_within_bounds(state: StateView, deltas: Seq<i16>)
    requires
        state.wf(),
    ensures
        forall|k: int|
            0 <= k <= deltas.len() ==> {
                let after = #[trigger] state.adjusted_by(deltas.take(k));
                &&& after.wf()
                &&& after.selected_option == state.selected_option
                &&& after.selected().min == state.selected().min
                &&& after.selected().max == state.selected().max
                &&& state.selected().min <= after.selected().value <= state.selected().max
            },
{
    assert forall|k: int| 0 <= k <= deltas.len() implies {
        let after = #[trigger] state.adjusted_by(deltas.take(k));
        &&& after.wf()
        &&& after.selected_option == state.selected_option
        &&& after.selected().min == state.selected().min
        &&& after.selected().max == state.selected().max
        &&& state.selected().min <= after.selected().value <= state.selected().max
    } by {
        lemma_adjusted_by_within_bounds(state, deltas.take(k));
    }
}

proof fn lemma_adjusted_by_within_bounds(state: StateView, deltas: Seq<i16>)
    requires
        state.wf(),
    ensures
        state.adjusted_by(deltas).wf(),
        state.adjusted_by(deltas).selected_option == state.selected_option,
        state.adjusted_by(deltas).selected().min == state.selected().min,
        state.adjusted_by(deltas).selected().max == state.selected().max,
        state.selected().min <= state.adjusted_by(deltas).selected().value <= state.selected().max,
    decreases deltas.len(),
{
    if deltas.len() > 0 {
        lemma_adjusted_by_within_bounds(state, deltas.drop_last());
        lemma_adjusted_within_bounds(state.adjusted_by(deltas.drop_last()), deltas.last());
    }
}

/// Whatever the knob and the button do, and in whatever order, the store stays well
/// formed after each step: every value lies within its bounds, and no attribute's
/// name, channel, control number or bounds change.
pub proof fn lemma_events_keep_store_well_formed(state: StateView, events: Seq<ControlEvent>)
    requires
        state.wf(),
    ensures
        forall|k: int|
            0 <= k <= events.len() ==> {
                let after = #[trigger] state.handled_all(events.take(k));
                after.wf() && after.same_identities(state)
            },
{
    assert forall|k: int| 0 <= k <= events.len() implies {
        let after = #[trigger] state.handled_all(events.take(k));
        after.wf() && after.same_identities(state)
    } by {
        lemma_handled_all_well_formed(state, events.take(k));
    }
}

proof fn lemma_handled_all_well_formed(state: StateView, events: Seq<ControlEvent>)
    requires
        state.wf(),
    ensures
        state.handled_all(events).wf(),
        state.handled_all(events).same_identities(state),
    decreases events.len(),
{
    if events.len() > 0 {
        let before = state.handled_all(events.drop_last());
        lemma_handled_all_well_formed(state, events.drop_last());
        match events.last() {
            ControlEvent::Delta(delta) => {
                lemma_adjusted_within_bounds(before, delta);
            },
            ControlEvent::ButtonPressed => {},
        }
    }
}

/// Stepping `presses` times through a cyclic list adds `presses` to the index,
/// modulo the length.
pub proof fn lemma_rotated_is_sum(selected: int, length: int, presses: nat)
    requires
        0 <= selected < length,
    ensures
        rotated(selected, length, presses) == (selected + presses) % length,
    decreases presses,
{
    if presses == 0 {
        assert(selected % length == selected) by (nonlinear_arith)
            requires
                0 <= selected < length,
        ;
    } else {
        lemma_rotated_is_sum(selected, length, (presses - 1) as nat);
        let before = selected + presses - 1;
        assert(((before % length) + 1) % length == (before + 1) % length) by (nonlinear_arith)
            requires
                length > 0,
                before >= 0,
        ;
    }
}

/// Stepping through a cyclic list as many times as it has entries leads back to
/// where it started.
pub proof fn lemma_full_rotation_returns(selected: int, length: int)
    requires
        0 <= selected < length,
    ensures
        rotated(selected, length, length as nat) == selected,
{
    lemma_rotated_is_sum(selected, length, length as nat);
    assert((selected + length) % length == selected) by (nonlinear_arith)
        requires
            0 <= selected < length,
    ;
}

/// Pressing the button as many times as the store has attributes changes nothing:
/// the selection is back where it was, and no attribute was touched.
pub proof fn lemma_next_option_cycles(state: StateView)
    requires
        state.wf(),
    ensures
        state.advanced_by(state.attributes.len()) == state,
{
    lemma_advanced_by_rotates(state, state.attributes.len());
    lemma_full_rotation_returns(state.selected_option, state.attributes.len() as int);
}

proof fn lemma_advanced_by_rotates(state: StateView, presses: nat)
    ensures
        state.advanced_by(presses) == (StateView {
            selected_option: rotated(state.selected_option, state.attributes.len() as int, presses),
            ..state
        }),
    decreases presses,
{
    if presses > 0 {
        lemma_advanced_by_rotates(state, (presses - 1) as nat);
    }
}

} // verus!
