//! The bounded outbound queue between the parameter store and the MIDI transport.
//!
//! The store offers a Control Change event for every adjustment and never waits:
//! an event offered to a full queue is dropped. The transport takes events out in
//! the order in which they were accepted.

use vstd::prelude::*;
use embassy_sync::blocking_mutex::raw::NoopRawMutex;
use embassy_sync::channel::Channel;
use midi_convert::midi_types;
use midi_convert::midi_types::MidiMessage;
use midi_convert::render_slice::MidiRenderSlice;

verus! {

/// Number of events the outbound queue can hold.
pub const QUEUE_CAPACITY: usize = 16;

/// Highest MIDI channel index.
pub const MAX_CHANNEL: u8 = 15;

/// Highest value of a 7-bit MIDI data byte.
pub const MAX_DATA: u8 = 127;

/// Status byte of a Control Change message on channel index 0.
pub const CONTROL_CHANGE_STATUS: u8 = 0xB0;

/// `x`, or `limit` where `x` is above it.
pub open spec fn at_most(x: u8, limit: u8) -> u8 {
    if x > limit {
        limit
    } else {
        x
    }
}

/// The three wire bytes of a Control Change message: the status byte carrying the
/// channel, the control number, the value. A field above its MIDI range counts as
/// the top of the range.
pub open spec fn control_change_bytes(channel: u8, control: u8, value: u8) -> Seq<u8> {
    seq![
        CONTROL_CHANGE_STATUS | at_most(channel, MAX_CHANNEL),
        at_most(control, MAX_DATA),
        at_most(value, MAX_DATA),
    ]
}

/// A MIDI Control Change message on its way to the host.
#[derive(Clone, Copy, Debug, PartialEq, Eq, Structural)]
pub struct OutboundEvent {
    /// Channel index, `0..=15`.
    pub channel: u8,
    /// Control number, `0..=127`.
    pub control: u8,
    /// Control value, `0..=127`.
    pub value: u8,
}

impl OutboundEvent {
    /// Every field lies in its MIDI range.
    pub open spec fn wf(self) -> bool {
        self.channel <= MAX_CHANNEL && self.control <= MAX_DATA && self.value <= MAX_DATA
    }

    /// The event as it goes over the wire.
    pub open spec fn wire_bytes(self) -> Seq<u8> {
        control_change_bytes(self.channel, self.control, self.value)
    }

    /// Renders the event to its three wire bytes.
    pub fn render(&self) -> (bytes: [u8; 3])
        ensures
            bytes@ == self.wire_bytes(),
            self.wf() ==> bytes@ == seq![
                (CONTROL_CHANGE_STATUS + self.channel) as u8,
                self.control,
                self.value,
            ],
    {
        let bytes = render_control_change(self.channel, self.control, self.value);
        proof {
            let channel = self.channel;
            assert(channel <= 15 ==> 0xB0u8 | channel == (0xB0u8 + channel) as u8) by (bit_vector);
        }
        bytes
    }
}

/// Calls `MidiMessage::render_slice` of `midi_convert` on the Control Change message
/// that `Channel::new`, `Control::new` and `Value7::new` of `midi_types` make of the
/// three numbers. Each constructor limits its argument to the top of its range, and
/// the renderer writes the status byte or-ed with the channel, then the control
/// number, then the value.
#[verifier::external_body]
fn render_control_change(channel: u8, control: u8, value: u8) -> (bytes: [u8; 3])
    ensures
        bytes@ == control_change_bytes(channel, control, value),
{
    let mut bytes = [0u8; 3];
    MidiMessage::ControlChange(
        midi_types::Channel::new(channel),
        midi_types::Control::new(control),
        midi_types::Value7::new(value),
    ).render_slice(&mut bytes);
    bytes
}

/// What a queue holds after `event` was offered to it: the event is appended if
/// there is room, and dropped if there is none.
pub open spec fn offered(events: Seq<OutboundEvent>, event: OutboundEvent) -> Seq<OutboundEvent> {
    if events.len() < QUEUE_CAPACITY {
        events.push(event)
    } else {
        events
    }
}

/// A first-in first-out queue of at most [`QUEUE_CAPACITY`] events, kept in an
/// `embassy_sync` channel.
#[verifier::external_body]
pub struct OutboundQueue {
    channel: Channel<NoopRawMutex, OutboundEvent, QUEUE_CAPACITY>,
}

/// The events waiting in a queue, oldest first.
pub uninterp spec fn queued_events(queue: OutboundQueue) -> Seq<OutboundEvent>;

/// Calls `Channel::new`: the channel starts with nothing waiting in it.
#[verifier::external_body]
fn channel_new() -> (queue: OutboundQueue)
    ensures
        queued_events(queue) == Seq::<OutboundEvent>::empty(),
{
    OutboundQueue { channel: Channel::new() }
}

/// Calls `Channel::try_send`: the event goes behind those waiting when fewer than
/// the capacity are waiting; otherwise nothing changes and the call reports
/// failure.
#[verifier::external_body]
fn channel_try_send(queue: &mut OutboundQueue, event: OutboundEvent) -> (accepted: bool)
    ensures
        accepted == (queued_events(*old(queue)).len() < QUEUE_CAPACITY),
        accepted ==> queued_events(*final(queue)) == queued_events(*old(queue)).push(event),
        !accepted ==> queued_events(*final(queue)) == queued_events(*old(queue)),
        queued_events(*final(queue)).len() <= QUEUE_CAPACITY,
{
    queue.channel.try_send(event).is_ok()
}

/// Calls `Channel::try_receive`: the oldest waiting event leaves the channel and is
/// returned; with nothing waiting nothing changes and nothing is returned.
#[verifier::external_body]
fn channel_try_receive(queue: &mut OutboundQueue) -> (event: Option<OutboundEvent>)
    ensures
        queued_events(*old(queue)).len() == 0 ==> event is None && queued_events(*final(queue))
            == queued_events(*old(queue)),
        queued_events(*old(queue)).len() > 0 ==> event == Some(queued_events(*old(queue))[0])
            && queued_events(*final(queue)) == queued_events(*old(queue)).drop_first(),
{
    queue.channel.try_receive().ok()
}

impl View for OutboundQueue {
    type V = Seq<OutboundEvent>;

    open spec fn view(&self) -> Seq<OutboundEvent> {
        queued_events(*self)
    }
}

impl OutboundQueue {
    /// An empty queue.
    pub fn new() -> (queue: OutboundQueue)
        ensures
            queue@ == Seq::<OutboundEvent>::empty(),
    {
        channel_new()
    }

    /// Offers an event without waiting. Returns whether the queue took it; a full
    /// queue stays as it is and the event is lost.
    pub fn try_send(&mut self, event: OutboundEvent) -> (accepted: bool)
        ensures
            accepted == (old(self)@.len() < QUEUE_CAPACITY),
            final(self)@ == offered(old(self)@, event),
            final(self)@.len() <= QUEUE_CAPACITY,
    {
        channel_try_send(self, event)
    }

    /// Takes the oldest event out, if there is one.
    pub fn try_receive(&mut self) -> (event: Option<OutboundEvent>)
        ensures
            event == (if old(self)@.len() == 0 {
                None
            } else {
                Some(old(self)@[0])
            }),
            final(self)@ == (if old(self)@.len() == 0 {
                old(self)@
            } else {
                old(self)@.drop_first()
            }),
    {
        channel_try_receive(self)
    }
}

} // verus!
