//! The MIDI transport's decisions apart from SysEx reassembly: answering a complete
//! SysEx message, cutting the answer into packets, judging regular messages, and
//! turning queued events into packets for the link.
//!
//! The USB link itself is driven by the caller, who sends what comes back from
//! here and reports what the link said.

use vstd::prelude::*;
use midi_convert::midi_types::MidiMessage;
use midi_convert::parse::MidiTryParseSlice;
use crate::packet::{framed, raw_packets, EventPacket};
use crate::queue::{at_most, OutboundEvent, OutboundQueue, MAX_CHANNEL};
use crate::sysex::{buffer_bytes, buffer_extend, buffer_new, SYSEX_BUFFER_SIZE};

verus! {

/// Time the transport rests between two rounds, in milliseconds.
pub const TRANSPORT_INTERVAL_MS: u64 = 50;

/// Number of payload bytes that each packet of a reply carries, the last excepted.
pub const REPLY_CHUNK_SIZE: usize = 3;

/// The device inquiry that asks for the identity.
pub const IDENTITY_REQUEST: [u8; 6] = [0xF0, 0x7E, 0x7F, 0x06, 0x01, 0xF7];

/// The identity: header, manufacturer, two bytes of family, two of family member,
/// four of software revision, end marker.
pub const IDENTITY_REPLY: [u8; 15] = [
    0xF0, 0x7E, 0x7F, 0x06, 0x02, 0x01, 0x02, 0x03, 0x04, 0x05, 0x00, 0x00, 0x00, 0x00, 0xF7,
];

/// The answer to a complete SysEx message: the identity for the identity request,
/// none for anything else.
pub open spec fn sysex_reply(request: Seq<u8>) -> Option<Seq<u8>> {
    if request == IDENTITY_REQUEST@ {
        Some(IDENTITY_REPLY@)
    } else {
        None
    }
}

/// The packets that carry `payload` in chunks of [`REPLY_CHUNK_SIZE`] bytes. A chunk
/// that no packet can carry is left out.
pub open spec fn fragments(payload: Seq<u8>) -> Seq<Seq<u8>>
    decreases payload.len(),
{
    if payload.len() == 0 {
        Seq::empty()
    } else {
        let n = if payload.len() < REPLY_CHUNK_SIZE {
            payload.len() as int
        } else {
            REPLY_CHUNK_SIZE as int
        };
        let rest = fragments(payload.skip(n));
        match framed(payload.take(n)) {
            Some(raw) => seq![raw] + rest,
            None => rest,
        }
    }
}

/// Whether two byte slices hold the same bytes.
fn bytes_equal(left: &[u8], right: &[u8]) -> (equal: bool)
    ensures
        equal == (left@ == right@),
{
    if left.len() != right.len() {
        return false;
    }
    let mut i: usize = 0;
    while i < left.len()
        invariant
            left@.len() == right@.len(),
            i <= left@.len(),
            forall|j: int| 0 <= j < i ==> left@[j] == right@[j],
        decreases left@.len() - i,
    {
        if left[i] != right[i] {
            return false;
        }
        i += 1;
    }
    assert(left@ =~= right@);
    true
}

/// Answers a complete SysEx message: the identity request gets the identity, and
/// anything else gets no answer.
pub fn process_sysex(request: &[u8]) -> (response: Option<heapless::Vec<u8, SYSEX_BUFFER_SIZE>>)
    ensures
        match sysex_reply(request@) {
            None => response is None,
            Some(bytes) => response matches Some(buffer) && buffer_bytes(buffer) == bytes,
        },
{
    if bytes_equal(request, IDENTITY_REQUEST.as_slice()) {
        let mut response = buffer_new();
        let fits = buffer_extend(&mut response, IDENTITY_REPLY.as_slice());
        assert(fits);
        Some(response)
    } else {
        None
    }
}

/// Cuts a reply into chunks of [`REPLY_CHUNK_SIZE`] bytes and packs each chunk into
/// a packet for cable 0. A chunk that cannot be packed is left out.
pub fn fragment_reply(payload: &[u8]) -> (packets: Vec<EventPacket>)
    ensures
        raw_packets(packets@) == fragments(payload@),
{
    let mut packets: Vec<EventPacket> = Vec::new();
    let mut start: usize = 0;
    proof {
        assert(payload@.skip(0) =~= payload@);
    }
    while start < payload.len()
        invariant
            start <= payload@.len(),
            fragments(payload@) == raw_packets(packets@) + fragments(payload@.skip(start as int)),
        decreases payload@.len() - start,
    {
        let remaining: usize = payload.len() - start;
        let n: usize = if remaining < REPLY_CHUNK_SIZE {
            remaining
        } else {
            REPLY_CHUNK_SIZE
        };
        let chunk = vstd::slice::slice_subrange(payload, start, start + n);
        let packet = EventPacket::from_payload_bytes(chunk);
        proof {
            let tail = payload@.skip(start as int);
            assert(tail.take(n as int) =~= chunk@);
            assert(tail.skip(n as int) =~= payload@.skip(start + n));
        }
        match packet {
            Some(p) => packets.push(p),
            None => {},
        }
        start += n;
    }
    packets
}

/// Whether every byte behind the status byte is a 7-bit data byte.
pub open spec fn data_bytes_valid(message: Seq<u8>) -> bool {
    forall|i: int| 1 <= i < message.len() ==> #[trigger] message[i] <= 0x7F
}

/// The length of the message that a status byte starts: one, two or three bytes for
/// the channel voice, system common and real-time messages, and zero for a byte
/// that starts none of them.
pub open spec fn message_length(status: u8) -> int {
    if status == 0xF6 || status == 0xF8 || 0xFA <= status <= 0xFC || status >= 0xFE {
        1
    } else if 0xC0 <= status <= 0xDF || status == 0xF1 || status == 0xF3 {
        2
    } else if 0x80 <= status <= 0xBF || 0xE0 <= status <= 0xEF || status == 0xF2 {
        3
    } else {
        0
    }
}

/// Whether the bytes start with a known status byte and are as many as its message
/// takes.
pub open spec fn parses(message: Seq<u8>) -> bool {
    message.len() > 0 && 0 < message_length(message[0]) <= message.len()
}

/// Whether the bytes decode as a MIDI message: the data bytes are 7-bit, and the
/// status byte is known and followed by enough of them.
pub open spec fn decodes(message: Seq<u8>) -> bool {
    data_bytes_valid(message) && parses(message)
}

/// Calls `MidiMessage::try_parse_slice` of `midi_convert` and reports whether it
/// found a message. It goes by the first byte and the slice's length alone. The
/// bytes behind the status byte have to be data bytes: the conversions that the
/// parser applies to them assert it.
#[verifier::external_body]
fn outside_parses(message: &[u8]) -> (found: bool)
    requires
        data_bytes_valid(message@),
    ensures
        found == parses(message@),
{
    MidiMessage::try_parse_slice(message).is_ok()
}

/// Whether the bytes decode as a MIDI message.
pub fn message_decodes(message: &[u8]) -> (decoded: bool)
    ensures
        decoded == decodes(message@),
{
    let mut i: usize = 1;
    while i < message.len()
        invariant
            1 <= i,
            forall|j: int| 1 <= j < i && j < message@.len() ==> #[trigger] message@[j] <= 0x7F,
        decreases message@.len() - i,
    {
        if message[i] > 0x7F {
            return false;
        }
        i += 1;
    }
    outside_parses(message)
}

/// The five packets of the identity reply.
pub open spec fn identity_reply_packets() -> Seq<Seq<u8>> {
    seq![
        seq![0x04u8, 0xF0, 0x7E, 0x7F],
        seq![0x04u8, 0x06, 0x02, 0x01],
        seq![0x04u8, 0x02, 0x03, 0x04],
        seq![0x04u8, 0x05, 0x00, 0x00],
        seq![0x07u8, 0x00, 0x00, 0xF7],
    ]
}

/// Cut into packets, the identity is the five packets of
/// [`identity_reply_packets`].
pub proof fn lemma_identity_reply_fragments()
    ensures
        fragments(IDENTITY_REPLY@) == identity_reply_packets(),
{
    let reply = IDENTITY_REPLY@;
    let r1 = reply.skip(3);
    let r2 = r1.skip(3);
    let r3 = r2.skip(3);
    let r4 = r3.skip(3);
    let r5 = r4.skip(3);
    assert(r5 =~= Seq::<u8>::empty());
    assert(fragments(r5) =~= Seq::<Seq<u8>>::empty());
    assert(framed(r4.take(3)).unwrap() =~= seq![0x07u8, 0x00, 0x00, 0xF7]);
    assert(fragments(r4) =~= seq![seq![0x07u8, 0x00, 0x00, 0xF7]]);
    assert(framed(r3.take(3)).unwrap() =~= seq![0x04u8, 0x05, 0x00, 0x00]);
    assert(fragments(r3) =~= seq![seq![0x04u8, 0x05, 0x00, 0x00]] + fragments(r4));
    assert(framed(r2.take(3)).unwrap() =~= seq![0x04u8, 0x02, 0x03, 0x04]);
    assert(fragments(r2) =~= seq![seq![0x04u8, 0x02, 0x03, 0x04]] + fragments(r3));
    assert(framed(r1.take(3)).unwrap() =~= seq![0x04u8, 0x06, 0x02, 0x01]);
    assert(fragments(r1) =~= seq![seq![0x04u8, 0x06, 0x02, 0x01]] + fragments(r2));
    assert(framed(reply.take(3)).unwrap() =~= seq![0x04u8, 0xF0, 0x7E, 0x7F]);
    assert(fragments(reply) =~= seq![seq![0x04u8, 0xF0, 0x7E, 0x7F]] + fragments(r1));
    assert(fragments(reply) =~= identity_reply_packets());
}

/// The packet that carries a Control Change event: the code index number of
/// Control Change on cable 0, then the three wire bytes.
pub open spec fn control_change_packet(event: OutboundEvent) -> Seq<u8> {
    seq![0x0Bu8] + event.wire_bytes()
}

/// The wire bytes of every Control Change event can be packed, and the packet is
/// the one that [`control_change_packet`] names.
pub proof fn lemma_control_change_framed(event: OutboundEvent)
    ensures
        framed(event.wire_bytes()) == Some(control_change_packet(event)),
{
    let bytes = event.wire_bytes();
    let channel = at_most(event.channel, MAX_CHANNEL);
    assert(channel <= 15 ==> 0xB0 <= (0xB0u8 | channel) <= 0xBF && (0xB0u8 | channel) >> 4 == 0x0B)
        by (bit_vector);
}

/// What the USB link said to a packet handed to it.
#[derive(Clone, Copy, Debug, PartialEq, Eq, Structural)]
pub enum LinkStatus {
    /// The packet was taken.
    Sent,
    /// The host has not yet consumed what was sent before.
    Busy,
    /// The link failed in some other way.
    Failed,
}

/// Whether draining the outbound queue goes on within a round. `previous` is what
/// the link said to the packet before, and nothing at the start of a round. A busy
/// link ends the round; any other answer does not.
pub open spec fn draining_goes_on(previous: Option<LinkStatus>) -> bool {
    previous != Some(LinkStatus::Busy)
}

/// Takes the oldest event out of the queue and packs it for the link, unless the
/// link was busy the time before: then the round is over and the queue is left
/// alone. The packet that the busy link refused is not queued again.
///
/// `previous` is what the link said to the packet handed out before in this round,
/// and nothing for the round's first call. Nothing is returned, and nothing
/// changes, when the queue is empty.
pub fn next_outbound_packet(
    queue: &mut OutboundQueue,
    previous: Option<LinkStatus>,
) -> (packet: Option<EventPacket>)
    ensures
        packet is Some <==> draining_goes_on(previous) && old(queue)@.len() > 0,
        match packet {
            Some(p) => {
                &&& p@ == control_change_packet(old(queue)@[0])
                &&& final(queue)@ == old(queue)@.drop_first()
            },
            None => final(queue)@ == old(queue)@,
        },
{
    match previous {
        Some(LinkStatus::Busy) => {
            return None;
        },
        _ => {},
    }
    match queue.try_receive() {
        None => None,
        Some(event) => {
            let bytes = event.render();
            proof {
                lemma_control_change_framed(event);
            }
            EventPacket::from_payload_bytes(bytes.as_slice())
        },
    }
}

/// What to do with a reply after one of its packets was handed to the link.
#[derive(Clone, Copy, Debug, PartialEq, Eq, Structural)]
pub enum ReplyStep {
    /// Go on with the reply's next packet.
    Next,
    /// Hand the same packet to the link again.
    Retry,
    /// Give up the rest of the reply.
    Abandon,
}

/// Decides how sending a reply goes on. A packet that the busy link refused is
/// tried again; any other failure gives up the rest of the reply.
pub fn after_reply_send(status: LinkStatus) -> (step: ReplyStep)
    ensures
        step == (match status {
            LinkStatus::Sent => ReplyStep::Next,
            LinkStatus::Busy => ReplyStep::Retry,
            LinkStatus::Failed => ReplyStep::Abandon,
        }),
{
    match status {
        LinkStatus::Sent => ReplyStep::Next,
        LinkStatus::Busy => ReplyStep::Retry,
        LinkStatus::Failed => ReplyStep::Abandon,
    }
}

/// The place in a reply of `length` packets after the link said `status` to the
/// packet at `position`: one further when it was sent, the same when the link was
/// busy, and the end when the link failed.
pub open spec fn position_after(position: int, length: int, status: LinkStatus) -> int {
    if position >= length {
        position
    } else {
        match status {
            LinkStatus::Sent => position + 1,
            LinkStatus::Busy => position,
            LinkStatus::Failed => length,
        }
    }
}

/// Hands out the packets of one reply in order, as the link takes them.
pub struct ReplySender {
    packets: Vec<EventPacket>,
    position: usize,
}

impl ReplySender {
    /// The packets of the reply.
    pub closed spec fn packets(self) -> Seq<EventPacket> {
        self.packets@
    }

    /// The index of the packet that goes to the link next; the number of packets
    /// when nothing is left to send.
    pub closed spec fn position(self) -> int {
        self.position as int
    }

    #[verifier::type_invariant]
    closed spec fn within_reply(self) -> bool {
        self.position <= self.packets@.len()
    }

    /// A sender at the first packet of a reply.
    pub fn new(packets: Vec<EventPacket>) -> (sender: ReplySender)
        ensures
            sender.packets() == packets@,
            sender.position() == 0,
    {
        ReplySender { packets, position: 0 }
    }

    /// The packet to hand to the link now, or nothing when the reply is through or
    /// was given up.
    pub fn current(&self) -> (packet: Option<EventPacket>)
        ensures
            0 <= self.position() <= self.packets().len(),
            packet == (if self.position() < self.packets().len() {
                Some(self.packets()[self.position()])
            } else {
                None
            }),
    {
        proof {
            use_type_invariant(self);
        }
        if self.position < self.packets.len() {
            Some(self.packets[self.position])
        } else {
            None
        }
    }

    /// Takes in what the link said to the current packet.
    pub fn link_said(&mut self, status: LinkStatus)
        ensures
            final(self).packets() == old(self).packets(),
            final(self).position() == position_after(
                old(self).position(),
                old(self).packets().len() as int,
                status,
            ),
    {
        proof {
            use_type_invariant(&*self);
        }
        if self.position < self.packets.len() {
            match after_reply_send(status) {
                ReplyStep::Next => {
                    self.position = self.position + 1;
                },
                ReplyStep::Retry => {},
                ReplyStep::Abandon => {
                    self.position = self.packets.len();
                },
            }
        }
    }
}

} // verus!
