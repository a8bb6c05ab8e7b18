//! Reassembly of inbound SysEx messages from the packets that carry them.
//!
//! A message runs from a start packet to an end packet and may span transfers. Its
//! bytes gather in a buffer of fixed capacity, kept in a `heapless` vector. A
//! message that outgrows the buffer is abandoned.

use vstd::prelude::*;
use crate::midi::{
    decodes, fragment_reply, fragments, identity_reply_packets, lemma_identity_reply_fragments,
    message_decodes, process_sysex, sysex_reply, IDENTITY_REQUEST,
};
use crate::packet::{
    is_sysex, is_sysex_end, is_sysex_start, payload, raw_packets, transfer_packets, EventPacket,
    PACKET_SIZE,
};

verus! {

/// Capacity of the SysEx receive buffer in bytes.
pub const SYSEX_BUFFER_SIZE: usize = 64;

/// Makes `heapless::Vec` known to the verifier as a type whose inside it cannot see.
#[verifier::external_type_specification]
#[verifier::external_body]
#[verifier::reject_recursive_types(T)]
pub struct ExHeaplessVec<T, const N: usize>(heapless::Vec<T, N>);

/// The bytes that a fixed-capacity buffer holds, first to last.
pub uninterp spec fn buffer_bytes(buffer: heapless::Vec<u8, 64>) -> Seq<u8>;

/// Calls `heapless::Vec::new`: the buffer starts out holding nothing.
#[verifier::external_body]
pub(crate) fn buffer_new() -> (buffer: heapless::Vec<u8, SYSEX_BUFFER_SIZE>)
    ensures
        buffer_bytes(buffer) == Seq::<u8>::empty(),
{
    heapless::Vec::new()
}

/// Calls `heapless::Vec::clear`: the buffer holds nothing afterwards.
#[verifier::external_body]
fn buffer_clear(buffer: &mut heapless::Vec<u8, SYSEX_BUFFER_SIZE>)
    ensures
        buffer_bytes(*final(buffer)) == Seq::<u8>::empty(),
{
    buffer.clear()
}

/// Calls `heapless::Vec::extend_from_slice`: all of `bytes` are appended if they
/// fit within the capacity; otherwise the buffer stays as it was and the call
/// reports failure.
#[verifier::external_body]
pub(crate) fn buffer_extend(
    buffer: &mut heapless::Vec<u8, SYSEX_BUFFER_SIZE>,
    bytes: &[u8],
) -> (fits: bool)
    ensures
        fits == (buffer_bytes(*old(buffer)).len() + bytes@.len() <= SYSEX_BUFFER_SIZE),
        fits ==> buffer_bytes(*final(buffer)) == buffer_bytes(*old(buffer)) + bytes@,
        !fits ==> buffer_bytes(*final(buffer)) == buffer_bytes(*old(buffer)),
{
    buffer.extend_from_slice(bytes).is_ok()
}

/// Calls `heapless::Vec::as_slice`: the held bytes as a slice, never more of them
/// than the capacity.
#[verifier::external_body]
pub(crate) fn buffer_as_slice(buffer: &heapless::Vec<u8, SYSEX_BUFFER_SIZE>) -> (bytes: &[u8])
    ensures
        bytes@ == buffer_bytes(*buffer),
        bytes@.len() <= SYSEX_BUFFER_SIZE,
{
    buffer.as_slice()
}

/// What one inbound packet led to.
pub enum Outcome {
    /// Not part of a SysEx message. `raw` is the packet, and `decoded` tells whether
    /// its payload is a MIDI message.
    Regular { raw: Seq<u8>, decoded: bool },
    /// SysEx bytes were buffered and the message is not complete yet.
    SysexPending,
    /// A SysEx message was completed. `reply` holds the packets of the answer, if
    /// the message has one.
    SysexComplete { reply: Option<Seq<Seq<u8>>> },
    /// The SysEx message outgrew the buffer and was abandoned.
    SysexOverflow,
}

/// The bytes that the buffer would hold with the packet's payload taken in, were
/// there no limit: a start packet begins anew, any other packet appends.
pub open spec fn gathered(buffer: Seq<u8>, raw: Seq<u8>) -> Seq<u8> {
    if is_sysex_start(raw) {
        payload(raw)
    } else {
        buffer + payload(raw)
    }
}

/// What the packet `raw` leads to when the buffer holds `buffer`.
pub open spec fn outcome_of(buffer: Seq<u8>, raw: Seq<u8>) -> Outcome {
    if !is_sysex(raw) {
        Outcome::Regular { raw, decoded: decodes(payload(raw)) }
    } else if gathered(buffer, raw).len() > SYSEX_BUFFER_SIZE {
        Outcome::SysexOverflow
    } else if is_sysex_end(raw) {
        Outcome::SysexComplete {
            reply: match sysex_reply(gathered(buffer, raw)) {
                None => None,
                Some(bytes) => Some(fragments(bytes)),
            },
        }
    } else {
        Outcome::SysexPending
    }
}

/// What the buffer holds after the packet `raw`, having held `buffer` before. It is
/// empty after a completed and after an abandoned message.
pub open spec fn buffer_after(buffer: Seq<u8>, raw: Seq<u8>) -> Seq<u8> {
    if !is_sysex(raw) {
        buffer
    } else if gathered(buffer, raw).len() > SYSEX_BUFFER_SIZE || is_sysex_end(raw) {
        Seq::empty()
    } else {
        gathered(buffer, raw)
    }
}

/// The buffer and the outcomes after the packets of one transfer. The packets are
/// taken in order; an overflow ends the transfer, and the packets behind it are
/// not looked at.
pub open spec fn transfer_result(buffer: Seq<u8>, packets: Seq<Seq<u8>>) -> (Seq<u8>, Seq<Outcome>)
    decreases packets.len(),
{
    if packets.len() == 0 {
        (buffer, Seq::empty())
    } else {
        let first = outcome_of(buffer, packets[0]);
        let next = buffer_after(buffer, packets[0]);
        if first is SysexOverflow {
            (next, seq![first])
        } else {
            let rest = transfer_result(next, packets.drop_first());
            (rest.0, seq![first] + rest.1)
        }
    }
}

/// What one inbound packet led to, with the reply's packets ready to send.
#[derive(Debug, PartialEq, Eq)]
pub enum PacketOutcome {
    /// Not part of a SysEx message. `packet` is the packet, and `decoded` tells
    /// whether its payload is a MIDI message.
    Regular { packet: EventPacket, decoded: bool },
    /// SysEx bytes were buffered and the message is not complete yet.
    SysexPending,
    /// A SysEx message was completed. `reply` holds the packets of the answer, if
    /// the message has one.
    SysexComplete { reply: Option<Vec<EventPacket>> },
    /// The SysEx message outgrew the buffer and was abandoned.
    SysexOverflow,
}

impl View for PacketOutcome {
    type V = Outcome;

    open spec fn view(&self) -> Outcome {
        match *self {
            PacketOutcome::Regular { packet, decoded } => Outcome::Regular {
                raw: packet@,
                decoded,
            },
            PacketOutcome::SysexPending => Outcome::SysexPending,
            PacketOutcome::SysexComplete { reply: None } => Outcome::SysexComplete { reply: None },
            PacketOutcome::SysexComplete { reply: Some(packets) } => Outcome::SysexComplete {
                reply: Some(raw_packets(packets@)),
            },
            PacketOutcome::SysexOverflow => Outcome::SysexOverflow,
        }
    }
}

/// The view of each of `outcomes`.
pub open spec fn outcome_views(outcomes: Seq<PacketOutcome>) -> Seq<Outcome> {
    Seq::new(outcomes.len(), |i: int| outcomes[i]@)
}

/// Reassembles SysEx messages from the packets that carry them.
pub struct SysexAssembler {
    buffer: heapless::Vec<u8, SYSEX_BUFFER_SIZE>,
}

impl View for SysexAssembler {
    type V = Seq<u8>;

    closed spec fn view(&self) -> Seq<u8> {
        buffer_bytes(self.buffer)
    }
}

impl SysexAssembler {
    /// An assembler with an empty buffer.
    pub fn new() -> (assembler: SysexAssembler)
        ensures
            assembler@ == Seq::<u8>::empty(),
    {
        SysexAssembler { buffer: buffer_new() }
    }

    /// A copy of the bytes gathered so far, never more than [`SYSEX_BUFFER_SIZE`].
    pub fn buffered(&self) -> (bytes: Vec<u8>)
        ensures
            bytes@ == self@,
            bytes@.len() <= SYSEX_BUFFER_SIZE,
    {
        vstd::slice::slice_to_vec(buffer_as_slice(&self.buffer))
    }

    /// Takes in one packet.
    ///
    /// A packet outside SysEx leaves the buffer alone. A SysEx packet empties the
    /// buffer first if it is a start, then has its payload appended. If that does not
    /// fit, the message is abandoned and the buffer emptied. If the packet is an end,
    /// the message is answered and the buffer emptied.
    pub fn feed_packet(&mut self, packet: &EventPacket) -> (outcome: PacketOutcome)
        ensures
            outcome@ == outcome_of(old(self)@, packet@),
            final(self)@ == buffer_after(old(self)@, packet@),
    {
        let bytes = packet.payload_bytes();
        if !packet.is_sysex() {
            return PacketOutcome::Regular {
                packet: *packet,
                decoded: message_decodes(bytes.as_slice()),
            };
        }
        if packet.is_sysex_start() {
            buffer_clear(&mut self.buffer);
        }
        if !buffer_extend(&mut self.buffer, bytes.as_slice()) {
            buffer_clear(&mut self.buffer);
            return PacketOutcome::SysexOverflow;
        }
        if !packet.is_sysex_end() {
            return PacketOutcome::SysexPending;
        }
        let reply = match process_sysex(buffer_as_slice(&self.buffer)) {
            Some(response) => Some(fragment_reply(buffer_as_slice(&response))),
            None => None,
        };
        buffer_clear(&mut self.buffer);
        PacketOutcome::SysexComplete { reply }
    }

    /// Takes in the packets of one received transfer, of which `size` bytes arrived
    /// in `buffer`, and returns what each packet led to. An overflow ends the
    /// transfer: the packets behind it are dropped.
    pub fn process_transfer(&mut self, buffer: &[u8; 64], size: usize) -> (outcomes: Vec<
        PacketOutcome,
    >)
        ensures
            (final(self)@, outcome_views(outcomes@)) == transfer_result(
                old(self)@,
                transfer_packets(buffer@, size as int),
            ),
    {
        let packets = EventPacket::read_transfer(buffer, size);
        let ghost all = transfer_packets(buffer@, size as int);
        let mut outcomes: Vec<PacketOutcome> = Vec::new();
        let mut i: usize = 0;
        proof {
            assert(all.skip(0) =~= all);
        }
        while i < packets.len()
            invariant
                i <= packets@.len(),
                raw_packets(packets@) == all,
                all == transfer_packets(buffer@, size as int),
                transfer_result(old(self)@, all) == (
                    transfer_result(self@, all.skip(i as int)).0,
                    outcome_views(outcomes@) + transfer_result(self@, all.skip(i as int)).1,
                ),
            decreases packets@.len() - i,
        {
            let outcome = self.feed_packet(&packets[i]);
            proof {
                // what is left of the transfer behind this packet
                assert(all.skip(i as int).drop_first() =~= all.skip(i + 1));
            }
            let overflowed = match outcome {
                PacketOutcome::SysexOverflow => true,
                _ => false,
            };
            outcomes.push(outcome);
            if overflowed {
                return outcomes;
            }
            i += 1;
        }
        outcomes
    }
}

/// The payloads of `packets`, one behind the other.
pub open spec fn joined_payloads(packets: Seq<Seq<u8>>) -> Seq<u8>
    decreases packets.len(),
{
    if packets.len() == 0 {
        Seq::empty()
    } else {
        payload(packets[0]) + joined_payloads(packets.drop_first())
    }
}

/// `count` pending outcomes followed by `last`.
pub open spec fn pending_then(count: int, last: Outcome) -> Seq<Outcome> {
    Seq::new((count + 1) as nat, |i: int| if i < count { Outcome::SysexPending } else { last })
}

/// A buffer within the capacity stays within it, whatever packet comes.
pub proof fn lemma_buffer_stays_within_capacity(buffer: Seq<u8>, raw: Seq<u8>)
    requires
        buffer.len() <= SYSEX_BUFFER_SIZE,
    ensures
        buffer_after(buffer, raw).len() <= SYSEX_BUFFER_SIZE,
{
}

/// Two transfers one after the other come to the same as a single transfer with
/// the packets of both, unless the first ends in an overflow.
pub proof fn lemma_transfers_compose(buffer: Seq<u8>, first: Seq<Seq<u8>>, second: Seq<Seq<u8>>)
    requires
        forall|i: int|
            0 <= i < transfer_result(buffer, first).1.len() ==> !(#[trigger] transfer_result(
                buffer,
                first,
            ).1[i] is SysexOverflow),
    ensures
        transfer_result(buffer, first + second) == (
            transfer_result(transfer_result(buffer, first).0, second).0,
            transfer_result(buffer, first).1 + transfer_result(
                transfer_result(buffer, first).0,
                second,
            ).1,
        ),
    decreases first.len(),
{
    if first.len() > 0 {
        let next = buffer_after(buffer, first[0]);
        let done = transfer_result(buffer, first);
        let rest = transfer_result(next, first.drop_first());
        // the first transfer does not stop at its first packet, nor behind it
        assert(done.1[0] == outcome_of(buffer, first[0]));
        assert forall|i: int| 0 <= i < rest.1.len() implies !(#[trigger] rest.1[i]
            is SysexOverflow) by {
            assert(done.1[i + 1] == rest.1[i]);
        }
        lemma_transfers_compose(next, first.drop_first(), second);
        assert((first + second).drop_first() =~= first.drop_first() + second);
    }
}

proof fn lemma_request_tail_reassembles(buffer: Seq<u8>, packets: Seq<Seq<u8>>)
    requires
        packets.len() >= 1,
        buffer.len() >= 1,
        forall|i: int|
            0 <= i < packets.len() ==> (#[trigger] packets[i]).len() == PACKET_SIZE && is_sysex(
                packets[i],
            ),
        forall|i: int| 0 <= i < packets.len() - 1 ==> !is_sysex_end(#[trigger] packets[i]),
        buffer + joined_payloads(packets) == IDENTITY_REQUEST@,
    ensures
        transfer_result(buffer, packets) == (
            Seq::<u8>::empty(),
            pending_then(
                packets.len() - 1,
                Outcome::SysexComplete { reply: Some(identity_reply_packets()) },
            ),
        ),
    decreases packets.len(),
{
    let raw = packets[0];
    let rest = packets.drop_first();
    let bytes = payload(raw);
    // the packet's first byte lies behind the request's first byte, so it is no start
    assert((buffer + joined_payloads(packets))[buffer.len() as int] == bytes[0]);
    assert(buffer + joined_payloads(packets) =~= (buffer + bytes) + joined_payloads(rest));
    if packets.len() == 1 {
        // the packet ends with the request's end marker and completes the request
        lemma_identity_reply_fragments();
        assert(transfer_result(buffer_after(buffer, raw), rest).1 =~= Seq::<Outcome>::empty());
    } else {
        lemma_request_tail_reassembles(buffer + bytes, rest);
    }
}

/// The identity request, cut into SysEx packets at any points, is answered once,
/// by the identity, when its last packet has come, whatever the buffer held
/// before. None of the packets but the last may look like an end.
pub proof fn lemma_identity_request_reassembles(buffer: Seq<u8>, packets: Seq<Seq<u8>>)
    requires
        forall|i: int|
            0 <= i < packets.len() ==> (#[trigger] packets[i]).len() == PACKET_SIZE && is_sysex(
                packets[i],
            ),
        forall|i: int| 0 <= i < packets.len() - 1 ==> !is_sysex_end(#[trigger] packets[i]),
        joined_payloads(packets) == IDENTITY_REQUEST@,
    ensures
        packets.len() >= 2,
        transfer_result(buffer, packets) == (
            Seq::<u8>::empty(),
            pending_then(
                packets.len() - 1,
                Outcome::SysexComplete { reply: Some(identity_reply_packets()) },
            ),
        ),
{
    assert(packets.len() >= 1) by {
        if packets.len() == 0 {
            assert(joined_payloads(packets).len() == 0);
        }
    }
    let rest = packets.drop_first();
    // one packet holds three bytes at most, and the request has six
    assert(packets.len() >= 2) by {
        if packets.len() == 1 {
            assert(joined_payloads(rest) =~= Seq::<u8>::empty());
        }
    }
    // the first packet starts with the request's start marker and begins anew
    lemma_request_tail_reassembles(payload(packets[0]), rest);
}

proof fn lemma_continued_overflow(buffer: Seq<u8>, packets: Seq<Seq<u8>>)
    requires
        buffer.len() <= SYSEX_BUFFER_SIZE,
        forall|i: int|
            0 <= i < packets.len() ==> (#[trigger] packets[i]).len() == PACKET_SIZE && is_sysex(
                packets[i],
            ) && !is_sysex_end(packets[i]) && !is_sysex_start(packets[i]),
        buffer.len() + joined_payloads(packets).len() > SYSEX_BUFFER_SIZE,
    ensures
        transfer_result(buffer, packets).0 == Seq::<u8>::empty(),
        1 <= transfer_result(buffer, packets).1.len() <= packets.len(),
        transfer_result(buffer, packets).1 == pending_then(
            transfer_result(buffer, packets).1.len() - 1,
            Outcome::SysexOverflow,
        ),
    decreases packets.len(),
{
    if packets.len() > 0 && gathered(buffer, packets[0]).len() <= SYSEX_BUFFER_SIZE {
        lemma_continued_overflow(buffer + payload(packets[0]), packets.drop_first());
    }
}

/// A SysEx message that goes on without an end until its payload is more than the
/// buffer can hold is abandoned: the transfer stops at the packet that no longer
/// fits, the buffer is empty afterwards, and every packet before led to nothing but
/// buffering, so that no reply was made.
///
/// The message's bytes are those of `packets`, behind what the buffer held unless
/// the first packet is a start. No later packet is a start: a start would begin a
/// new message.
pub proof fn lemma_overflow_abandons_message(buffer: Seq<u8>, packets: Seq<Seq<u8>>)
    requires
        buffer.len() <= SYSEX_BUFFER_SIZE,
        forall|i: int|
            0 <= i < packets.len() ==> (#[trigger] packets[i]).len() == PACKET_SIZE && is_sysex(
                packets[i],
            ) && !is_sysex_end(packets[i]),
        forall|i: int| 1 <= i < packets.len() ==> !is_sysex_start(#[trigger] packets[i]),
        (if packets.len() > 0 && is_sysex_start(packets[0]) {
            joined_payloads(packets).len()
        } else {
            buffer.len() + joined_payloads(packets).len()
        }) > SYSEX_BUFFER_SIZE,
    ensures
        transfer_result(buffer, packets).0 == Seq::<u8>::empty(),
        1 <= transfer_result(buffer, packets).1.len() <= packets.len(),
        transfer_result(buffer, packets).1 == pending_then(
            transfer_result(buffer, packets).1.len() - 1,
            Outcome::SysexOverflow,
        ),
{
    if packets.len() > 0 && is_sysex_start(packets[0]) {
        lemma_continued_overflow(payload(packets[0]), packets.drop_first());
    } else {
        lemma_continued_overflow(buffer, packets);
    }
}

} // verus!
