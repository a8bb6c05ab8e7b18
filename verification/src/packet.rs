//! USB-MIDI event packets: four bytes, a header and up to three payload bytes.
//!
//! The header's low half is the code index number, which classifies the payload and
//! fixes its length; the high half is the cable number. Packing and unpacking is
//! done by `usbd_midi`; the functions here say what it does.

use vstd::prelude::*;
use usbd_midi::CableNumber;
use usbd_midi::UsbMidiEventPacket;
use usbd_midi::UsbMidiPacketReader;

verus! {

/// Length of a USB-MIDI event packet in bytes.
pub const PACKET_SIZE: usize = 4;

/// Length of the buffer that receives one USB transfer.
pub const TRANSFER_SIZE: usize = 64;

/// Status byte that starts a SysEx message.
pub const SYSEX_START: u8 = 0xF0;

/// Status byte that ends a SysEx message.
pub const SYSEX_END: u8 = 0xF7;

/// The code index number in a packet's header.
pub open spec fn code_index(raw: Seq<u8>) -> u8 {
    raw[0] & 0x0F
}

/// The number of payload bytes that a code index number announces.
pub open spec fn payload_size(code_index: u8) -> int {
    if code_index == 0x5 || code_index == 0xF {
        1
    } else if code_index == 0x2 || code_index == 0x6 || code_index == 0xC || code_index == 0xD {
        2
    } else {
        3
    }
}

/// The payload bytes of a packet.
pub open spec fn payload(raw: Seq<u8>) -> Seq<u8> {
    raw.subrange(1, 1 + payload_size(code_index(raw)))
}

/// Whether a packet carries part of a SysEx message.
pub open spec fn is_sysex(raw: Seq<u8>) -> bool {
    let index = code_index(raw);
    ||| index == 0x4
    ||| index == 0x6
    ||| index == 0x7
    ||| index == 0x5 && raw[1] == SYSEX_END
    ||| index == 0xF && raw[1] < 0x80
}

/// Whether a packet carries the start of a SysEx message.
pub open spec fn is_sysex_start(raw: Seq<u8>) -> bool {
    is_sysex(raw) && raw[1] == SYSEX_START
}

/// Whether a packet carries the end of a SysEx message. All three bytes behind the
/// header are looked at, whatever the payload's length.
pub open spec fn is_sysex_end(raw: Seq<u8>) -> bool {
    is_sysex(raw) && (raw[1] == SYSEX_END || raw[2] == SYSEX_END || raw[3] == SYSEX_END)
}

/// The code index number under which a payload is sent, if it can be sent.
pub open spec fn payload_code_index(payload: Seq<u8>) -> Option<u8> {
    if payload.len() == 0 {
        None
    } else if 0x80 <= payload[0] < 0xF0 {
        Some(payload[0] >> 4)
    } else if payload[0] < 0x80 || payload[0] == SYSEX_START {
        if payload.len() > 1 && payload[1] == SYSEX_END {
            Some(0x6)
        } else if payload.len() > 2 && payload[2] == SYSEX_END {
            Some(0x7)
        } else if payload[0] < 0x80 && payload.len() == 1 {
            Some(0xF)
        } else if payload.len() > 2 {
            Some(0x4)
        } else {
            None
        }
    } else if payload[0] == 0xF1 || payload[0] == 0xF3 {
        Some(0x2)
    } else if payload[0] == 0xF2 {
        Some(0x3)
    } else if payload[0] == 0xF6 || payload[0] == SYSEX_END {
        Some(0x5)
    } else if payload[0] >= 0xF8 && payload[0] != 0xFD {
        Some(0xF)
    } else {
        None
    }
}

/// The packet on cable 0 that carries the front of `payload`: its code index number,
/// as many payload bytes as that number announces, and zeros behind them. There is
/// none for a payload without a code index number or shorter than announced.
pub open spec fn framed(payload: Seq<u8>) -> Option<Seq<u8>> {
    match payload_code_index(payload) {
        None => None,
        Some(index) => if payload.len() < payload_size(index) {
            None
        } else {
            Some(
                Seq::new(
                    PACKET_SIZE as nat,
                    |i: int|
                        if i == 0 {
                            index
                        } else if i <= payload_size(index) {
                            payload[i - 1]
                        } else {
                            0u8
                        },
                ),
            )
        },
    }
}

/// The number of packets read out of a transfer of `size` received bytes.
pub open spec fn packet_count(size: int) -> int {
    if size >= TRANSFER_SIZE {
        TRANSFER_SIZE as int / PACKET_SIZE as int
    } else {
        (size + PACKET_SIZE - 1) / PACKET_SIZE as int
    }
}

/// The packets read out of a transfer buffer of which `size` bytes were received:
/// consecutive groups of four bytes from the front. A last group that is only
/// partly received is read whole.
pub open spec fn transfer_packets(buffer: Seq<u8>, size: int) -> Seq<Seq<u8>> {
    Seq::new(
        packet_count(size) as nat,
        |i: int| buffer.subrange(PACKET_SIZE * i, PACKET_SIZE * i + PACKET_SIZE),
    )
}

/// A USB-MIDI event packet.
#[derive(Clone, Copy, Debug, PartialEq, Eq)]
pub struct EventPacket {
    /// Header byte and three bytes behind it.
    pub raw: [u8; 4],
}

impl View for EventPacket {
    type V = Seq<u8>;

    open spec fn view(&self) -> Seq<u8> {
        self.raw@
    }
}

/// The raw bytes of each of `packets`.
pub open spec fn raw_packets(packets: Seq<EventPacket>) -> Seq<Seq<u8>> {
    Seq::new(packets.len(), |i: int| packets[i]@)
}

/// Calls `UsbMidiEventPacket::payload_bytes` on the packet with these raw bytes.
/// It returns the bytes behind the header, as many as the code index number in the
/// header announces.
#[verifier::external_body]
fn outside_payload_bytes(raw: &[u8; 4]) -> (bytes: Vec<u8>)
    ensures
        bytes@ == payload(raw@),
{
    match UsbMidiEventPacket::try_from(raw.as_slice()) {
        Ok(packet) => packet.payload_bytes().to_vec(),
        Err(_) => Vec::new(),
    }
}

/// Calls `UsbMidiEventPacket::is_sysex` on the packet with these raw bytes. It
/// answers yes for the code index numbers 4, 6 and 7, for 5 with the end marker
/// behind the header, and for 15 with a data byte behind the header.
#[verifier::external_body]
fn outside_is_sysex(raw: &[u8; 4]) -> (answer: bool)
    ensures
        answer == is_sysex(raw@),
{
    match UsbMidiEventPacket::try_from(raw.as_slice()) {
        Ok(packet) => packet.is_sysex(),
        Err(_) => false,
    }
}

/// Calls `UsbMidiEventPacket::is_sysex_start` on the packet with these raw bytes:
/// a SysEx packet with the start marker behind the header.
#[verifier::external_body]
fn outside_is_sysex_start(raw: &[u8; 4]) -> (answer: bool)
    ensures
        answer == is_sysex_start(raw@),
{
    match UsbMidiEventPacket::try_from(raw.as_slice()) {
        Ok(packet) => packet.is_sysex_start(),
        Err(_) => false,
    }
}

/// Calls `UsbMidiEventPacket::is_sysex_end` on the packet with these raw bytes:
/// a SysEx packet with the end marker in any of the three bytes behind the header.
#[verifier::external_body]
fn outside_is_sysex_end(raw: &[u8; 4]) -> (answer: bool)
    ensures
        answer == is_sysex_end(raw@),
{
    match UsbMidiEventPacket::try_from(raw.as_slice()) {
        Ok(packet) => packet.is_sysex_end(),
        Err(_) => false,
    }
}

/// Calls `UsbMidiEventPacket::try_from_payload_bytes` for cable 0. It picks the
/// code index number by the first payload byte and, for SysEx data, by where the
/// end marker stands and how long the payload is; it fails on an empty payload, on
/// an undefined status byte, and on a payload shorter than the code index number
/// announces; otherwise the packet holds the number and that many payload bytes.
#[verifier::external_body]
fn outside_frame_payload(payload: &[u8]) -> (packet: Option<EventPacket>)
    ensures
        match framed(payload@) {
            None => packet is None,
            Some(raw) => packet matches Some(p) && p@ == raw,
        },
{
    match UsbMidiEventPacket::try_from_payload_bytes(CableNumber::Cable0, payload) {
        Ok(packet) => Some(EventPacket { raw: packet.to_raw_bytes() }),
        Err(_) => None,
    }
}

/// Iterates a `UsbMidiPacketReader` over the transfer buffer. It yields the groups
/// of four bytes that start at a multiple of four below both `size` and the
/// buffer's length, each as a packet.
#[verifier::external_body]
fn outside_read_packets(buffer: &[u8; 64], size: usize) -> (packets: Vec<EventPacket>)
    ensures
        raw_packets(packets@) == transfer_packets(buffer@, size as int),
{
    UsbMidiPacketReader::new(buffer, size)
        .flatten()
        .map(|packet| EventPacket { raw: packet.to_raw_bytes() })
        .collect()
}

impl EventPacket {
    /// The payload bytes, as many as the header announces.
    pub fn payload_bytes(&self) -> (bytes: Vec<u8>)
        ensures
            bytes@ == payload(self@),
            1 <= bytes@.len() <= 3,
    {
        outside_payload_bytes(&self.raw)
    }

    /// Whether the packet carries part of a SysEx message.
    pub fn is_sysex(&self) -> (answer: bool)
        ensures
            answer == is_sysex(self@),
    {
        outside_is_sysex(&self.raw)
    }

    /// Whether the packet carries the start of a SysEx message.
    pub fn is_sysex_start(&self) -> (answer: bool)
        ensures
            answer == is_sysex_start(self@),
    {
        outside_is_sysex_start(&self.raw)
    }

    /// Whether the packet carries the end of a SysEx message.
    pub fn is_sysex_end(&self) -> (answer: bool)
        ensures
            answer == is_sysex_end(self@),
    {
        outside_is_sysex_end(&self.raw)
    }

    /// The packet on cable 0 that carries the front of `payload`, if there is one.
    pub fn from_payload_bytes(payload: &[u8]) -> (packet: Option<EventPacket>)
        ensures
            match framed(payload@) {
                None => packet is None,
                Some(raw) => packet matches Some(p) && p@ == raw,
            },
    {
        outside_frame_payload(payload)
    }

    /// The packets of one received transfer, in order.
    pub fn read_transfer(buffer: &[u8; 64], size: usize) -> (packets: Vec<EventPacket>)
        ensures
            raw_packets(packets@) == transfer_packets(buffer@, size as int),
            packets@.len() == packet_count(size as int),
            packets@.len() <= TRANSFER_SIZE / PACKET_SIZE,
    {
        let packets = outside_read_packets(buffer, size);
        assert(raw_packets(packets@).len() == packets@.len());
        packets
    }
}

} // verus!
