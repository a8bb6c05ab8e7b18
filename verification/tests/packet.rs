use midi_controller_core::packet::{EventPacket, PACKET_SIZE, TRANSFER_SIZE};

fn packet(raw: [u8; 4]) -> EventPacket {
    EventPacket { raw }
}

fn expected_payload_size(code_index: u8) -> usize {
    match code_index {
        0x5 | 0xF => 1,
        0x2 | 0x6 | 0xC | 0xD => 2,
        _ => 3,
    }
}

fn expected_is_sysex(raw: [u8; 4]) -> bool {
    match raw[0] & 0x0F {
        0x4 | 0x6 | 0x7 => true,
        0x5 => raw[1] == 0xF7,
        0xF => raw[1] < 0x80,
        _ => false,
    }
}

fn expected_code_index(payload: &[u8]) -> Option<u8> {
    let status = *payload.first()?;
    if (0x80..0xF0).contains(&status) {
        Some(status >> 4)
    } else if status < 0x80 || status == 0xF0 {
        if payload.len() > 1 && payload[1] == 0xF7 {
            Some(0x6)
        } else if payload.len() > 2 && payload[2] == 0xF7 {
            Some(0x7)
        } else if status < 0x80 && payload.len() == 1 {
            Some(0xF)
        } else if payload.len() > 2 {
            Some(0x4)
        } else {
            None
        }
    } else {
        match status {
            0xF1 | 0xF3 => Some(0x2),
            0xF2 => Some(0x3),
            0xF6 | 0xF7 => Some(0x5),
            0xF4 | 0xF5 | 0xFD => None,
            _ => Some(0xF),
        }
    }
}

fn expected_frame(payload: &[u8]) -> Option<[u8; 4]> {
    let code_index = expected_code_index(payload)?;
    let size = expected_payload_size(code_index);
    if payload.len() < size {
        return None;
    }
    let mut raw = [code_index, 0, 0, 0];
    raw[1..1 + size].copy_from_slice(&payload[..size]);
    Some(raw)
}

#[test]
fn payload_length_follows_the_code_index_number() {
    assert_eq!(packet([0x18, 0x80, 60, 64]).payload_bytes(), vec![0x80, 60, 64]);
    assert_eq!(packet([0x0B, 0xB0, 64, 127]).payload_bytes(), vec![0xB0, 64, 127]);
    assert_eq!(packet([0x0C, 0xC0, 5, 0]).payload_bytes(), vec![0xC0, 5]);
    assert_eq!(packet([0x0D, 0xD0, 85, 0]).payload_bytes(), vec![0xD0, 85]);
    assert_eq!(packet([0x02, 0xF1, 27, 0]).payload_bytes(), vec![0xF1, 27]);
    assert_eq!(packet([0x05, 0xF6, 0, 0]).payload_bytes(), vec![0xF6]);
    assert_eq!(packet([0x0F, 0xF8, 0, 0]).payload_bytes(), vec![0xF8]);
    assert_eq!(packet([0x06, 1, 0xF7, 0]).payload_bytes(), vec![1, 0xF7]);
    assert_eq!(packet([0x07, 1, 2, 0xF7]).payload_bytes(), vec![1, 2, 0xF7]);
    assert_eq!(packet([0x00, 0, 0, 0]).payload_bytes(), vec![0, 0, 0]);
    assert_eq!(packet([0xF1, 9, 8, 7]).payload_bytes(), vec![9, 8, 7]);
}

#[test]
fn payload_agrees_with_the_table_for_every_header() {
    for header in 0..=255u8 {
        let raw = [header, 0x11, 0x22, 0x33];
        let size = expected_payload_size(header & 0x0F);
        assert_eq!(packet(raw).payload_bytes(), raw[1..1 + size].to_vec());
    }
}

#[test]
fn sysex_packets_are_told_by_code_index_and_first_byte() {
    assert!(packet([0x04, 0xF0, 1, 2]).is_sysex());
    assert!(packet([0x04, 1, 2, 3]).is_sysex());
    assert!(packet([0x0F, 1, 0, 0]).is_sysex());
    assert!(packet([0x05, 0xF7, 0, 0]).is_sysex());
    assert!(packet([0x06, 1, 0xF7, 0]).is_sysex());
    assert!(packet([0x07, 1, 2, 0xF7]).is_sysex());
    assert!(packet([0x34, 1, 2, 3]).is_sysex());
    assert!(!packet([0x05, 0xF6, 0, 0]).is_sysex());
    assert!(!packet([0x0F, 0xF8, 0, 0]).is_sysex());
    assert!(!packet([0x0F, 0x80, 0, 0]).is_sysex());
    assert!(!packet([0x0B, 0xB0, 64, 127]).is_sysex());
    assert!(!packet([0x00, 0, 0, 0]).is_sysex());
    assert!(!packet([0x03, 0xF5, 1, 2]).is_sysex());
}

#[test]
fn sysex_start_and_end_are_told_by_their_markers() {
    let start = packet([0x04, 0xF0, 1, 2]);
    assert!(start.is_sysex_start() && !start.is_sysex_end());
    let middle = packet([0x04, 1, 2, 3]);
    assert!(!middle.is_sysex_start() && !middle.is_sysex_end());
    let single = packet([0x0F, 1, 0, 0]);
    assert!(!single.is_sysex_start() && !single.is_sysex_end());
    let end_one = packet([0x05, 0xF7, 0, 0]);
    assert!(!end_one.is_sysex_start() && end_one.is_sysex_end());
    let end_two = packet([0x06, 1, 0xF7, 0]);
    assert!(!end_two.is_sysex_start() && end_two.is_sysex_end());
    let end_three = packet([0x07, 1, 2, 0xF7]);
    assert!(!end_three.is_sysex_start() && end_three.is_sysex_end());
    let whole_two = packet([0x06, 0xF0, 0xF7, 0]);
    assert!(whole_two.is_sysex_start() && whole_two.is_sysex_end());
    let whole_three = packet([0x07, 0xF0, 1, 0xF7]);
    assert!(whole_three.is_sysex_start() && whole_three.is_sysex_end());
    let regular = packet([0x0B, 0xB0, 0xF0, 0xF7]);
    assert!(!regular.is_sysex_start() && !regular.is_sysex_end());
}

#[test]
fn end_marker_counts_behind_the_payload_too() {
    let single = packet([0x0F, 1, 0xF7, 0]);
    assert_eq!(single.payload_bytes(), vec![1]);
    assert!(single.is_sysex_end());
    let two = packet([0x06, 1, 2, 0xF7]);
    assert_eq!(two.payload_bytes(), vec![1, 2]);
    assert!(two.is_sysex_end());
}

#[test]
fn classification_agrees_with_the_rules_for_every_header() {
    let bytes = [0x00u8, 0x01, 0x7F, 0x80, 0xB0, 0xF0, 0xF6, 0xF7, 0xF8, 0xFF];
    for header in 0..=255u8 {
        for first in bytes {
            for second in [0x00u8, 0xF0, 0xF7] {
                for third in [0x00u8, 0xF7] {
                    let raw = [header, first, second, third];
                    let sysex = expected_is_sysex(raw);
                    let subject = packet(raw);
                    assert_eq!(subject.is_sysex(), sysex);
                    assert_eq!(subject.is_sysex_start(), sysex && first == 0xF0);
                    assert_eq!(
                        subject.is_sysex_end(),
                        sysex && (first == 0xF7 || second == 0xF7 || third == 0xF7)
                    );
                }
            }
        }
    }
}

#[test]
fn channel_messages_are_packed_under_their_status() {
    assert_eq!(EventPacket::from_payload_bytes(&[0x80, 33, 75]), Some(packet([0x08, 0x80, 33, 75])));
    assert_eq!(EventPacket::from_payload_bytes(&[0x96, 67, 14]), Some(packet([0x09, 0x96, 67, 14])));
    assert_eq!(EventPacket::from_payload_bytes(&[0xB0, 10, 127]), Some(packet([0x0B, 0xB0, 10, 127])));
    assert_eq!(EventPacket::from_payload_bytes(&[0xC0, 36]), Some(packet([0x0C, 0xC0, 36, 0])));
    assert_eq!(EventPacket::from_payload_bytes(&[0xC0, 36, 54]), Some(packet([0x0C, 0xC0, 36, 0])));
    assert_eq!(EventPacket::from_payload_bytes(&[0xE0, 93, 46]), Some(packet([0x0E, 0xE0, 93, 46])));
    assert_eq!(EventPacket::from_payload_bytes(&[0xF2, 42, 74]), Some(packet([0x03, 0xF2, 42, 74])));
    assert_eq!(EventPacket::from_payload_bytes(&[0xF3, 24]), Some(packet([0x02, 0xF3, 24, 0])));
    assert_eq!(EventPacket::from_payload_bytes(&[0xF6, 67, 72]), Some(packet([0x05, 0xF6, 0, 0])));
    assert_eq!(EventPacket::from_payload_bytes(&[0xF8]), Some(packet([0x0F, 0xF8, 0, 0])));
}

#[test]
fn sysex_chunks_are_packed_by_length_and_end_marker() {
    assert_eq!(EventPacket::from_payload_bytes(&[0xF0, 1, 2]), Some(packet([0x04, 0xF0, 1, 2])));
    assert_eq!(EventPacket::from_payload_bytes(&[1, 2, 3]), Some(packet([0x04, 1, 2, 3])));
    assert_eq!(EventPacket::from_payload_bytes(&[1]), Some(packet([0x0F, 1, 0, 0])));
    assert_eq!(EventPacket::from_payload_bytes(&[0xF7]), Some(packet([0x05, 0xF7, 0, 0])));
    assert_eq!(EventPacket::from_payload_bytes(&[1, 0xF7]), Some(packet([0x06, 1, 0xF7, 0])));
    assert_eq!(EventPacket::from_payload_bytes(&[1, 2, 0xF7]), Some(packet([0x07, 1, 2, 0xF7])));
    assert_eq!(EventPacket::from_payload_bytes(&[0xF0, 0xF7]), Some(packet([0x06, 0xF0, 0xF7, 0])));
    assert_eq!(EventPacket::from_payload_bytes(&[0xF0, 1, 0xF7]), Some(packet([0x07, 0xF0, 1, 0xF7])));
}

#[test]
fn payloads_that_no_packet_carries_are_refused() {
    assert_eq!(EventPacket::from_payload_bytes(&[]), None);
    assert_eq!(EventPacket::from_payload_bytes(&[0xF0]), None);
    assert_eq!(EventPacket::from_payload_bytes(&[0xF0, 1]), None);
    assert_eq!(EventPacket::from_payload_bytes(&[1, 2]), None);
    assert_eq!(EventPacket::from_payload_bytes(&[0xF4]), None);
    assert_eq!(EventPacket::from_payload_bytes(&[0xF5]), None);
    assert_eq!(EventPacket::from_payload_bytes(&[0xFD]), None);
    assert_eq!(EventPacket::from_payload_bytes(&[0x80, 26]), None);
    assert_eq!(EventPacket::from_payload_bytes(&[0x80]), None);
    assert_eq!(EventPacket::from_payload_bytes(&[0xF2, 1]), None);
}

#[test]
fn packing_agrees_with_the_rules_for_every_status() {
    let data = [0x00u8, 0x40, 0xF0, 0xF7];
    for status in 0..=255u8 {
        assert_eq!(
            EventPacket::from_payload_bytes(&[status]).map(|p| p.raw),
            expected_frame(&[status])
        );
        for second in data {
            let two = [status, second];
            assert_eq!(EventPacket::from_payload_bytes(&two).map(|p| p.raw), expected_frame(&two));
            for third in data {
                let three = [status, second, third];
                assert_eq!(
                    EventPacket::from_payload_bytes(&three).map(|p| p.raw),
                    expected_frame(&three)
                );
                let four = [status, second, third, 0xF7];
                assert_eq!(
                    EventPacket::from_payload_bytes(&four).map(|p| p.raw),
                    expected_frame(&four)
                );
            }
        }
    }
}

#[test]
fn transfer_is_read_in_groups_of_four() {
    assert_eq!((PACKET_SIZE, TRANSFER_SIZE), (4, 64));
    let mut buffer = [0u8; 64];
    for (i, byte) in buffer.iter_mut().enumerate() {
        *byte = i as u8;
    }
    assert_eq!(EventPacket::read_transfer(&buffer, 0), vec![]);
    assert_eq!(EventPacket::read_transfer(&buffer, 4), vec![packet([0, 1, 2, 3])]);
    assert_eq!(
        EventPacket::read_transfer(&buffer, 8),
        vec![packet([0, 1, 2, 3]), packet([4, 5, 6, 7])]
    );
    let all = EventPacket::read_transfer(&buffer, 64);
    assert_eq!(all.len(), 16);
    assert_eq!(all[15], packet([60, 61, 62, 63]));
}

#[test]
fn partly_received_group_is_read_whole() {
    let mut buffer = [0u8; 64];
    buffer[..8].copy_from_slice(&[1, 2, 3, 4, 5, 6, 7, 8]);
    assert_eq!(EventPacket::read_transfer(&buffer, 1), vec![packet([1, 2, 3, 4])]);
    assert_eq!(EventPacket::read_transfer(&buffer, 3), vec![packet([1, 2, 3, 4])]);
    assert_eq!(
        EventPacket::read_transfer(&buffer, 5),
        vec![packet([1, 2, 3, 4]), packet([5, 6, 7, 8])]
    );
}

#[test]
fn transfer_never_yields_more_than_the_buffer_holds() {
    let buffer = [7u8; 64];
    for size in 0..=70usize {
        let expected = if size >= 64 { 16 } else { (size + 3) / 4 };
        let packets = EventPacket::read_transfer(&buffer, size);
        assert_eq!(packets.len(), expected);
        assert!(packets.iter().all(|p| p.raw == [7, 7, 7, 7]));
    }
    assert_eq!(EventPacket::read_transfer(&buffer, usize::MAX).len(), 16);
}
