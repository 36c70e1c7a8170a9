use passkeys::ctap_hid::{
    command, CtapHidContPacket, CtapHidInitPacket, CtapHidMessage, CtapHidPacket,
    CtapHidReassembler, CTAP_HID_REPORT_SIZE, MAX_PAYLOAD_SIZE,
};

fn message(cid: u32, len: usize) -> CtapHidMessage {
    CtapHidMessage {
        cid,
        cmd: command::CBOR,
        payload: (0..len).map(|i| (i % 251) as u8).collect(),
    }
}

#[test]
fn parses_an_initialization_packet() {
    let mut report = [0u8; 64];
    report[..9].copy_from_slice(&[0x01, 0x02, 0x03, 0x04, 0x90, 0x01, 0x02, 0xaa, 0xbb]);
    let mut data = [0u8; 57];
    data[0] = 0xaa;
    data[1] = 0xbb;
    assert_eq!(
        CtapHidPacket::parse(&report),
        Some(CtapHidPacket::Init(CtapHidInitPacket {
            cid: 0x01020304,
            cmd: 0x90,
            bcnt: 0x0102,
            data,
        }))
    );
}

#[test]
fn parses_a_continuation_packet() {
    let mut data = [0u8; 59];
    data[0] = 0x11;
    assert_eq!(
        CtapHidPacket::parse(&[0xff, 0xff, 0xff, 0xfe, 0x7f, 0x11]),
        Some(CtapHidPacket::Cont(CtapHidContPacket {
            cid: 0xfffffffe,
            seq: 0x7f,
            data,
        }))
    );
}

#[test]
fn short_reports_are_no_packets() {
    assert_eq!(CtapHidPacket::parse(&[]), None);
    assert_eq!(CtapHidPacket::parse(&[0, 0, 0, 1]), None);
    assert_eq!(CtapHidPacket::parse(&[0, 0, 0, 1, 0x86, 0]), None);
    assert!(CtapHidPacket::parse(&[0, 0, 0, 1, 0x86, 0, 0]).is_some());
    assert!(CtapHidPacket::parse(&[0, 0, 0, 1, 0x00]).is_some());
}

#[test]
fn bytes_behind_the_report_are_not_looked_at() {
    let report: Vec<u8> = (0..64).map(|i| i as u8).collect();
    let mut longer = report.clone();
    longer.push(0xff);
    assert_eq!(CtapHidPacket::parse(&longer), CtapHidPacket::parse(&report));
}

#[test]
fn parsing_inverts_serializing() {
    for packet in message(7, 300).to_packets() {
        let report = packet.serialize();
        assert_eq!(report.len(), CTAP_HID_REPORT_SIZE);
        assert_eq!(CtapHidPacket::parse(&report), Some(packet));
    }
    let report: Vec<u8> = (0..64).map(|i| (i * 3) as u8).collect();
    assert_eq!(
        CtapHidPacket::parse(&report).unwrap().serialize().to_vec(),
        report
    );
}

#[test]
fn packets_per_message() {
    assert_eq!(message(1, 0).to_packets().len(), 1);
    assert_eq!(message(1, 57).to_packets().len(), 1);
    assert_eq!(message(1, 58).to_packets().len(), 2);
    assert_eq!(message(1, 57 + 59).to_packets().len(), 2);
    assert_eq!(message(1, 57 + 60).to_packets().len(), 3);
    assert_eq!(message(1, MAX_PAYLOAD_SIZE).to_packets().len(), 129);
}

#[test]
fn reassembling_the_packets_of_a_message_gives_the_message() {
    for len in [0, 1, 57, 58, 116, 117, 1000, MAX_PAYLOAD_SIZE] {
        let sent = message(0x0a0b0c0d, len);
        let mut reassembler = CtapHidReassembler::new();
        let packets = sent.to_packets();
        let last = packets.len() - 1;
        for (i, packet) in packets.into_iter().enumerate() {
            let received = reassembler.handle_packet(packet);
            if i == last {
                assert_eq!(received, Some(sent.clone()));
            } else {
                assert_eq!(received, None);
            }
        }
    }
}

#[test]
fn bytes_behind_the_announced_length_do_not_matter() {
    for len in [3, 57, 58, 100, 150] {
        let sent = message(9, len);
        let mut reassembler = CtapHidReassembler::new();
        let mut received = None;
        let mut left = len;
        for packet in sent.to_packets() {
            assert_eq!(received, None);
            let packet = match packet {
                CtapHidPacket::Init(mut init) => {
                    let used = left.min(57);
                    init.data[used..].fill(0xee);
                    left -= used;
                    CtapHidPacket::Init(init)
                }
                CtapHidPacket::Cont(mut cont) => {
                    let used = left.min(59);
                    cont.data[used..].fill(0xee);
                    left -= used;
                    CtapHidPacket::Cont(cont)
                }
            };
            received = reassembler.handle_packet(packet);
        }
        assert_eq!(received, Some(sent));
        let next = message(9, 400).to_packets().remove(1);
        assert_eq!(reassembler.handle_packet(next), None);
    }
}

#[test]
fn a_channel_gets_what_its_own_packets_give() {
    let mut packets = Vec::new();
    for (i, len) in [150usize, 10, 90, 200].into_iter().enumerate() {
        packets.extend(message(1 + (i as u32) % 2, len).to_packets());
    }
    packets.swap(1, 4);
    packets.rotate_left(2);
    for cid in [1, 2, 3] {
        let mut all = CtapHidReassembler::new();
        let mut own = CtapHidReassembler::new();
        for packet in &packets {
            let of = match packet {
                CtapHidPacket::Init(init) => init.cid,
                CtapHidPacket::Cont(cont) => cont.cid,
            };
            let result = all.handle_packet(packet.clone());
            if of == cid {
                assert_eq!(own.handle_packet(packet.clone()), result);
            }
            if let Some(message) = result {
                assert_eq!(message.cid, of);
            }
        }
    }
}

#[test]
fn channels_do_not_disturb_each_other() {
    let first = message(1, 150);
    let second = message(2, 160);
    let mut reassembler = CtapHidReassembler::default();
    let mut received = Vec::new();
    for (a, b) in first.to_packets().into_iter().zip(second.to_packets()) {
        received.extend(reassembler.handle_packet(a));
        received.extend(reassembler.handle_packet(b));
    }
    assert_eq!(received, vec![first, second]);
}

#[test]
fn an_out_of_order_packet_discards_the_message() {
    let mut packets = message(1, 200).to_packets();
    let mut reassembler = CtapHidReassembler::new();
    let third = packets.remove(2);
    let second = packets.remove(1);
    assert_eq!(reassembler.handle_packet(packets.remove(0)), None);
    assert_eq!(reassembler.handle_packet(third), None);
    assert_eq!(reassembler.handle_packet(second), None);
    assert_eq!(reassembler.handle_packet(packets.remove(0)), None);
}

#[test]
fn a_continuation_without_a_start_is_ignored() {
    let mut reassembler = CtapHidReassembler::new();
    let packet = message(3, 100).to_packets().remove(1);
    assert_eq!(reassembler.handle_packet(packet), None);
}

#[test]
fn a_new_start_replaces_an_unfinished_message() {
    let mut reassembler = CtapHidReassembler::new();
    assert_eq!(reassembler.handle_packet(message(1, 200).to_packets().remove(0)), None);
    let again = message(1, 90);
    let mut packets = again.to_packets();
    assert_eq!(reassembler.handle_packet(packets.remove(0)), None);
    assert_eq!(reassembler.handle_packet(packets.remove(0)), Some(again));
}

#[test]
fn adds_numbers() {
    assert_eq!(passkeys::add(2, 2), 4);
}
