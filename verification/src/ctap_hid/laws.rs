//! What holds of packets, framing and reassembly as a whole.

use super::{MessageView, PacketView, PartialView, CONT_DATA_SIZE, INIT_DATA_SIZE, MAX_PAYLOAD_SIZE};
use vstd::prelude::*;

verus! {

/// The unfinished messages after `packets` arrive in order, and what each
/// packet completed.
pub open spec fn reassembled(
    channels: Map<u32, PartialView>,
    packets: Seq<PacketView>,
) -> (Map<u32, PartialView>, Seq<Option<MessageView>>)
    decreases packets.len(),
{
    if packets.len() == 0 {
        (channels, Seq::empty())
    } else {
        let before = reassembled(channels, packets.drop_last());
        let after = super::reassembly_step(before.0, packets.last());
        (after.0, before.1.push(after.1))
    }
}

/// Parsing the report of a packet gives the packet back.
pub proof fn law_parse_inverts_serialize(packet: PacketView)
    requires
        packet.valid(),
    ensures
        packet.serialized().len() == super::CTAP_HID_REPORT_SIZE,
        PacketView::parsed(packet.serialized()) == Some(packet),
{
    let report = packet.serialized();
    match packet {
        PacketView::Init { cid, cmd, bcnt, data } => {
            assert(report.subrange(0, 4) =~= crate::bytes::be32(cid));
            assert(report.subrange(5, 7) =~= crate::bytes::be16(bcnt));
            assert(crate::bytes::padded(report.skip(7), INIT_DATA_SIZE as nat) =~= data);
            crate::bytes::lemma_be32_round_trip(cid);
            crate::bytes::lemma_be16_round_trip(bcnt);
        },
        PacketView::Cont { cid, seq, data } => {
            assert(report.subrange(0, 4) =~= crate::bytes::be32(cid));
            assert(crate::bytes::padded(report.skip(5), CONT_DATA_SIZE as nat) =~= data);
            crate::bytes::lemma_be32_round_trip(cid);
        },
    }
}

/// Every 64-byte report is a packet, and the packet's report is that report.
pub proof fn law_serialize_inverts_parse(report: Seq<u8>)
    requires
        report.len() == super::CTAP_HID_REPORT_SIZE,
    ensures
        PacketView::parsed(report) is Some,
        PacketView::parsed(report)->0.valid(),
        PacketView::parsed(report)->0.serialized() == report,
{
    crate::bytes::lemma_from_be32_round_trip(report.subrange(0, 4));
    crate::bytes::lemma_from_be16_round_trip(report.subrange(5, 7));
    assert(PacketView::parsed(report)->0.serialized() =~= report);
}

/// A packet changes no channel but its own, and what it completes is on its
/// own channel.
pub proof fn law_other_channels_are_untouched(
    channels: Map<u32, PartialView>,
    packet: PacketView,
    other: u32,
)
    requires
        other != packet.cid(),
    ensures
        super::reassembly_step(channels, packet).0.contains_key(other) == channels.contains_key(
            other,
        ),
        channels.contains_key(other) ==> super::reassembly_step(channels, packet).0[other]
            == channels[other],
        super::reassembly_step(channels, packet).1 matches Some(m) ==> m.cid == packet.cid(),
{
}

/// Packets of two channels may arrive in either order: the unfinished messages
/// and what each packet completes are the same.
pub proof fn law_channels_are_independent(
    channels: Map<u32, PartialView>,
    first: PacketView,
    second: PacketView,
)
    requires
        first.cid() != second.cid(),
    ensures
        ({
            let a = super::reassembly_step(channels, first);
            let b = super::reassembly_step(channels, second);
            &&& super::reassembly_step(a.0, second).0 == super::reassembly_step(b.0, first).0
            &&& super::reassembly_step(a.0, second).1 == b.1
            &&& super::reassembly_step(b.0, first).1 == a.1
        }),
{
    let a = super::reassembly_step(channels, first);
    let b = super::reassembly_step(channels, second);
    assert(super::reassembly_step(a.0, second).0 =~= super::reassembly_step(b.0, first).0);
}

/// A continuation packet with the wrong sequence number completes nothing and
/// discards the unfinished message of its channel.
pub proof fn law_out_of_order_packet_discards_the_message(
    channels: Map<u32, PartialView>,
    cid: u32,
    seq: u8,
    data: Seq<u8>,
)
    requires
        channels.contains_key(cid),
        seq != channels[cid].next_seq,
    ensures
        ({
            let after = super::reassembly_step(channels, PacketView::Cont { cid, seq, data });
            &&& after.1 is None
            &&& after.0 == channels.remove(cid)
        }),
{
}

/// Whether `packets` carry a message: an initialization packet that announces it
/// and as many continuation packets as its payload needs, in order. What stands
/// behind the end of the payload does not matter.
pub open spec fn carries(packets: Seq<PacketView>, message: MessageView) -> bool {
    &&& packets.len() == 1 + MessageView::cont_count(message.payload.len())
    &&& forall|i: int| 0 <= i < packets.len() ==> carries_part(#[trigger] packets[i], message, i)
}

/// Whether a packet is the `i`-th of a message.
pub open spec fn carries_part(packet: PacketView, message: MessageView, i: int) -> bool {
    match packet {
        PacketView::Init { cid, cmd, bcnt, data } => {
            &&& i == 0
            &&& cid == message.cid
            &&& cmd == message.cmd
            &&& bcnt == message.payload.len()
            &&& data.len() == INIT_DATA_SIZE
            &&& begins_alike(data, message.payload)
        },
        PacketView::Cont { cid, seq, data } => {
            &&& i > 0
            &&& cid == message.cid
            &&& seq == i - 1
            &&& data.len() == CONT_DATA_SIZE
            &&& begins_alike(
                data,
                message.payload.skip(INIT_DATA_SIZE + (i - 1) * CONT_DATA_SIZE),
            )
        },
    }
}

/// Whether two byte strings agree as far as both go.
pub open spec fn begins_alike(a: Seq<u8>, b: Seq<u8>) -> bool {
    forall|k: int| 0 <= k < a.len() && k < b.len() ==> #[trigger] a[k] == b[k]
}

/// Reassembling packets that carry a message gives the message with the last
/// packet and nothing before, whatever other messages are unfinished and whatever
/// bytes follow the payload. A message of several packets leaves nothing behind
/// on its channel.
pub proof fn law_reassembly_gives_the_carried_message(
    channels: Map<u32, PartialView>,
    packets: Seq<PacketView>,
    message: MessageView,
)
    requires
        message.payload.len() <= MAX_PAYLOAD_SIZE,
        carries(packets, message),
    ensures
        ({
            let after = reassembled(channels, packets);
            &&& after.1 == Seq::new(
                packets.len(),
                |i: int|
                    if i == packets.len() - 1 {
                        Some(message)
                    } else {
                        None::<MessageView>
                    },
            )
            &&& after.0 == (if message.payload.len() <= INIT_DATA_SIZE {
                channels
            } else {
                channels.remove(message.cid)
            })
            &&& message.payload.len() > INIT_DATA_SIZE ==> forall|seq: u8, data: Seq<u8>|
                (#[trigger] super::reassembly_step(
                    after.0,
                    PacketView::Cont { cid: message.cid, seq, data },
                )).1 is None
        }),
{
    let n = packets.len();
    assert(carries_part(packets[n - 1], message, n - 1));
    if n == 1 {
        assert(packets.drop_last() =~= Seq::empty());
        let data = packets[0]->Init_data;
        assert(data.take(message.payload.len() as int) =~= message.payload);
        let before = reassembled(channels, packets.drop_last());
        assert(before == (channels, Seq::<Option<MessageView>>::empty()));
        assert(reassembled(channels, packets).1 =~= seq![Some(message)]);
    } else {
        lemma_prefix(channels, packets, message, n - 1);
        assert(packets.drop_last() =~= packets.take(n - 1));
        let before = reassembled(channels, packets.take(n - 1));
        let partial = before.0[message.cid];
        let at = INIT_DATA_SIZE + (n - 2) * CONT_DATA_SIZE;
        let data = packets[n - 1]->Cont_data;
        assert(partial.payload == message.payload.take(at));
        let rest = message.payload.skip(at);
        assert(data.take(rest.len() as int) =~= rest);
        assert(partial.extended(data).payload =~= message.payload);
        assert(before.0.remove(message.cid) =~= channels.remove(message.cid));
    }
    assert(reassembled(channels, packets).1 =~= Seq::new(
        n,
        |i: int|
            if i == n - 1 {
                Some(message)
            } else {
                None::<MessageView>
            },
    ));
}

/// Reassembling the packets that a message is framed in gives the message.
pub proof fn law_reassembly_inverts_framing(
    channels: Map<u32, PartialView>,
    message: MessageView,
)
    requires
        message.payload.len() <= MAX_PAYLOAD_SIZE,
    ensures
        ({
            let packets = message.packets();
            let after = reassembled(channels, packets);
            &&& after.1 == Seq::new(
                packets.len(),
                |i: int|
                    if i == packets.len() - 1 {
                        Some(message)
                    } else {
                        None::<MessageView>
                    },
            )
            &&& after.0 == (if message.payload.len() <= INIT_DATA_SIZE {
                channels
            } else {
                channels.remove(message.cid)
            })
        }),
{
    let packets = message.packets();
    assert forall|i: int| 0 <= i < packets.len() implies carries_part(
        #[trigger] packets[i],
        message,
        i,
    ) by {
        assert(packets[i] == message.packet(i));
    }
    law_reassembly_gives_the_carried_message(channels, packets, message);
}

/// The packets of one channel, in order.
pub open spec fn own_packets(packets: Seq<PacketView>, cid: u32) -> Seq<PacketView>
    decreases packets.len(),
{
    if packets.len() == 0 {
        Seq::empty()
    } else {
        let before = own_packets(packets.drop_last(), cid);
        if packets.last().cid() == cid {
            before.push(packets.last())
        } else {
            before
        }
    }
}

/// What the packets of one channel complete when all `packets` arrive in order.
pub open spec fn own_results(
    channels: Map<u32, PartialView>,
    packets: Seq<PacketView>,
    cid: u32,
) -> Seq<Option<MessageView>>
    decreases packets.len(),
{
    if packets.len() == 0 {
        Seq::empty()
    } else {
        let before = own_results(channels, packets.drop_last(), cid);
        if packets.last().cid() == cid {
            before.push(
                super::reassembly_step(
                    reassembled(channels, packets.drop_last()).0,
                    packets.last(),
                ).1,
            )
        } else {
            before
        }
    }
}

/// What a channel gets out of any sequence of packets is what it gets out of its
/// own packets alone, and whatever it gets is a message of its own.
pub proof fn law_channels_get_what_their_own_packets_give(
    channels: Map<u32, PartialView>,
    packets: Seq<PacketView>,
    cid: u32,
)
    ensures
        own_results(channels, packets, cid) == reassembled(channels, own_packets(packets, cid)).1,
        reassembled(channels, packets).0.contains_key(cid) == reassembled(
            channels,
            own_packets(packets, cid),
        ).0.contains_key(cid),
        reassembled(channels, packets).0.contains_key(cid) ==> reassembled(channels, packets).0[cid]
            == reassembled(channels, own_packets(packets, cid)).0[cid],
        forall|i: int|
            0 <= i < own_results(channels, packets, cid).len() ==> {
                (#[trigger] own_results(channels, packets, cid)[i]) matches Some(m) ==> m.cid == cid
            },
    decreases packets.len(),
{
    if packets.len() > 0 {
        let rest = packets.drop_last();
        let last = packets.last();
        law_channels_get_what_their_own_packets_give(channels, rest, cid);
        let all = reassembled(channels, rest).0;
        let own = reassembled(channels, own_packets(rest, cid)).0;
        if last.cid() == cid {
            assert(own_packets(packets, cid).drop_last() =~= own_packets(rest, cid));
            lemma_step_depends_on_own_channel(all, own, last);
        } else {
            law_other_channels_are_untouched(all, last, cid);
        }
    }
}

proof fn lemma_step_depends_on_own_channel(
    a: Map<u32, PartialView>,
    b: Map<u32, PartialView>,
    packet: PacketView,
)
    requires
        a.contains_key(packet.cid()) == b.contains_key(packet.cid()),
        a.contains_key(packet.cid()) ==> a[packet.cid()] == b[packet.cid()],
    ensures
        super::reassembly_step(a, packet).1 == super::reassembly_step(b, packet).1,
        super::reassembly_step(a, packet).0.contains_key(packet.cid()) == super::reassembly_step(
            b,
            packet,
        ).0.contains_key(packet.cid()),
        super::reassembly_step(a, packet).0.contains_key(packet.cid())
            ==> super::reassembly_step(a, packet).0[packet.cid()] == super::reassembly_step(
            b,
            packet,
        ).0[packet.cid()],
        super::reassembly_step(a, packet).1 matches Some(m) ==> m.cid == packet.cid(),
{
}

/// Packets of valid shape keep the unfinished messages well-formed, and a message
/// that they complete is short enough to be framed again.
pub proof fn law_completed_messages_can_be_framed(
    channels: Map<u32, PartialView>,
    packet: PacketView,
)
    requires
        super::channels_wf(channels),
        packet.valid(),
    ensures
        super::channels_wf(super::reassembly_step(channels, packet).0),
        super::reassembly_step(channels, packet).1 matches Some(message)
            ==> message.payload.len() <= MAX_PAYLOAD_SIZE,
{
    match packet {
        PacketView::Cont { cid, seq, data } => {
            if channels.contains_key(cid) {
                assert(channels[cid].wf());
            }
        },
        _ => {},
    }
}

/// Each packet of a message with a valid command survives the trip through its
/// 64-byte report.
pub proof fn law_packets_survive_their_reports(message: MessageView, i: int)
    requires
        message.cmd >= 0x80,
        message.payload.len() <= MAX_PAYLOAD_SIZE,
        0 <= i < message.packets().len(),
    ensures
        message.packets()[i].valid(),
        PacketView::parsed(message.packets()[i].serialized()) == Some(message.packets()[i]),
{
    law_parse_inverts_serialize(message.packets()[i]);
}

/// After the first `i` packets, short of the last, the channel holds the bytes
/// they carry.
proof fn lemma_prefix(
    channels: Map<u32, PartialView>,
    packets: Seq<PacketView>,
    message: MessageView,
    i: int,
)
    requires
        INIT_DATA_SIZE < message.payload.len() <= MAX_PAYLOAD_SIZE,
        carries(packets, message),
        1 <= i < packets.len(),
    ensures
        ({
            let after = reassembled(channels, packets.take(i));
            &&& after.0 == channels.insert(
                message.cid,
                PartialView {
                    cmd: message.cmd,
                    bcnt: message.payload.len(),
                    payload: message.payload.take(INIT_DATA_SIZE + (i - 1) * CONT_DATA_SIZE),
                    next_seq: (i - 1) as u8,
                },
            )
            &&& after.1 == Seq::new(i as nat, |j: int| None::<MessageView>)
        }),
    decreases i,
{
    let prefix = packets.take(i);
    assert(prefix.last() == packets[i - 1]);
    assert(carries_part(packets[i - 1], message, i - 1));
    if i == 1 {
        assert(prefix.drop_last() =~= Seq::empty());
        let before = reassembled(channels, prefix.drop_last());
        assert(before == (channels, Seq::<Option<MessageView>>::empty()));
        assert(packets[0]->Init_data =~= message.payload.take(INIT_DATA_SIZE as int));
    } else {
        lemma_prefix(channels, packets, message, i - 1);
        assert(prefix.drop_last() =~= packets.take(i - 1));
        let before = reassembled(channels, packets.take(i - 1));
        let at = INIT_DATA_SIZE + (i - 2) * CONT_DATA_SIZE;
        let data = packets[i - 1]->Cont_data;
        let rest = message.payload.skip(at);
        assert(data =~= rest.take(CONT_DATA_SIZE as int));
        let next = before.0[message.cid].extended(data);
        assert(next.payload =~= message.payload.take(at + CONT_DATA_SIZE));
        assert(before.0.insert(message.cid, next) =~= channels.insert(message.cid, next));
    }
    assert(reassembled(channels, prefix).1 =~= Seq::new(i as nat, |j: int| None::<MessageView>));
}

/// How a packet stands in its report: the channel in four bytes and the payload
/// length in two, most significant byte first; the command or the sequence number
/// at 4; and the data at 7 or at 5.
pub proof fn law_reports_are_laid_out(packet: PacketView)
    ensures
        ({
            let report = packet.serialized();
            &&& report[0] * 0x100_0000 + report[1] * 0x1_0000 + report[2] * 0x100 + report[3]
                == packet.cid()
            &&& match packet {
                PacketView::Init { cmd, bcnt, data, .. } => {
                    &&& report[4] == cmd
                    &&& report[5] * 0x100 + report[6] == bcnt
                    &&& report.skip(7) == data
                },
                PacketView::Cont { seq, data, .. } => report[4] == seq && report.skip(5) == data,
            }
        }),
{
    let report = packet.serialized();
    let head = crate::bytes::be32(packet.cid());
    crate::bytes::lemma_be32_round_trip(packet.cid());
    assert(report[0] == head[0] && report[1] == head[1] && report[2] == head[2] && report[3]
        == head[3]);
    assert(head[0] * 0x100_0000 + head[1] * 0x1_0000 + head[2] * 0x100 + head[3]
        == packet.cid());
    match packet {
        PacketView::Init { data, .. } => {
            assert(report.skip(7) =~= data);
        },
        PacketView::Cont { data, .. } => {
            assert(report.skip(5) =~= data);
        },
    }
}

/// How a report is read: five bytes make a continuation packet, and seven an
/// initialization packet, which has bit 7 of byte 4 set; missing data is zero, and
/// what stands behind 64 bytes does not matter.
pub proof fn law_reports_are_read_as_laid_out(report: Seq<u8>)
    ensures
        PacketView::parsed(report) is None <==> report.len() < 5 || report[4] >= 0x80
            && report.len() < 7,
        PacketView::parsed(report) matches Some(packet) ==> {
            &&& packet.cid() == report[0] * 0x100_0000 + report[1] * 0x1_0000 + report[2] * 0x100
                + report[3]
            &&& match packet {
                PacketView::Init { cmd, bcnt, data, .. } => {
                    &&& report[4] >= 0x80
                    &&& cmd == report[4]
                    &&& bcnt == report[5] * 0x100 + report[6]
                    &&& data.len() == 57
                    &&& forall|i: int|
                        0 <= i < 57 ==> #[trigger] data[i] == if 7 + i < report.len() {
                            report[7 + i]
                        } else {
                            0
                        }
                },
                PacketView::Cont { seq, data, .. } => {
                    &&& report[4] < 0x80
                    &&& seq == report[4]
                    &&& data.len() == 59
                    &&& forall|i: int|
                        0 <= i < 59 ==> #[trigger] data[i] == if 5 + i < report.len() {
                            report[5 + i]
                        } else {
                            0
                        }
                },
            }
        },
{
}

/// How a message is framed: the first packet names its command and its length and
/// carries the first 57 bytes; the packets behind it are numbered from zero and
/// carry 59 bytes each. There are as many as the payload needs, and the rest of the
/// last one is zero.
pub proof fn law_messages_are_framed_in_order(message: MessageView, i: int)
    requires
        message.payload.len() <= MAX_PAYLOAD_SIZE,
        0 <= i < message.packets().len(),
    ensures
        message.payload.len() <= 57 ==> message.packets().len() == 1,
        message.payload.len() > 57 ==> 57 + (message.packets().len() - 2) * 59
            < message.payload.len() <= 57 + (message.packets().len() - 1) * 59,
        message.packets()[i].cid() == message.cid,
        match message.packets()[i] {
            PacketView::Init { cmd, bcnt, data, .. } => {
                &&& i == 0
                &&& cmd == message.cmd
                &&& bcnt == message.payload.len()
                &&& data.len() == 57
                &&& forall|k: int|
                    0 <= k < 57 ==> #[trigger] data[k] == if k < message.payload.len() {
                        message.payload[k]
                    } else {
                        0
                    }
            },
            PacketView::Cont { seq, data, .. } => {
                &&& i > 0
                &&& seq == i - 1
                &&& data.len() == 59
                &&& forall|k: int|
                    0 <= k < 59 ==> #[trigger] data[k] == if 57 + (i - 1) * 59 + k
                        < message.payload.len() {
                        message.payload[57 + (i - 1) * 59 + k]
                    } else {
                        0
                    }
            },
        },
{
    let len = message.payload.len();
    let n = MessageView::cont_count(len);
    if len > 57 {
        assert((n - 1) * 59 < len - 57 <= n * 59);
    }
    if i > 0 {
        let at = 57 + (i - 1) * 59;
        assert(at <= len) by (nonlinear_arith)
            requires
                at == 57 + (i - 1) * 59,
                i <= n,
                (n - 1) * 59 < len - 57,
        ;
        assert(i - 1 < 128);
        let data = message.packets()[i]->Cont_data;
        assert forall|k: int| 0 <= k < 59 implies #[trigger] data[k] == if at + k < len {
            message.payload[at + k]
        } else {
            0
        } by {
            assert(message.payload.skip(at).len() == len - at);
        }
    }
}

/// An initialization packet that announces more than it carries starts a message
/// on its channel in place of whatever was unfinished there, and completes nothing.
/// One that carries all it announces is a message of its own.
pub proof fn law_initialization_packets_start_messages(
    channels: Map<u32, PartialView>,
    cid: u32,
    cmd: u8,
    bcnt: u16,
    data: Seq<u8>,
)
    requires
        data.len() == 57,
    ensures
        ({
            let after = super::reassembly_step(channels, PacketView::Init { cid, cmd, bcnt, data });
            if bcnt <= 57 {
                &&& after.0 == channels
                &&& after.1 == Some(MessageView { cid, cmd, payload: data.take(bcnt as int) })
            } else {
                &&& after.1 is None
                &&& after.0.remove(cid) == channels.remove(cid)
                &&& after.0.contains_key(cid)
                &&& after.0[cid].cmd == cmd
                &&& after.0[cid].bcnt == bcnt
                &&& after.0[cid].payload == data
                &&& after.0[cid].next_seq == 0
            }
        }),
{
    let after = super::reassembly_step(channels, PacketView::Init { cid, cmd, bcnt, data });
    if bcnt > 57 {
        assert(after.0.remove(cid) =~= channels.remove(cid));
    }
}

/// The continuation packet that a channel waits for adds its data, as far as it was
/// announced, and completes the message when nothing is missing any more. On a
/// channel without an unfinished message a continuation packet does nothing.
pub proof fn law_continuation_packets_add_their_data(
    channels: Map<u32, PartialView>,
    cid: u32,
    seq: u8,
    data: Seq<u8>,
)
    requires
        data.len() == 59,
        channels.contains_key(cid) ==> channels[cid].wf() && seq == channels[cid].next_seq && seq
            < 0xff,
    ensures
        ({
            let after = super::reassembly_step(channels, PacketView::Cont { cid, seq, data });
            if !channels.contains_key(cid) {
                after.0 == channels && after.1 is None
            } else {
                let held = channels[cid];
                let missing = held.bcnt - held.payload.len();
                if missing <= 59 {
                    &&& after.0 == channels.remove(cid)
                    &&& after.1 == Some(
                        MessageView { cid, cmd: held.cmd, payload: held.payload + data.take(missing) },
                    )
                } else {
                    &&& after.1 is None
                    &&& after.0.remove(cid) == channels.remove(cid)
                    &&& after.0.contains_key(cid)
                    &&& after.0[cid].cmd == held.cmd
                    &&& after.0[cid].bcnt == held.bcnt
                    &&& after.0[cid].payload == held.payload + data
                    &&& after.0[cid].next_seq == seq + 1
                }
            }
        }),
{
    let after = super::reassembly_step(channels, PacketView::Cont { cid, seq, data });
    if channels.contains_key(cid) {
        assert(data.take(59) =~= data);
        assert(after.0.remove(cid) =~= channels.remove(cid));
    }
}

} // verus!
