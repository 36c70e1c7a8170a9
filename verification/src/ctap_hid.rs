//! CTAP HID packet definitions, parsing, framing and reassembly.
//!
//! A message travels in 64-byte reports. Its first report is an initialization
//! packet with up to 57 payload bytes; each further report is a continuation
//! packet with up to 59 payload bytes and a sequence number.

use crate::bytes::{copy_range, padded_array, push_all, push_be16, push_be32, read_be16, read_be32};
use std::collections::HashMap;
use vstd::prelude::*;

pub mod command;
pub mod laws;

verus! {

broadcast use vstd::std_specs::hash::group_hash_axioms;

pub const CTAP_HID_REPORT_SIZE: usize = 64;

/// Payload bytes of an initialization packet.
pub const INIT_DATA_SIZE: usize = 57;

/// Payload bytes of a continuation packet.
pub const CONT_DATA_SIZE: usize = 59;

/// The longest payload that one initialization packet and the 128 continuation
/// packets with sequence numbers 0x00 to 0x7f can carry.
pub const MAX_PAYLOAD_SIZE: usize = 7609;

/// A CTAP HID packet, which can be either an Initialization or a Continuation packet.
#[derive(Debug, Clone, PartialEq, Eq)]
pub enum CtapHidPacket {
    Init(CtapHidInitPacket),
    Cont(CtapHidContPacket),
}

/// An Initialization packet (first packet of a message).
#[derive(Debug, Clone, PartialEq, Eq)]
pub struct CtapHidInitPacket {
    /// Channel Identifier.
    pub cid: u32,
    /// Command identifier (with bit 7 set).
    pub cmd: u8,
    /// Total payload length (big-endian).
    pub bcnt: u16,
    /// Payload data (up to 57 bytes).
    pub data: [u8; 57],
}

/// A Continuation packet (subsequent packets of a message).
#[derive(Debug, Clone, PartialEq, Eq)]
pub struct CtapHidContPacket {
    /// Channel Identifier.
    pub cid: u32,
    /// Sequence number (0x00 to 0x7f).
    pub seq: u8,
    /// Payload data (up to 59 bytes).
    pub data: [u8; 59],
}

/// A complete CTAP HID message, reassembled from one or more packets.
#[derive(Debug, Clone, PartialEq, Eq)]
pub struct CtapHidMessage {
    /// Channel Identifier.
    pub cid: u32,
    /// Command identifier.
    pub cmd: u8,
    /// Full message payload.
    pub payload: Vec<u8>,
}

/// Helper to reassemble CTAP HID packets into complete messages.
pub struct CtapHidReassembler {
    channels: HashMap<u32, IncompleteMessage>,
}

struct IncompleteMessage {
    cmd: u8,
    bcnt: usize,
    payload: Vec<u8>,
    next_seq: u8,
}

/// The contents of a packet.
#[verifier::ext_equal]
pub enum PacketView {
    Init { cid: u32, cmd: u8, bcnt: u16, data: Seq<u8> },
    Cont { cid: u32, seq: u8, data: Seq<u8> },
}

/// The contents of a message.
#[verifier::ext_equal]
pub struct MessageView {
    pub cid: u32,
    pub cmd: u8,
    pub payload: Seq<u8>,
}

/// What a channel has received of a message that is not complete yet.
#[verifier::ext_equal]
pub struct PartialView {
    pub cmd: u8,
    pub bcnt: nat,
    pub payload: Seq<u8>,
    pub next_seq: u8,
}

impl View for CtapHidPacket {
    type V = PacketView;

    open spec fn view(&self) -> PacketView {
        match *self {
            CtapHidPacket::Init(p) => PacketView::Init {
                cid: p.cid,
                cmd: p.cmd,
                bcnt: p.bcnt,
                data: p.data@,
            },
            CtapHidPacket::Cont(p) => PacketView::Cont { cid: p.cid, seq: p.seq, data: p.data@ },
        }
    }
}

impl View for CtapHidMessage {
    type V = MessageView;

    open spec fn view(&self) -> MessageView {
        MessageView { cid: self.cid, cmd: self.cmd, payload: self.payload@ }
    }
}

impl IncompleteMessage {
    spec fn partial(&self) -> PartialView {
        PartialView {
            cmd: self.cmd,
            bcnt: self.bcnt as nat,
            payload: self.payload@,
            next_seq: self.next_seq,
        }
    }
}

/// The unfinished messages, by channel.
impl View for CtapHidReassembler {
    type V = Map<u32, PartialView>;

    closed spec fn view(&self) -> Map<u32, PartialView> {
        partials(self.channels@)
    }
}

impl PacketView {
    pub open spec fn cid(self) -> u32 {
        match self {
            PacketView::Init { cid, .. } => cid,
            PacketView::Cont { cid, .. } => cid,
        }
    }

    /// Whether the packet has the shape of its kind: bit 7 tells the two kinds
    /// apart, and the data fills the report.
    pub open spec fn valid(self) -> bool {
        match self {
            PacketView::Init { cmd, data, .. } => cmd >= 0x80 && data.len() == INIT_DATA_SIZE,
            PacketView::Cont { seq, data, .. } => seq < 0x80 && data.len() == CONT_DATA_SIZE,
        }
    }

    /// The bytes of the report that carries the packet.
    pub open spec fn serialized(self) -> Seq<u8> {
        match self {
            PacketView::Init { cid, cmd, bcnt, data } => crate::bytes::be32(cid) + seq![cmd]
                + crate::bytes::be16(bcnt) + data,
            PacketView::Cont { cid, seq, data } => crate::bytes::be32(cid) + seq![seq] + data,
        }
    }

    /// The packet that a report holds, if it holds one.
    pub open spec fn parsed(report: Seq<u8>) -> Option<PacketView> {
        if report.len() < 5 {
            None
        } else if report[4] >= 0x80 {
            if report.len() < 7 {
                None
            } else {
                Some(
                    PacketView::Init {
                        cid: crate::bytes::from_be32(report.subrange(0, 4)),
                        cmd: report[4],
                        bcnt: crate::bytes::from_be16(report.subrange(5, 7)),
                        data: crate::bytes::padded(report.skip(7), INIT_DATA_SIZE as nat),
                    },
                )
            }
        } else {
            Some(
                PacketView::Cont {
                    cid: crate::bytes::from_be32(report.subrange(0, 4)),
                    seq: report[4],
                    data: crate::bytes::padded(report.skip(5), CONT_DATA_SIZE as nat),
                },
            )
        }
    }
}

impl MessageView {
    /// How many continuation packets a payload of `len` bytes needs.
    pub open spec fn cont_count(len: nat) -> nat {
        if len <= INIT_DATA_SIZE {
            0
        } else {
            ((len - INIT_DATA_SIZE + CONT_DATA_SIZE - 1) / CONT_DATA_SIZE as int) as nat
        }
    }

    /// The `i`-th packet of the message: the initialization packet is packet 0.
    pub open spec fn packet(self, i: int) -> PacketView {
        if i == 0 {
            PacketView::Init {
                cid: self.cid,
                cmd: self.cmd,
                bcnt: self.payload.len() as u16,
                data: crate::bytes::padded(self.payload, INIT_DATA_SIZE as nat),
            }
        } else {
            PacketView::Cont {
                cid: self.cid,
                seq: (i - 1) as u8,
                data: crate::bytes::padded(
                    self.payload.skip(INIT_DATA_SIZE + (i - 1) * CONT_DATA_SIZE),
                    CONT_DATA_SIZE as nat,
                ),
            }
        }
    }

    /// The packets that carry the message, in order.
    pub open spec fn packets(self) -> Seq<PacketView> {
        Seq::new(1 + Self::cont_count(self.payload.len()), |i: int| self.packet(i))
    }
}

impl PartialView {
    /// Some announced bytes are still missing, and every packet so far was full.
    pub open spec fn wf(self) -> bool {
        &&& self.payload.len() < self.bcnt <= u16::MAX
        &&& self.payload.len() == INIT_DATA_SIZE + self.next_seq * CONT_DATA_SIZE
    }

    /// The channel's state after the continuation data `data`.
    pub open spec fn extended(self, data: Seq<u8>) -> PartialView {
        let remaining = self.bcnt - self.payload.len();
        let taken = if remaining <= data.len() { remaining } else { data.len() as int };
        PartialView {
            cmd: self.cmd,
            bcnt: self.bcnt,
            payload: self.payload + data.take(taken),
            next_seq: (self.next_seq + 1) as u8,
        }
    }
}

/// Whether every unfinished message is well-formed.
pub open spec fn channels_wf(channels: Map<u32, PartialView>) -> bool {
    forall|cid: u32| #[trigger] channels.contains_key(cid) ==> channels[cid].wf()
}

/// The unfinished messages and the finished message, if any, after `packet`
/// arrives while `channels` are the unfinished messages.
pub open spec fn reassembly_step(
    channels: Map<u32, PartialView>,
    packet: PacketView,
) -> (Map<u32, PartialView>, Option<MessageView>) {
    match packet {
        PacketView::Init { cid, cmd, bcnt, data } => {
            if bcnt <= data.len() {
                (channels, Some(MessageView { cid, cmd, payload: data.take(bcnt as int) }))
            } else {
                (
                    channels.insert(
                        cid,
                        PartialView { cmd, bcnt: bcnt as nat, payload: data, next_seq: 0 },
                    ),
                    None,
                )
            }
        },
        PacketView::Cont { cid, seq, data } => {
            if !channels.contains_key(cid) {
                (channels, None)
            } else if seq != channels[cid].next_seq {
                (channels.remove(cid), None)
            } else {
                let next = channels[cid].extended(data);
                if next.payload.len() >= next.bcnt {
                    (
                        channels.remove(cid),
                        Some(MessageView { cid, cmd: next.cmd, payload: next.payload }),
                    )
                } else {
                    (channels.insert(cid, next), None)
                }
            }
        },
    }
}

impl CtapHidPacket {
    /// Parses a raw HID report (expected to be 64 bytes) into a `CtapHidPacket`.
    pub fn parse(buf: &[u8]) -> (packet: Option<Self>)
        ensures
            match packet {
                Some(p) => PacketView::parsed(buf@) == Some(p@),
                None => PacketView::parsed(buf@) is None,
            },
    {
        if buf.len() < 5 {
            return None;
        }
        let cid: u32 = read_be32(buf, 0);
        let first_byte: u8 = buf[4];
        assert((first_byte & 0x80 != 0) == (first_byte >= 0x80)) by (bit_vector);
        if first_byte & 0x80 != 0 {
            if buf.len() < 7 {
                return None;
            }
            let bcnt: u16 = read_be16(buf, 5);
            let data: [u8; 57] = padded_array(buf, 7);
            Some(CtapHidPacket::Init(CtapHidInitPacket { cid, cmd: first_byte, bcnt, data }))
        } else {
            let data: [u8; 59] = padded_array(buf, 5);
            Some(CtapHidPacket::Cont(CtapHidContPacket { cid, seq: first_byte, data }))
        }
    }

    /// The 64-byte report that carries the packet.
    pub fn serialize(&self) -> (report: [u8; 64])
        ensures
            report@ == self@.serialized(),
    {
        let mut out: Vec<u8> = Vec::new();
        match self {
            CtapHidPacket::Init(packet) => {
                push_be32(&mut out, packet.cid);
                out.push(packet.cmd);
                push_be16(&mut out, packet.bcnt);
                push_all(&mut out, &packet.data);
            },
            CtapHidPacket::Cont(packet) => {
                push_be32(&mut out, packet.cid);
                out.push(packet.seq);
                push_all(&mut out, &packet.data);
            },
        }
        assert(out@ =~= self@.serialized());
        let report: [u8; 64] = padded_array(&out, 0);
        assert(report@ =~= out@);
        report
    }
}

impl CtapHidMessage {
    /// Splits the message into the packets that carry it.
    pub fn to_packets(&self) -> (packets: Vec<CtapHidPacket>)
        requires
            self.payload@.len() <= MAX_PAYLOAD_SIZE,
        ensures
            packets@.map_values(|p: CtapHidPacket| p@) == self@.packets(),
    {
        let mut packets: Vec<CtapHidPacket> = Vec::new();
        let len: usize = self.payload.len();
        let data: [u8; 57] = padded_array(&self.payload, 0);
        assert(self.payload@.skip(0) =~= self.payload@);
        packets.push(
            CtapHidPacket::Init(
                CtapHidInitPacket { cid: self.cid, cmd: self.cmd, bcnt: len as u16, data },
            ),
        );
        let mut offset: usize = INIT_DATA_SIZE;
        let mut seq: u8 = 0;
        while offset < len
            invariant
                len == self.payload@.len(),
                len <= MAX_PAYLOAD_SIZE,
                offset == INIT_DATA_SIZE + seq * CONT_DATA_SIZE,
                seq == 0 || offset < len + CONT_DATA_SIZE,
                packets@.len() == seq + 1,
                forall|i: int| 0 <= i <= seq ==> (#[trigger] packets@[i])@ == self@.packet(i),
            decreases len + CONT_DATA_SIZE - offset,
        {
            let data: [u8; 59] = padded_array(&self.payload, offset);
            packets.push(CtapHidPacket::Cont(CtapHidContPacket { cid: self.cid, seq, data }));
            assert(packets@[seq + 1]@ == self@.packet(seq + 1));
            offset = offset + CONT_DATA_SIZE;
            seq = seq + 1;
        }
        assert(packets@.map_values(|p: CtapHidPacket| p@) =~= self@.packets());
        packets
    }
}

impl Default for CtapHidReassembler {
    fn default() -> (reassembler: Self)
        ensures
            reassembler@ == Map::<u32, PartialView>::empty(),
    {
        let channels: HashMap<u32, IncompleteMessage> = HashMap::new();
        assert(partials(channels@) =~= Map::<u32, PartialView>::empty());
        CtapHidReassembler { channels }
    }
}

spec fn partials(channels: Map<u32, IncompleteMessage>) -> Map<u32, PartialView> {
    channels.map_values(|m: IncompleteMessage| m.partial())
}

impl CtapHidReassembler {
    /// Every unfinished message is well-formed.
    #[verifier::type_invariant]
    spec fn has_wf_channels(&self) -> bool {
        channels_wf(partials(self.channels@))
    }

    pub fn new() -> (reassembler: Self)
        ensures
            reassembler@ == Map::<u32, PartialView>::empty(),
    {
        Self::default()
    }

    /// Processes a single packet and returns a complete message if it's finished.
    ///
    /// A packet that [`CtapHidPacket::parse`] gives has a sequence number below
    /// 0x80, so it always meets the precondition.
    pub fn handle_packet(&mut self, packet: CtapHidPacket) -> (message: Option<CtapHidMessage>)
        requires
            packet@ matches PacketView::Cont { cid, seq, .. } ==> !(seq == 0xff
                && old(self)@.contains_key(cid) && old(self)@[cid].next_seq == 0xff),
        ensures
            channels_wf(final(self)@),
            final(self)@ == reassembly_step(old(self)@, packet@).0,
            match message {
                Some(m) => reassembly_step(old(self)@, packet@).1 == Some(m@),
                None => reassembly_step(old(self)@, packet@).1 is None,
            },
    {
        proof {
            use_type_invariant(&*self);
        }
        let mut channels: HashMap<u32, IncompleteMessage> = HashMap::new();
        assert(partials(channels@) =~= Map::<u32, PartialView>::empty());
        std::mem::swap(&mut channels, &mut self.channels);
        let message = step(&mut channels, packet);
        self.channels = channels;
        message
    }
}

/// Updates the unfinished messages with one packet.
fn step(channels: &mut HashMap<u32, IncompleteMessage>, packet: CtapHidPacket) -> (message: Option<
    CtapHidMessage,
>)
    requires
        channels_wf(partials(old(channels)@)),
        packet@ matches PacketView::Cont { cid, seq, .. } ==> !(seq == 0xff && partials(
            old(channels)@,
        ).contains_key(cid) && partials(old(channels)@)[cid].next_seq == 0xff),
    ensures
        channels_wf(partials(final(channels)@)),
        partials(final(channels)@) == reassembly_step(partials(old(channels)@), packet@).0,
        match message {
            Some(m) => reassembly_step(partials(old(channels)@), packet@).1 == Some(m@),
            None => reassembly_step(partials(old(channels)@), packet@).1 is None,
        },
{
    let ghost before = partials(channels@);
    match packet {
        CtapHidPacket::Init(init) => {
            if init.bcnt as usize <= INIT_DATA_SIZE {
                let payload: Vec<u8> = copy_range(&init.data, 0, init.bcnt as usize);
                assert(payload@ =~= init.data@.take(init.bcnt as int));
                Some(CtapHidMessage { cid: init.cid, cmd: init.cmd, payload })
            } else {
                let payload: Vec<u8> = copy_range(&init.data, 0, INIT_DATA_SIZE);
                assert(payload@ =~= init.data@);
                channels.insert(
                    init.cid,
                    IncompleteMessage {
                        cmd: init.cmd,
                        bcnt: init.bcnt as usize,
                        payload,
                        next_seq: 0,
                    },
                );
                assert(partials(channels@) =~= reassembly_step(before, packet@).0);
                None
            }
        },
        CtapHidPacket::Cont(cont) => {
            match channels.remove(&cont.cid) {
                None => {
                    assert(partials(channels@) =~= before);
                    None
                },
                Some(msg) => {
                    let mut msg = msg;
                    assert(before[cont.cid] == msg.partial());
                    if cont.seq != msg.next_seq {
                        assert(partials(channels@) =~= reassembly_step(before, packet@).0);
                        return None;
                    }
                    let ghost held = msg.partial();
                    let remaining: usize = msg.bcnt - msg.payload.len();
                    let copy_len: usize = if remaining <= CONT_DATA_SIZE {
                        remaining
                    } else {
                        CONT_DATA_SIZE
                    };
                    let taken: Vec<u8> = copy_range(&cont.data, 0, copy_len);
                    assert(taken@ =~= cont.data@.take(copy_len as int));
                    push_all(&mut msg.payload, &taken);
                    msg.next_seq = msg.next_seq + 1;
                    assert(msg.partial() =~= held.extended(cont.data@));
                    if msg.payload.len() >= msg.bcnt {
                        assert(partials(channels@) =~= reassembly_step(before, packet@).0);
                        Some(
                            CtapHidMessage { cid: cont.cid, cmd: msg.cmd, payload: msg.payload },
                        )
                    } else {
                        channels.insert(cont.cid, msg);
                        assert(partials(channels@) =~= reassembly_step(before, packet@).0);
                        None
                    }
                },
            }
        },
    }
}

} // verus!
