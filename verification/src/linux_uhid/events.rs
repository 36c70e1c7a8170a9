//! The events that pass through `/dev/uhid`.
//!
//! An event is a fixed-size record: its type, and a request of that type in the
//! machine's byte order, followed by zeros.

use crate::bytes::{copy_range, push_all};
use vstd::prelude::*;

verus! {

pub const UHID_CREATE2: u32 = 11;

pub const UHID_OUTPUT: u32 = 6;

pub const UHID_INPUT2: u32 = 12;

pub const BUS_USB: u16 = 0x03;

/// The size of every event: four bytes of type and the largest request.
pub const UHID_EVENT_SIZE: usize = 4376;

/// The most bytes of an output event that are taken as its report.
pub const OUTPUT_REPORT_MAX: usize = 65;

pub const DEVICE_VENDOR: u32 = 0x1234;

pub const DEVICE_PRODUCT: u32 = 0x5678;

/// The device name `MPC Passkey Pure-Rust Device`.
pub const DEVICE_NAME: [u8; 28] = [
    0x4d, 0x50, 0x43, 0x20, 0x50, 0x61, 0x73, 0x73, 0x6b, 0x65, 0x79, 0x20, 0x50, 0x75, 0x72,
    0x65, 0x2d, 0x52, 0x75, 0x73, 0x74, 0x20, 0x44, 0x65, 0x76, 0x69, 0x63, 0x65,
];

/// FIDO2 HID Report Descriptor.
pub const FIDO_REPORT_DESC: [u8; 34] = [
    // Usage Page (FIDO Alliance)
    0x06, 0xd0, 0xf1,
    // Usage (U2FHID)
    0x09, 0x01,
    // Collection (Application)
    0xa1, 0x01,
    // Usage (Input Report Data)
    0x09, 0x20,
    // Logical Minimum (0)
    0x15, 0x00,
    // Logical Maximum (255)
    0x26, 0xff, 0x00,
    // Report Size (8)
    0x75, 0x08,
    // Report Count (64)
    0x95, 0x40,
    // Input (Data, Var, Abs)
    0x81, 0x02,
    // Usage (Output Report Data)
    0x09, 0x21,
    // Logical Minimum (0)
    0x15, 0x00,
    // Logical Maximum (255)
    0x26, 0xff, 0x00,
    // Report Size (8 bits)
    0x75, 0x08,
    // Report Count (64 bytes)
    0x95, 0x40,
    // Output (Data, Var, Abs)
    0x91, 0x02,
    // End Collection
    0xc0,
];

/// The order of the bytes of an integer in memory.
#[derive(Clone, Copy, Debug, PartialEq, Eq, Structural)]
pub enum ByteOrder {
    BigEndian,
    LittleEndian,
}

impl ByteOrder {
    /// The two bytes of `n` in this order.
    pub open spec fn bytes16(self, n: u16) -> Seq<u8> {
        match self {
            ByteOrder::BigEndian => crate::bytes::be16(n),
            ByteOrder::LittleEndian => crate::bytes::be16(n).reverse(),
        }
    }

    /// The four bytes of `n` in this order.
    pub open spec fn bytes32(self, n: u32) -> Seq<u8> {
        match self {
            ByteOrder::BigEndian => crate::bytes::be32(n),
            ByteOrder::LittleEndian => crate::bytes::be32(n).reverse(),
        }
    }

    fn push16(self, out: &mut Vec<u8>, n: u16)
        ensures
            final(out)@ == old(out)@ + self.bytes16(n),
    {
        let high: u8 = (n / 256) as u8;
        let low: u8 = (n % 256) as u8;
        match self {
            ByteOrder::BigEndian => {
                out.push(high);
                out.push(low);
            },
            ByteOrder::LittleEndian => {
                out.push(low);
                out.push(high);
            },
        }
        assert(out@ =~= old(out)@ + self.bytes16(n));
    }

    fn push32(self, out: &mut Vec<u8>, n: u32)
        ensures
            final(out)@ == old(out)@ + self.bytes32(n),
    {
        let a: u8 = (n / 16777216) as u8;
        let b: u8 = (n / 65536 % 256) as u8;
        let c: u8 = (n / 256 % 256) as u8;
        let d: u8 = (n % 256) as u8;
        match self {
            ByteOrder::BigEndian => {
                out.push(a);
                out.push(b);
                out.push(c);
                out.push(d);
            },
            ByteOrder::LittleEndian => {
                out.push(d);
                out.push(c);
                out.push(b);
                out.push(a);
            },
        }
        assert(out@ =~= old(out)@ + self.bytes32(n));
    }
}

/// An event of a type with a request, filled up with zeros.
pub open spec fn event(order: ByteOrder, event_type: u32, request: Seq<u8>) -> Seq<u8> {
    crate::bytes::padded(order.bytes32(event_type) + request, UHID_EVENT_SIZE as nat)
}

/// The request that registers the virtual device: its name, no physical path or
/// unique ID, its bus and IDs, and its report descriptor.
pub open spec fn create_request(order: ByteOrder) -> Seq<u8> {
    crate::bytes::padded(DEVICE_NAME@, 128) + crate::bytes::padded(seq![], 64)
        + crate::bytes::padded(seq![], 64) + order.bytes16(34) + order.bytes16(BUS_USB)
        + order.bytes32(DEVICE_VENDOR) + order.bytes32(DEVICE_PRODUCT) + order.bytes32(0)
        + order.bytes32(0) + FIDO_REPORT_DESC@
}

/// The request that carries a report to the host: its size and its data.
pub open spec fn input_request(order: ByteOrder, report: Seq<u8>) -> Seq<u8> {
    order.bytes16(64) + report
}

/// The report that an event brings from the host, if it brings one: the event's
/// data, no more than 65 bytes of it.
pub open spec fn output_report(order: ByteOrder, event: Seq<u8>) -> Option<Seq<u8>> {
    if event.len() < 4 || event.take(4) != order.bytes32(UHID_OUTPUT) {
        None
    } else {
        let available = event.len() - 4;
        let len = if available <= OUTPUT_REPORT_MAX {
            available
        } else {
            OUTPUT_REPORT_MAX as int
        };
        Some(event.subrange(4, 4 + len))
    }
}

/// Fills `out` up with zeros.
fn fill(out: &mut Vec<u8>, size: usize)
    requires
        old(out)@.len() <= size,
    ensures
        final(out)@ == crate::bytes::padded(old(out)@, size as nat),
{
    let ghost start = out@;
    while out.len() < size
        invariant
            start.len() <= out@.len() <= size,
            out@ == crate::bytes::padded(start, out@.len()),
        decreases size - out@.len(),
    {
        out.push(0);
        assert(out@ =~= crate::bytes::padded(start, out@.len()));
    }
}

/// The event that registers the virtual device.
pub fn create_event(order: ByteOrder) -> (bytes: Vec<u8>)
    ensures
        bytes@ == event(order, UHID_CREATE2, create_request(order)),
{
    let mut bytes: Vec<u8> = Vec::new();
    order.push32(&mut bytes, UHID_CREATE2);
    let mut name: Vec<u8> = Vec::new();
    push_all(&mut name, &DEVICE_NAME);
    fill(&mut name, 128);
    push_all(&mut bytes, &name);
    let mut none: Vec<u8> = Vec::new();
    fill(&mut none, 64);
    push_all(&mut bytes, &none);
    push_all(&mut bytes, &none);
    order.push16(&mut bytes, 34);
    order.push16(&mut bytes, BUS_USB);
    order.push32(&mut bytes, DEVICE_VENDOR);
    order.push32(&mut bytes, DEVICE_PRODUCT);
    order.push32(&mut bytes, 0);
    order.push32(&mut bytes, 0);
    push_all(&mut bytes, &FIDO_REPORT_DESC);
    assert(name@ == crate::bytes::padded(DEVICE_NAME@, 128)) by {
        assert(Seq::<u8>::empty() + DEVICE_NAME@ =~= DEVICE_NAME@);
    }
    assert(none@ == crate::bytes::padded(seq![], 64));
    assert(bytes@ =~= order.bytes32(UHID_CREATE2) + create_request(order));
    fill(&mut bytes, UHID_EVENT_SIZE);
    bytes
}

/// The event that carries a report to the host.
pub fn input_event(order: ByteOrder, report: &[u8; 64]) -> (bytes: Vec<u8>)
    ensures
        bytes@ == event(order, UHID_INPUT2, input_request(order, report@)),
{
    let mut bytes: Vec<u8> = Vec::new();
    order.push32(&mut bytes, UHID_INPUT2);
    order.push16(&mut bytes, 64);
    push_all(&mut bytes, report);
    assert(bytes@ =~= order.bytes32(UHID_INPUT2) + input_request(order, report@));
    fill(&mut bytes, UHID_EVENT_SIZE);
    bytes
}

/// The report that an event brings from the host, if it brings one.
pub fn report_of_event(order: ByteOrder, event: &[u8]) -> (report: Option<Vec<u8>>)
    ensures
        match report {
            Some(r) => output_report(order, event@) == Some(r@),
            None => output_report(order, event@) is None,
        },
{
    if event.len() < 4 {
        return None;
    }
    let mut output: Vec<u8> = Vec::new();
    order.push32(&mut output, UHID_OUTPUT);
    assert(output@ =~= order.bytes32(UHID_OUTPUT));
    if event[0] != output[0] || event[1] != output[1] || event[2] != output[2] || event[3]
        != output[3] {
        assert(event@.take(4)[0] == event@[0] && event@.take(4)[1] == event@[1]);
        assert(event@.take(4)[2] == event@[2] && event@.take(4)[3] == event@[3]);
        return None;
    }
    assert(event@.take(4) =~= output@);
    let available: usize = event.len() - 4;
    let len: usize = if available <= OUTPUT_REPORT_MAX {
        available
    } else {
        OUTPUT_REPORT_MAX
    };
    Some(copy_range(event, 4, 4 + len))
}

/// Every event has the size of the kernel's event record.
pub proof fn law_events_have_the_kernels_size(order: ByteOrder, report: Seq<u8>)
    requires
        report.len() == 64,
    ensures
        event(order, UHID_CREATE2, create_request(order)).len() == UHID_EVENT_SIZE,
        event(order, UHID_INPUT2, input_request(order, report)).len() == UHID_EVENT_SIZE,
        order.bytes32(UHID_CREATE2).len() + create_request(order).len() <= UHID_EVENT_SIZE,
{
}

/// Whether two bytes are those of `n` in the given order.
pub open spec fn holds16(order: ByteOrder, bytes: Seq<u8>, n: int) -> bool {
    bytes.len() == 2 && n == match order {
        ByteOrder::BigEndian => bytes[0] * 0x100 + bytes[1],
        ByteOrder::LittleEndian => bytes[0] + bytes[1] * 0x100,
    }
}

/// Whether four bytes are those of `n` in the given order.
pub open spec fn holds32(order: ByteOrder, bytes: Seq<u8>, n: int) -> bool {
    bytes.len() == 4 && n == match order {
        ByteOrder::BigEndian => bytes[0] * 0x100_0000 + bytes[1] * 0x1_0000 + bytes[2] * 0x100
            + bytes[3],
        ByteOrder::LittleEndian => bytes[0] + bytes[1] * 0x100 + bytes[2] * 0x1_0000 + bytes[3]
            * 0x100_0000,
    }
}

proof fn lemma_holds(order: ByteOrder, n: u16, m: u32)
    ensures
        holds16(order, order.bytes16(n), n as int),
        holds32(order, order.bytes32(m), m as int),
{
    crate::bytes::lemma_be16_round_trip(n);
    crate::bytes::lemma_be32_round_trip(m);
    let bytes = crate::bytes::be32(m);
    assert(bytes[0] * 0x100_0000 + bytes[1] * 0x1_0000 + bytes[2] * 0x100 + bytes[3] == m);
}

proof fn lemma_bytes32_of(order: ByteOrder, bytes: Seq<u8>, n: u32)
    requires
        holds32(order, bytes, n as int),
    ensures
        bytes == order.bytes32(n),
{
    match order {
        ByteOrder::BigEndian => {
            crate::bytes::lemma_from_be32_round_trip(bytes);
        },
        ByteOrder::LittleEndian => {
            crate::bytes::lemma_from_be32_round_trip(bytes.reverse());
            assert(bytes.reverse().reverse() =~= bytes);
        },
    }
}

/// An event brings a report from the host exactly where its first four bytes are
/// the type 6. The report is what follows, no more than 65 bytes of it.
pub proof fn law_output_events_bring_what_follows_their_type(order: ByteOrder, event: Seq<u8>)
    ensures
        output_report(order, event) is Some <==> event.len() >= 4 && holds32(
            order,
            event.take(4),
            6,
        ),
        output_report(order, event) matches Some(report) ==> {
            &&& report.len() == if event.len() <= 69 {
                event.len() - 4
            } else {
                65
            }
            &&& forall|i: int| 0 <= i < report.len() ==> #[trigger] report[i] == event[4 + i]
        },
{
    if event.len() >= 4 {
        lemma_holds(order, 0, 6);
        if holds32(order, event.take(4), 6) {
            lemma_bytes32_of(order, event.take(4), 6);
        }
    }
}

/// The event that carries a report to the host: the type 12, the size 64, the
/// report, and zeros up to 4376 bytes.
pub proof fn law_input_events_are_laid_out(order: ByteOrder, report: Seq<u8>)
    requires
        report.len() == 64,
    ensures
        ({
            let bytes = event(order, UHID_INPUT2, input_request(order, report));
            &&& bytes.len() == 4376
            &&& holds32(order, bytes.take(4), 12)
            &&& holds16(order, bytes.subrange(4, 6), 64)
            &&& bytes.subrange(6, 70) == report
            &&& forall|i: int| 70 <= i < 4376 ==> #[trigger] bytes[i] == 0
        }),
{
    let bytes = event(order, UHID_INPUT2, input_request(order, report));
    lemma_holds(order, 64, 12);
    assert(bytes.take(4) =~= order.bytes32(12));
    assert(bytes.subrange(4, 6) =~= order.bytes16(64));
    assert(bytes.subrange(6, 70) =~= report);
}

/// The event that registers the device: the type 11, the name, 128 bytes of no path
/// and no unique ID, the size of the report descriptor, the USB bus, vendor 0x1234
/// and product 0x5678, no version and no country, the descriptor of 34 bytes, and
/// zeros up to 4376 bytes.
pub proof fn law_the_create_event_is_laid_out(order: ByteOrder)
    ensures
        ({
            let bytes = event(order, UHID_CREATE2, create_request(order));
            &&& bytes.len() == 4376
            &&& holds32(order, bytes.take(4), 11)
            &&& bytes.subrange(4, 32) == DEVICE_NAME@
            &&& forall|i: int| 32 <= i < 260 ==> #[trigger] bytes[i] == 0
            &&& holds16(order, bytes.subrange(260, 262), 34)
            &&& holds16(order, bytes.subrange(262, 264), 3)
            &&& holds32(order, bytes.subrange(264, 268), 0x1234)
            &&& holds32(order, bytes.subrange(268, 272), 0x5678)
            &&& forall|i: int| 272 <= i < 280 ==> #[trigger] bytes[i] == 0
            &&& bytes.subrange(280, 314) == FIDO_REPORT_DESC@
            &&& forall|i: int| 314 <= i < 4376 ==> #[trigger] bytes[i] == 0
        }),
{
    let bytes = event(order, UHID_CREATE2, create_request(order));
    lemma_holds(order, 34, 11);
    lemma_holds(order, 3, 0x1234);
    lemma_holds(order, 0, 0x5678);
    lemma_holds(order, 0, 0);
    assert(order.bytes32(0) =~= seq![0u8, 0u8, 0u8, 0u8]);
    assert(bytes.take(4) =~= order.bytes32(11));
    assert(bytes.subrange(4, 32) =~= DEVICE_NAME@);
    assert(bytes.subrange(260, 262) =~= order.bytes16(34));
    assert(bytes.subrange(262, 264) =~= order.bytes16(3));
    assert(bytes.subrange(264, 268) =~= order.bytes32(0x1234));
    assert(bytes.subrange(268, 272) =~= order.bytes32(0x5678));
    assert forall|i: int| 272 <= i < 280 implies #[trigger] bytes[i] == 0 by {
        if i < 276 {
            assert(bytes[i] == order.bytes32(0)[i - 272]);
        } else {
            assert(bytes[i] == order.bytes32(0)[i - 276]);
        }
    }
    assert(bytes.subrange(280, 314) =~= FIDO_REPORT_DESC@);
}

} // verus!
