//! What holds of the authenticator over any run of events and answers.

use super::events::ByteOrder;
use super::{ActionView, PendingView, UhidErrorView, UhidView};
use crate::backend::CredentialBackend;
use crate::ctap_hid::{MessageView, PacketView};
use vstd::prelude::*;

verus! {

/// One step of a run: an event read from the device, or the user's word on a
/// pending request, with what came of it; or something that does not concern the
/// authenticator.
pub enum RunStep {
    Event { event: Seq<u8>, result: Result<ActionView, UhidErrorView> },
    Word { pending: PendingView, confirmed: bool, answer: Result<MessageView, UhidErrorView> },
    Idle,
}

/// Whether a step can lead from one state to the other.
pub open spec fn leads<B: CredentialBackend>(
    order: ByteOrder,
    before: UhidView<B>,
    step: RunStep,
    after: UhidView<B>,
) -> bool {
    match step {
        RunStep::Event { event, result } => before.handles_event(order, event, result, after),
        RunStep::Word { pending, confirmed, answer } => before.resumes(
            pending,
            confirmed,
            answer,
            after,
        ),
        RunStep::Idle => before.unchanged(after),
    }
}

/// Whether `steps` can lead through `states`.
pub open spec fn is_run<B: CredentialBackend>(
    order: ByteOrder,
    states: Seq<UhidView<B>>,
    steps: Seq<RunStep>,
) -> bool {
    &&& states.len() == steps.len() + 1
    &&& forall|i: int|
        0 <= i < steps.len() ==> leads(order, states[i], #[trigger] steps[i], states[i + 1])
}

/// The packet that a step brings, if it brings one.
pub open spec fn packet_of(order: ByteOrder, step: RunStep) -> Option<PacketView> {
    match step {
        RunStep::Event { event, .. } => match super::events::output_report(order, event) {
            Some(report) => PacketView::parsed(report),
            None => None,
        },
        RunStep::Word { .. } => None,
        RunStep::Idle => None,
    }
}

/// The packets that the steps bring, in order.
pub open spec fn packets_of(order: ByteOrder, steps: Seq<RunStep>) -> Seq<PacketView>
    decreases steps.len(),
{
    if steps.len() == 0 {
        Seq::empty()
    } else {
        let before = packets_of(order, steps.drop_last());
        match packet_of(order, steps.last()) {
            Some(packet) => before.push(packet),
            None => before,
        }
    }
}

/// Of each packet that the steps bring, the message that it is handled as, if it
/// completes one.
pub open spec fn handled_messages<B: CredentialBackend>(
    order: ByteOrder,
    states: Seq<UhidView<B>>,
    steps: Seq<RunStep>,
) -> Seq<Option<MessageView>>
    decreases steps.len(),
{
    if steps.len() == 0 {
        Seq::empty()
    } else {
        let before = handled_messages(order, states.drop_last(), steps.drop_last());
        match packet_of(order, steps.last()) {
            Some(packet) => before.push(
                crate::ctap_hid::reassembly_step(states[steps.len() - 1].channels, packet).1,
            ),
            None => before,
        }
    }
}

/// Over any run, the messages that are handled are those that the packets of the
/// events complete, each once and in order, whatever the user is asked meanwhile.
pub proof fn law_completed_messages_are_handled_in_order<B: CredentialBackend>(
    order: ByteOrder,
    states: Seq<UhidView<B>>,
    steps: Seq<RunStep>,
)
    requires
        is_run(order, states, steps),
    ensures
        ({
            let expected = crate::ctap_hid::laws::reassembled(
                states[0].channels,
                packets_of(order, steps),
            );
            &&& states.last().channels == expected.0
            &&& handled_messages(order, states, steps) == expected.1
        }),
    decreases steps.len(),
{
    if steps.len() > 0 {
        let n = steps.len() - 1;
        let earlier = states.drop_last();
        let rest = steps.drop_last();
        assert(leads(order, states[n], steps[n], states[n + 1]));
        assert(is_run(order, earlier, rest)) by {
            assert forall|i: int| 0 <= i < rest.len() implies leads(
                order,
                earlier[i],
                #[trigger] rest[i],
                earlier[i + 1],
            ) by {
                assert(leads(order, states[i], steps[i], states[i + 1]));
            }
        }
        law_completed_messages_are_handled_in_order(order, earlier, rest);
        assert(earlier.last() == states[n]);
        match packet_of(order, steps[n]) {
            Some(packet) => {
                assert(packets_of(order, steps).drop_last() =~= packets_of(order, rest));
                lemma_packets_move_channels(states[n], packet, steps[n]->Event_result, states[n + 1]);
            },
            None => {},
        }
    }
}

proof fn lemma_packets_move_channels<B: CredentialBackend>(
    before: UhidView<B>,
    packet: PacketView,
    result: Result<ActionView, UhidErrorView>,
    after: UhidView<B>,
)
    requires
        before.handles_packet(packet, result, after),
    ensures
        after.channels == crate::ctap_hid::reassembly_step(before.channels, packet).0,
{
    let step = crate::ctap_hid::reassembly_step(before.channels, packet);
    match step.1 {
        Some(message) => {
            super::laws::law_messages_alone_register_nothing(
                UhidView { channels: step.0, service: before.service },
                message,
                result,
                after,
            );
        },
        None => {},
    }
}

/// An event that is too short, is no output event, or brings no packet changes
/// nothing and is not answered.
pub proof fn law_events_without_a_packet_are_ignored<B: CredentialBackend>(
    order: ByteOrder,
    before: UhidView<B>,
    event: Seq<u8>,
    result: Result<ActionView, UhidErrorView>,
    after: UhidView<B>,
)
    requires
        event.len() < 4 || event.take(4) != order.bytes32(super::events::UHID_OUTPUT)
            || PacketView::parsed(
            event.subrange(
                4,
                if event.len() <= 69 {
                    event.len() as int
                } else {
                    69
                },
            ),
        ) is None,
        before.handles_event(order, event, result, after),
    ensures
        before.unchanged(after),
        result == Ok::<_, UhidErrorView>(ActionView::Ignore),
{
}

} // verus!
