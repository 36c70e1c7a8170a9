//! What holds of the authenticator as a whole.

use super::events::ByteOrder;
use super::requests::GetAssertionView;
use super::{ActionView, PendingView, UhidErrorView, UhidView};
use crate::authenticator::{
    AssertionRequestView, AssertionView, AuthenticatorErrorView, RegistrationView,
};
use crate::backend::{CredentialBackend, FrostBackend, LocalEd25519Backend};
use crate::cbor::CborView;
use crate::ctap_hid::{command, MessageView, PacketView, MAX_PAYLOAD_SIZE};
use vstd::prelude::*;

verus! {

/// A request that the user denies changes nothing, and the client is told so.
pub proof fn law_denied_requests_change_nothing<B: CredentialBackend>(
    before: UhidView<B>,
    pending: PendingView,
    answer: Result<MessageView, UhidErrorView>,
    after: UhidView<B>,
)
    requires
        before.resumes(pending, false, answer, after),
    ensures
        before.unchanged(after),
        answer == Ok::<_, UhidErrorView>(
            if pending is U2fRegistration {
                MessageView {
                    cid: pending.cid(),
                    cmd: command::MSG,
                    payload: super::u2f::APDU_SW_CONDITIONS_NOT_SATISFIED@,
                }
            } else {
                super::status_message(
                    pending.cid(),
                    super::responses::CTAP2_STATUS_OPERATION_DENIED,
                )
            },
        ),
{
}

/// No message by itself creates or forgets a credential, and where the user is
/// asked nothing has changed yet.
pub proof fn law_messages_alone_register_nothing<B: CredentialBackend>(
    before: UhidView<B>,
    message: MessageView,
    result: Result<ActionView, UhidErrorView>,
    after: UhidView<B>,
)
    requires
        before.handles(message, result, after),
    ensures
        after.service.records.dom() == before.service.records.dom(),
        after.channels == before.channels,
        result matches Ok(ActionView::Confirm(_)) ==> before.unchanged(after),
{
    assert(after.service.records.dom() =~= before.service.records.dom()) by {
        if message.cmd == command::CBOR && message.payload.len() > 0 && message.payload[0]
            == super::ctap2_command::GET_ASSERTION && !before.unchanged(after) {
            lemma_silent_assertion_keeps_records(before, message, result, after);
        }
    }
}

proof fn lemma_silent_assertion_keeps_records<B: CredentialBackend>(
    before: UhidView<B>,
    message: MessageView,
    result: Result<ActionView, UhidErrorView>,
    after: UhidView<B>,
)
    requires
        before.handles_get_assertion(message, result, after),
        !before.unchanged(after),
    ensures
        after.service.records.dom() == before.service.records.dom(),
{
    let item = super::requests::request_item(message.payload)->Ok_0;
    let request = super::requests::requested_assertion(item->0)->0;
    let asked = super::service_request(request);
    match result {
        Ok(ActionView::Send(answer)) => {
            let assertion = choose|assertion: AssertionView| #[trigger]
                before.service.asserts(asked, Ok(assertion), after.service);
            crate::authenticator::laws::law_an_assertion_moves_one_counter(
                before.service,
                asked,
                assertion,
                after.service,
            );
        },
        _ => {},
    }
}

/// Firefox's device selection is recognized whatever algorithms it offers, and
/// whatever the user answers no credential comes of it.
pub proof fn law_firefox_selection_creates_nothing<B: CredentialBackend>(
    before: UhidView<B>,
    message: MessageView,
    item: CborView,
    result: Result<ActionView, UhidErrorView>,
    between: UhidView<B>,
    confirmed: bool,
    answer: Result<MessageView, UhidErrorView>,
    after: UhidView<B>,
)
    requires
        message.cmd == command::CBOR,
        message.payload.len() > 0,
        message.payload[0] == super::ctap2_command::MAKE_CREDENTIAL,
        super::requests::request_item(message.payload) == Ok::<_, crate::cbor::DecodeErrorView>(
            Some(item),
        ),
        super::requests::requested_rp_id(item) == Some(super::FIREFOX_SELECTION_RP_ID@),
        super::requests::requested_user_id(item) is Some,
        before.handles(message, result, between),
        between.resumes(
            PendingView::FirefoxSelection { cid: message.cid },
            confirmed,
            answer,
            after,
        ),
    ensures
        result == Ok::<_, UhidErrorView>(
            ActionView::Confirm(PendingView::FirefoxSelection { cid: message.cid }),
        ),
        before.unchanged(after),
        answer == Ok::<_, UhidErrorView>(
            super::status_message(
                message.cid,
                if confirmed {
                    super::responses::CTAP2_STATUS_PIN_NOT_SET
                } else {
                    super::responses::CTAP2_STATUS_OPERATION_DENIED
                },
            ),
        ),
{
}

/// A request that cannot be decoded changes nothing.
pub proof fn law_undecodable_requests_change_nothing<B: CredentialBackend>(
    before: UhidView<B>,
    message: MessageView,
    error: crate::cbor::DecodeErrorView,
    after: UhidView<B>,
)
    requires
        before.handles(message, Err(UhidErrorView::Decode(error)), after),
    ensures
        before.unchanged(after),
        super::requests::request_item(message.payload) == Err::<Option<CborView>, _>(error),
{
}

/// Every answer goes to the channel that the request came from.
pub proof fn law_answers_stay_on_their_channel<B: CredentialBackend>(
    before: UhidView<B>,
    message: MessageView,
    result: Result<ActionView, UhidErrorView>,
    pending: PendingView,
    confirmed: bool,
    answer: Result<MessageView, UhidErrorView>,
    after: UhidView<B>,
)
    ensures
        before.handles(message, result, after) ==> match result {
            Ok(ActionView::Send(sent)) => sent.cid == message.cid,
            Ok(ActionView::Confirm(waiting)) => waiting.cid() == message.cid,
            _ => true,
        },
        before.resumes(pending, confirmed, answer, after) ==> match answer {
            Ok(sent) => sent.cid == pending.cid(),
            Err(_) => true,
        },
{
}

/// authenticatorGetInfo names no algorithms, so that clients do not filter the
/// device out before they ask it.
pub proof fn law_get_info_names_no_algorithms()
    ensures
        super::responses::get_info_item() matches CborView::Entries(entries) && forall|i: int|
            0 <= i < entries.len() ==> (#[trigger] entries[i]).0 != CborView::Integer(10),
{
}

/// CTAPHID_INIT is answered with the client's nonce and the capabilities of a
/// device that takes CBOR and does not take U2F messages.
pub proof fn law_init_announces_cbor_without_msg(request: MessageView, new_cid: Seq<u8>)
    requires
        request.payload.len() >= 8,
        new_cid.len() == 4,
    ensures
        ({
            let payload = super::init_response(request, new_cid).payload;
            &&& payload.len() == 17
            &&& payload.take(8) == request.payload.take(8)
            &&& payload.subrange(8, 12) == new_cid
            &&& payload.last() == 0x0c
        }),
{
    let cbor = super::CTAP_HID_CAPABILITY_CBOR;
    let nmsg = super::CTAP_HID_CAPABILITY_NMSG;
    assert(cbor | nmsg == 0x0c) by (bit_vector)
        requires
            cbor == 0x04,
            nmsg == 0x08,
    ;
    let payload = super::init_response(request, new_cid).payload;
    assert(payload.take(8) =~= request.payload.take(8));
    assert(payload.subrange(8, 12) =~= new_cid);
}

/// The packet of a 64-byte report arrives whatever follows the report in its
/// event.
pub proof fn law_output_events_deliver_their_packet(
    order: ByteOrder,
    report: Seq<u8>,
    rest: Seq<u8>,
)
    requires
        report.len() == 64,
    ensures
        ({
            let event = order.bytes32(super::events::UHID_OUTPUT) + report + rest;
            &&& super::events::output_report(order, event) is Some
            &&& PacketView::parsed(super::events::output_report(order, event)->0)
                == PacketView::parsed(report)
        }),
{
    let head = order.bytes32(super::events::UHID_OUTPUT);
    let event = head + report + rest;
    assert(event.take(4) =~= head);
    let taken = super::events::output_report(order, event)->0;
    assert(taken.take(64) =~= report);
    assert(taken.subrange(0, 4) =~= report.subrange(0, 4));
    assert(taken.subrange(5, 7) =~= report.subrange(5, 7));
    assert(taken[4] == report[4]);
    assert(crate::bytes::padded(taken.skip(7), 57) =~= crate::bytes::padded(report.skip(7), 57));
    assert(crate::bytes::padded(taken.skip(5), 59) =~= crate::bytes::padded(report.skip(5), 59));
}

/// An output event with the report of a packet is handled as the packet.
pub proof fn law_output_events_are_handled_as_their_packet<B: CredentialBackend>(
    before: UhidView<B>,
    order: ByteOrder,
    packet: PacketView,
    rest: Seq<u8>,
    result: Result<ActionView, UhidErrorView>,
    after: UhidView<B>,
)
    requires
        packet.valid(),
    ensures
        before.handles_event(
            order,
            order.bytes32(super::events::UHID_OUTPUT) + packet.serialized() + rest,
            result,
            after,
        ) == before.handles_packet(packet, result, after),
{
    crate::ctap_hid::laws::law_parse_inverts_serialize(packet);
    law_output_events_deliver_their_packet(order, packet.serialized(), rest);
}

/// The events of a message carry its packets: the host finds each packet behind
/// the type and the size of its event.
pub proof fn law_events_carry_the_packets(order: ByteOrder, message: MessageView, i: int)
    requires
        message.cmd >= 0x80,
        message.payload.len() <= MAX_PAYLOAD_SIZE,
        0 <= i < message.packets().len(),
    ensures
        super::message_events(order, message).len() == message.packets().len(),
        PacketView::parsed(super::message_events(order, message)[i].subrange(6, 70)) == Some(
            message.packets()[i],
        ),
{
    let packets = message.packets();
    let packet = packets[i];
    crate::ctap_hid::laws::law_packets_survive_their_reports(message, i);
    crate::ctap_hid::laws::law_parse_inverts_serialize(packet);
    lemma_report_in_event(order, packet.serialized());
    assert(super::message_events(order, message)[i] == super::events::event(
        order,
        super::events::UHID_INPUT2,
        super::events::input_request(order, packet.serialized()),
    ));
}

proof fn lemma_report_in_event(order: ByteOrder, report: Seq<u8>)
    requires
        report.len() == 64,
    ensures
        super::events::event(
            order,
            super::events::UHID_INPUT2,
            super::events::input_request(order, report),
        ).subrange(6, 70) == report,
{
    let head = order.bytes32(super::events::UHID_INPUT2);
    let request = super::events::input_request(order, report);
    let event = super::events::event(order, super::events::UHID_INPUT2, request);
    assert(head.len() == 4 && order.bytes16(64).len() == 2);
    assert forall|k: int| 0 <= k < 64 implies event[6 + k] == report[k] by {
        assert((head + request)[6 + k] == request[2 + k]);
    }
    assert(event.subrange(6, 70) =~= report);
}

/// Whatever changes the credential service is a registration or an assertion.
proof fn lemma_changes_are_registrations_or_assertions<B: CredentialBackend>(
    before: UhidView<B>,
    message: MessageView,
    result: Result<ActionView, UhidErrorView>,
    pending: PendingView,
    confirmed: bool,
    answer: Result<MessageView, UhidErrorView>,
    after: UhidView<B>,
)
    requires
        !before.unchanged(after),
        before.handles(message, result, after) || before.resumes(
            pending,
            confirmed,
            answer,
            after,
        ),
    ensures
        (exists|
            rp_id: Seq<char>,
            user_id: Seq<u8>,
            registered: Result<RegistrationView, AuthenticatorErrorView>,
        |
            before.service.registers(rp_id, user_id, registered, after.service)) || (exists|
            request: AssertionRequestView,
            asserted: Result<AssertionView, AuthenticatorErrorView>,
        |
            before.service.asserts(request, asserted, after.service)),
{
    if before.handles(message, result, after) {
        let item = super::requests::request_item(message.payload)->Ok_0;
        let request = super::requests::requested_assertion(item->0)->0;
        match result {
            Ok(ActionView::Send(sent)) => {
                assert(before.authenticates(message.cid, request, Ok(sent), after));
            },
            Err(error) => {
                assert(before.authenticates(message.cid, request, Err(error), after));
            },
            _ => {},
        }
    } else {
        match pending {
            PendingView::Registration { cid, rp_id, user_id } => {
                assert(before.registers(cid, rp_id, user_id, answer, after));
            },
            PendingView::Authentication { cid, request } => {
                assert(before.authenticates(cid, request, answer, after));
            },
            _ => {},
        }
    }
}

/// What the client is told of a confirmed registration is a passkey with a local key that
/// is kept: its credential ID and its public key.
pub proof fn law_confirmed_local_registrations_are_kept(
    before: UhidView<LocalEd25519Backend>,
    cid: u32,
    rp_id: Seq<char>,
    user_id: Seq<u8>,
    message: MessageView,
    after: UhidView<LocalEd25519Backend>,
)
    requires
        before.resumes(
            PendingView::Registration { cid, rp_id, user_id },
            true,
            Ok(message),
            after,
        ),
    ensures
        exists|id: Seq<u8>, public_key: Seq<u8>| {
            &&& message == super::cbor_message(
                cid,
                super::responses::success_payload(
                    #[trigger] super::responses::attestation_item(rp_id, id, public_key),
                ),
            )
            &&& crate::authenticator::laws::keeps_local(after.service, id, rp_id, public_key)
        },
{
    let registration = choose|registration: RegistrationView| {
        &&& #[trigger] before.service.registers(rp_id, user_id, Ok(registration), after.service)
        &&& registration.credential_id.len() <= u16::MAX
        &&& message == super::cbor_message(
            cid,
            super::responses::success_payload(
                super::responses::attestation_item(
                    rp_id,
                    registration.credential_id,
                    registration.public_key,
                ),
            ),
        )
    };
    assert(message == super::cbor_message(
        cid,
        super::responses::success_payload(
            super::responses::attestation_item(
                rp_id,
                registration.credential_id,
                registration.public_key,
            ),
        ),
    ));
}

/// A passkey with a local key is kept whatever messages arrive and whatever the user
/// answers.
pub proof fn law_local_passkeys_are_kept(
    before: UhidView<LocalEd25519Backend>,
    message: MessageView,
    result: Result<ActionView, UhidErrorView>,
    pending: PendingView,
    confirmed: bool,
    answer: Result<MessageView, UhidErrorView>,
    after: UhidView<LocalEd25519Backend>,
    id: Seq<u8>,
    rp_id: Seq<char>,
    public_key: Seq<u8>,
)
    requires
        crate::authenticator::laws::keeps_local(before.service, id, rp_id, public_key),
        before.handles(message, result, after) || before.resumes(
            pending,
            confirmed,
            answer,
            after,
        ),
    ensures
        crate::authenticator::laws::keeps_local(after.service, id, rp_id, public_key),
{
    if !before.unchanged(after) {
        lemma_changes_are_registrations_or_assertions(
            before,
            message,
            result,
            pending,
            confirmed,
            answer,
            after,
        );
        if exists|
            for_rp_id: Seq<char>,
            user_id: Seq<u8>,
            registered: Result<RegistrationView, AuthenticatorErrorView>,
        |
            before.service.registers(for_rp_id, user_id, registered, after.service) {
            let (for_rp_id, user_id, registered) = choose|
                for_rp_id: Seq<char>,
                user_id: Seq<u8>,
                registered: Result<RegistrationView, AuthenticatorErrorView>,
            |
                before.service.registers(for_rp_id, user_id, registered, after.service);
            crate::authenticator::laws::law_local_passkeys_are_kept(
                before.service,
                for_rp_id,
                user_id,
                registered,
                arbitrary(),
                arbitrary(),
                after.service,
                id,
                rp_id,
                public_key,
            );
        } else {
            let (request, asserted) = choose|
                request: AssertionRequestView,
                asserted: Result<AssertionView, AuthenticatorErrorView>,
            |
                before.service.asserts(request, asserted, after.service);
            crate::authenticator::laws::law_local_passkeys_are_kept(
                before.service,
                arbitrary(),
                arbitrary(),
                arbitrary(),
                request,
                asserted,
                after.service,
                id,
                rp_id,
                public_key,
            );
        }
    }
}

/// What the client is told of a confirmed registration is a passkey with a shared key that
/// is kept: its credential ID and its public key.
pub proof fn law_confirmed_shared_registrations_are_kept(
    before: UhidView<FrostBackend>,
    cid: u32,
    rp_id: Seq<char>,
    user_id: Seq<u8>,
    message: MessageView,
    after: UhidView<FrostBackend>,
)
    requires
        before.resumes(
            PendingView::Registration { cid, rp_id, user_id },
            true,
            Ok(message),
            after,
        ),
    ensures
        exists|id: Seq<u8>, public_key: Seq<u8>| {
            &&& message == super::cbor_message(
                cid,
                super::responses::success_payload(
                    #[trigger] super::responses::attestation_item(rp_id, id, public_key),
                ),
            )
            &&& crate::authenticator::laws::keeps_shared(after.service, id, rp_id, public_key)
        },
{
    let registration = choose|registration: RegistrationView| {
        &&& #[trigger] before.service.registers(rp_id, user_id, Ok(registration), after.service)
        &&& registration.credential_id.len() <= u16::MAX
        &&& message == super::cbor_message(
            cid,
            super::responses::success_payload(
                super::responses::attestation_item(
                    rp_id,
                    registration.credential_id,
                    registration.public_key,
                ),
            ),
        )
    };
    assert(message == super::cbor_message(
        cid,
        super::responses::success_payload(
            super::responses::attestation_item(
                rp_id,
                registration.credential_id,
                registration.public_key,
            ),
        ),
    ));
}

/// A passkey with a shared key is kept whatever messages arrive and whatever the user
/// answers.
pub proof fn law_shared_passkeys_are_kept(
    before: UhidView<FrostBackend>,
    message: MessageView,
    result: Result<ActionView, UhidErrorView>,
    pending: PendingView,
    confirmed: bool,
    answer: Result<MessageView, UhidErrorView>,
    after: UhidView<FrostBackend>,
    id: Seq<u8>,
    rp_id: Seq<char>,
    public_key: Seq<u8>,
)
    requires
        crate::authenticator::laws::keeps_shared(before.service, id, rp_id, public_key),
        before.handles(message, result, after) || before.resumes(
            pending,
            confirmed,
            answer,
            after,
        ),
    ensures
        crate::authenticator::laws::keeps_shared(after.service, id, rp_id, public_key),
{
    if !before.unchanged(after) {
        lemma_changes_are_registrations_or_assertions(
            before,
            message,
            result,
            pending,
            confirmed,
            answer,
            after,
        );
        if exists|
            for_rp_id: Seq<char>,
            user_id: Seq<u8>,
            registered: Result<RegistrationView, AuthenticatorErrorView>,
        |
            before.service.registers(for_rp_id, user_id, registered, after.service) {
            let (for_rp_id, user_id, registered) = choose|
                for_rp_id: Seq<char>,
                user_id: Seq<u8>,
                registered: Result<RegistrationView, AuthenticatorErrorView>,
            |
                before.service.registers(for_rp_id, user_id, registered, after.service);
            crate::authenticator::laws::law_shared_passkeys_are_kept(
                before.service,
                for_rp_id,
                user_id,
                registered,
                arbitrary(),
                arbitrary(),
                after.service,
                id,
                rp_id,
                public_key,
            );
        } else {
            let (request, asserted) = choose|
                request: AssertionRequestView,
                asserted: Result<AssertionView, AuthenticatorErrorView>,
            |
                before.service.asserts(request, asserted, after.service);
            crate::authenticator::laws::law_shared_passkeys_are_kept(
                before.service,
                arbitrary(),
                arbitrary(),
                arbitrary(),
                request,
                asserted,
                after.service,
                id,
                rp_id,
                public_key,
            );
        }
    }
}

/// A kept passkey with a local key authenticates: the answer to a confirmed
/// request that selects it is an assertion with the next counter, whose signature
/// over the authenticator data and the client data hash verifies under its public
/// key.
pub proof fn law_kept_local_passkeys_authenticate(
    before: UhidView<LocalEd25519Backend>,
    id: Seq<u8>,
    public_key: Seq<u8>,
    cid: u32,
    request: GetAssertionView,
    answer: Result<MessageView, UhidErrorView>,
    after: UhidView<LocalEd25519Backend>,
)
    requires
        crate::authenticator::laws::keeps_local(before.service, id, request.rp_id, public_key),
        before.service.selected(request.rp_id, request.allow_list) == Some(id),
        before.resumes(PendingView::Authentication { cid, request }, true, answer, after),
    ensures
        exists|assertion: AssertionView| {
            &&& answer == Ok::<_, UhidErrorView>(
                super::cbor_message(
                    cid,
                    super::responses::success_payload(
                        #[trigger] super::responses::assertion_item(assertion),
                    ),
                ),
            )
            &&& assertion.credential_id == id
            &&& assertion.sign_count == crate::authenticator::next_sign_count(
                before.service.records[id].sign_count,
            )
            &&& crate::backend::ed25519::ed25519_verifies(
                public_key,
                assertion.authenticator_data + request.client_data_hash,
                assertion.signature,
            )
        },
{
    let asked = super::service_request(request);
    match answer {
        Ok(message) => {
            let assertion = choose|assertion: AssertionView| {
                &&& #[trigger] before.service.asserts(asked, Ok(assertion), after.service)
                &&& message == super::cbor_message(
                    cid,
                    super::responses::success_payload(super::responses::assertion_item(assertion)),
                )
            };
            crate::authenticator::laws::law_kept_local_passkeys_assert_verifiably(
                before.service,
                id,
                public_key,
                asked,
                Ok(assertion),
                after.service,
            );
            assert(message == super::cbor_message(
                cid,
                super::responses::success_payload(super::responses::assertion_item(assertion)),
            ));
        },
        Err(UhidErrorView::Authenticator(error)) => {
            crate::authenticator::laws::law_kept_local_passkeys_assert_verifiably(
                before.service,
                id,
                public_key,
                asked,
                Err(error),
                after.service,
            );
        },
        Err(_) => {},
    }
}

/// What a kept passkey with a shared key answers verifies likewise.
pub proof fn law_kept_shared_passkeys_authenticate_verifiably(
    before: UhidView<FrostBackend>,
    id: Seq<u8>,
    public_key: Seq<u8>,
    cid: u32,
    request: GetAssertionView,
    message: MessageView,
    after: UhidView<FrostBackend>,
)
    requires
        crate::authenticator::laws::keeps_shared(before.service, id, request.rp_id, public_key),
        before.service.selected(request.rp_id, request.allow_list) == Some(id),
        before.resumes(PendingView::Authentication { cid, request }, true, Ok(message), after),
    ensures
        exists|assertion: AssertionView| {
            &&& message == super::cbor_message(
                cid,
                super::responses::success_payload(
                    #[trigger] super::responses::assertion_item(assertion),
                ),
            )
            &&& assertion.credential_id == id
            &&& assertion.sign_count == crate::authenticator::next_sign_count(
                before.service.records[id].sign_count,
            )
            &&& crate::backend::ed25519::ed25519_verifies(
                public_key,
                assertion.authenticator_data + request.client_data_hash,
                assertion.signature,
            )
        },
{
    let asked = super::service_request(request);
    let assertion = choose|assertion: AssertionView| {
        &&& #[trigger] before.service.asserts(asked, Ok(assertion), after.service)
        &&& message == super::cbor_message(
            cid,
            super::responses::success_payload(super::responses::assertion_item(assertion)),
        )
    };
    crate::authenticator::laws::law_kept_shared_passkeys_assert_verifiably(
        before.service,
        id,
        public_key,
        asked,
        assertion,
        after.service,
    );
    assert(message == super::cbor_message(
        cid,
        super::responses::success_payload(super::responses::assertion_item(assertion)),
    ));
}

} // verus!
