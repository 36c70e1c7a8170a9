//! What each message of the host leads to.

use super::events::ByteOrder;
use super::requests::GetAssertionView;
use super::{ActionView, PendingView, UhidErrorView, UhidView};
use crate::authenticator::{AssertionRequestView, AssertionView, RegistrationView};
use crate::backend::CredentialBackend;
use crate::cbor::{CborView, DecodeErrorView};
use crate::ctap_hid::{MessageView, PacketView, MAX_PAYLOAD_SIZE};
use vstd::prelude::*;

verus! {

/// A registration request with a relying party ID other than Firefox's and a user
/// ID leads to asking the user exactly where -8, Ed25519, is among the algorithms
/// it offers, at whatever position; else it is answered with the status 0x26.
/// Nothing changes yet.
pub proof fn law_registration_is_asked_where_ed25519_is_offered<B: CredentialBackend>(
    before: UhidView<B>,
    message: MessageView,
    item: CborView,
    rp_id: Seq<char>,
    user_id: Seq<u8>,
    result: Result<ActionView, UhidErrorView>,
    after: UhidView<B>,
)
    requires
        message.cmd == 0x90,
        message.payload.len() > 1,
        message.payload[0] == 0x01,
        crate::cbor::decodes_to(message.payload.skip(1), item),
        super::requests::requested_rp_id(item) == Some(rp_id),
        super::requests::requested_user_id(item) == Some(user_id),
        rp_id != "make.me.blink"@,
        before.handles(message, result, after),
    ensures
        before.unchanged(after),
        (exists|k: int|
            0 <= k < super::requests::requested_algorithms(item).len()
                && #[trigger] super::requests::requested_algorithms(item)[k] == -8) ==> result
            == Ok::<_, UhidErrorView>(
            ActionView::Confirm(
                PendingView::Registration { cid: message.cid, rp_id, user_id },
            ),
        ),
        (forall|k: int|
            0 <= k < super::requests::requested_algorithms(item).len() ==>
                #[trigger] super::requests::requested_algorithms(item)[k] != -8) ==> result
            == Ok::<_, UhidErrorView>(
            ActionView::Send(
                MessageView { cid: message.cid, cmd: 0x90, payload: seq![0x26u8] },
            ),
        ),
{
}

/// Whether a registration is asked for depends on the algorithms only by whether
/// -8 is among them: adding further ones, before or behind, never refuses it.
pub proof fn law_more_algorithms_refuse_nothing(
    cid: u32,
    rp_id: Seq<char>,
    user_id: Seq<u8>,
    earlier: Seq<i64>,
    algorithms: Seq<i64>,
    later: Seq<i64>,
)
    requires
        rp_id != "make.me.blink"@,
    ensures
        super::registration_action(cid, Some(rp_id), Some(user_id), algorithms) is Confirm
            ==> super::registration_action(
            cid,
            Some(rp_id),
            Some(user_id),
            earlier + algorithms + later,
        ) == super::registration_action(cid, Some(rp_id), Some(user_id), algorithms),
        super::registration_action(cid, Some(rp_id), Some(user_id), earlier.push((-8) as i64) + later)
            == ActionView::Confirm(PendingView::Registration { cid, rp_id, user_id }),
{
    let all = earlier + algorithms + later;
    if algorithms.contains((-8) as i64) {
        let k = choose|k: int| 0 <= k < algorithms.len() && algorithms[k] == -8;
        assert(all[earlier.len() + k] == -8);
    }
    assert((earlier.push((-8) as i64) + later)[earlier.len() as int] == -8);
}

/// A registration request for Firefox's selection leads to asking the user about
/// the device, whatever algorithms it offers.
pub proof fn law_firefox_selection_ignores_the_algorithms(
    cid: u32,
    user_id: Seq<u8>,
    algorithms: Seq<i64>,
)
    ensures
        super::registration_action(cid, Some("make.me.blink"@), Some(user_id), algorithms)
            == ActionView::Confirm(PendingView::FirefoxSelection { cid }),
{
}

/// A registration request without a relying party ID or a user ID is answered
/// with the status 0x14, and so is one that holds nothing but its command.
pub proof fn law_incomplete_registrations_are_refused<B: CredentialBackend>(
    before: UhidView<B>,
    message: MessageView,
    item: CborView,
    result: Result<ActionView, UhidErrorView>,
    after: UhidView<B>,
)
    requires
        message.cmd == 0x90,
        message.payload.len() > 0,
        message.payload[0] == 0x01,
        message.payload.len() == 1 || crate::cbor::decodes_to(message.payload.skip(1), item) && (
        super::requests::requested_rp_id(item) is None || super::requests::requested_user_id(
            item,
        ) is None),
        before.handles(message, result, after),
    ensures
        before.unchanged(after),
        result == Ok::<_, UhidErrorView>(
            ActionView::Send(
                MessageView { cid: message.cid, cmd: 0x90, payload: seq![0x14u8] },
            ),
        ),
{
}

/// A registration or assertion request that is no CBOR fails with what is wrong
/// with it, and changes nothing.
pub proof fn law_undecodable_requests_fail<B: CredentialBackend>(
    before: UhidView<B>,
    message: MessageView,
    error: DecodeErrorView,
    result: Result<ActionView, UhidErrorView>,
    after: UhidView<B>,
)
    requires
        message.cmd == 0x90,
        message.payload.len() > 1,
        message.payload[0] == 0x01 || message.payload[0] == 0x02,
        crate::cbor::cbor_decoded(message.payload.skip(1)) == Err::<CborView, _>(error),
        before.handles(message, result, after),
    ensures
        before.unchanged(after),
        result == Err::<ActionView, _>(UhidErrorView::Decode(error)),
{
}

/// An assertion request without its relying party ID or client data hash is
/// answered with the status 0x14, and so is one that holds nothing but its
/// command.
pub proof fn law_incomplete_assertions_are_refused<B: CredentialBackend>(
    before: UhidView<B>,
    message: MessageView,
    item: CborView,
    result: Result<ActionView, UhidErrorView>,
    after: UhidView<B>,
)
    requires
        message.cmd == 0x90,
        message.payload.len() > 0,
        message.payload[0] == 0x02,
        message.payload.len() == 1 || crate::cbor::decodes_to(message.payload.skip(1), item)
            && super::requests::requested_assertion(item) is None,
        before.handles(message, result, after),
    ensures
        before.unchanged(after),
        result == Ok::<_, UhidErrorView>(
            ActionView::Send(
                MessageView { cid: message.cid, cmd: 0x90, payload: seq![0x14u8] },
            ),
        ),
{
}

/// An assertion request is answered with the status 0x2e exactly where none of
/// the credentials it allows is recorded for its relying party. Else the user is
/// asked, if the request asks for presence, and nothing changes yet; and if it
/// does not, the service's assertion is sent at once.
pub proof fn law_assertions_are_asked_where_a_credential_is_ours<B: CredentialBackend>(
    before: UhidView<B>,
    message: MessageView,
    item: CborView,
    request: GetAssertionView,
    result: Result<ActionView, UhidErrorView>,
    after: UhidView<B>,
)
    requires
        message.cmd == 0x90,
        message.payload.len() > 1,
        message.payload[0] == 0x02,
        crate::cbor::decodes_to(message.payload.skip(1), item),
        super::requests::requested_assertion(item) == Some(request),
        before.handles(message, result, after),
    ensures
        (forall|i: int|
            0 <= i < request.allow_list.len() ==> !(before.service.records.contains_key(
                #[trigger] request.allow_list[i],
            ) && before.service.records[request.allow_list[i]].rp_id == request.rp_id)) ==> {
            &&& before.unchanged(after)
            &&& result == Ok::<_, UhidErrorView>(
                ActionView::Send(
                    MessageView { cid: message.cid, cmd: 0x90, payload: seq![0x2eu8] },
                ),
            )
        },
        (exists|i: int|
            0 <= i < request.allow_list.len() && before.service.records.contains_key(
                #[trigger] request.allow_list[i],
            ) && before.service.records[request.allow_list[i]].rp_id == request.rp_id) ==> {
            if request.user_presence {
                &&& before.unchanged(after)
                &&& result == Ok::<_, UhidErrorView>(
                    ActionView::Confirm(
                        PendingView::Authentication { cid: message.cid, request },
                    ),
                )
            } else {
                &&& after.channels == before.channels
                &&& match result {
                    Ok(ActionView::Send(answer)) => exists|assertion: AssertionView| {
                        &&& #[trigger] before.service.asserts(
                            AssertionRequestView {
                                rp_id: request.rp_id,
                                client_data_hash: request.client_data_hash,
                                allow_list: request.allow_list,
                                user_present: false,
                            },
                            Ok(assertion),
                            after.service,
                        )
                        &&& answers_with_assertion(answer, message.cid, assertion)
                    },
                    Err(UhidErrorView::Authenticator(error)) => before.service.asserts(
                        AssertionRequestView {
                            rp_id: request.rp_id,
                            client_data_hash: request.client_data_hash,
                            allow_list: request.allow_list,
                            user_present: false,
                        },
                        Err(error),
                        after.service,
                    ),
                    _ => false,
                }
            }
        },
{
    crate::authenticator::laws::law_selection_is_the_first_match(
        before.service,
        request.rp_id,
        request.allow_list,
    );
    let selected = before.service.selected(request.rp_id, request.allow_list);
    if forall|i: int|
        0 <= i < request.allow_list.len() ==> !(before.service.records.contains_key(
            #[trigger] request.allow_list[i],
        ) && before.service.records[request.allow_list[i]].rp_id == request.rp_id) {
        if selected is Some {
            let i = choose|i: int|
                0 <= i < request.allow_list.len() && #[trigger] request.allow_list[i]
                    == selected->0;
            assert(before.service.matches_rp(request.rp_id, request.allow_list[i]));
        }
    } else {
        let i = choose|i: int|
            0 <= i < request.allow_list.len() && before.service.records.contains_key(
                #[trigger] request.allow_list[i],
            ) && before.service.records[request.allow_list[i]].rp_id == request.rp_id;
        assert(before.service.matches_rp(request.rp_id, request.allow_list[i]));
        if !request.user_presence {
            lemma_authenticated(before, message.cid, request, result, after);
        }
    }
}

/// Whether an answer is an assertion: the status 0, and a map with the credential
/// descriptor under 1, the authenticator data under 2 and the signature under 3.
pub open spec fn answers_with_assertion(
    answer: MessageView,
    cid: u32,
    assertion: AssertionView,
) -> bool {
    &&& answer.cid == cid
    &&& answer.cmd == 0x90
    &&& answer.payload == seq![0u8] + crate::cbor::cbor_encoded(
        CborView::Entries(
            seq![
                (
                    CborView::Integer(1),
                    CborView::Entries(
                        seq![
                            (CborView::Text("id"@), CborView::Bytes(assertion.credential_id)),
                            (CborView::Text("type"@), CborView::Text("public-key"@)),
                        ],
                    ),
                ),
                (CborView::Integer(2), CborView::Bytes(assertion.authenticator_data)),
                (CborView::Integer(3), CborView::Bytes(assertion.signature)),
            ],
        ),
    )
}

proof fn lemma_authenticated<B: CredentialBackend>(
    before: UhidView<B>,
    cid: u32,
    request: GetAssertionView,
    result: Result<ActionView, UhidErrorView>,
    after: UhidView<B>,
)
    requires
        match result {
            Ok(ActionView::Send(answer)) => before.authenticates(cid, request, Ok(answer), after),
            Ok(_) => false,
            Err(error) => before.authenticates(cid, request, Err(error), after),
        },
    ensures
        after.channels == before.channels,
        match result {
            Ok(ActionView::Send(answer)) => exists|assertion: AssertionView| {
                &&& #[trigger] before.service.asserts(
                    AssertionRequestView {
                        rp_id: request.rp_id,
                        client_data_hash: request.client_data_hash,
                        allow_list: request.allow_list,
                        user_present: request.user_presence,
                    },
                    Ok(assertion),
                    after.service,
                )
                &&& answers_with_assertion(answer, cid, assertion)
            },
            Err(UhidErrorView::Authenticator(error)) => before.service.asserts(
                AssertionRequestView {
                    rp_id: request.rp_id,
                    client_data_hash: request.client_data_hash,
                    allow_list: request.allow_list,
                    user_present: request.user_presence,
                },
                Err(error),
                after.service,
            ),
            _ => false,
        },
{
    match result {
        Ok(ActionView::Send(answer)) => {
            let asked = super::service_request(request);
            let assertion = choose|assertion: AssertionView| {
                &&& #[trigger] before.service.asserts(asked, Ok(assertion), after.service)
                &&& answer == super::cbor_message(
                    cid,
                    super::responses::success_payload(
                        super::responses::assertion_item(assertion),
                    ),
                )
            };
            assert(before.service.asserts(asked, Ok(assertion), after.service));
            assert(answers_with_assertion(answer, cid, assertion));
        },
        _ => {},
    }
}

/// The user's word on an assertion request: confirmed, the service's assertion is
/// sent or its error comes out; denied, the status 0x27 is sent and nothing
/// changes.
pub proof fn law_confirmed_assertions_are_the_services<B: CredentialBackend>(
    before: UhidView<B>,
    cid: u32,
    request: GetAssertionView,
    confirmed: bool,
    answer: Result<MessageView, UhidErrorView>,
    after: UhidView<B>,
)
    requires
        before.resumes(PendingView::Authentication { cid, request }, confirmed, answer, after),
    ensures
        if !confirmed {
            &&& before.unchanged(after)
            &&& answer == Ok::<_, UhidErrorView>(
                MessageView { cid, cmd: 0x90, payload: seq![0x27u8] },
            )
        } else {
            &&& after.channels == before.channels
            &&& match answer {
                Ok(sent) => exists|assertion: AssertionView| {
                    &&& #[trigger] before.service.asserts(
                        AssertionRequestView {
                            rp_id: request.rp_id,
                            client_data_hash: request.client_data_hash,
                            allow_list: request.allow_list,
                            user_present: request.user_presence,
                        },
                        Ok(assertion),
                        after.service,
                    )
                    &&& answers_with_assertion(sent, cid, assertion)
                },
                Err(UhidErrorView::Authenticator(error)) => before.service.asserts(
                    AssertionRequestView {
                        rp_id: request.rp_id,
                        client_data_hash: request.client_data_hash,
                        allow_list: request.allow_list,
                        user_present: request.user_presence,
                    },
                    Err(error),
                    after.service,
                ),
                _ => false,
            }
        },
{
    if confirmed {
        let result: Result<ActionView, UhidErrorView> = match answer {
            Ok(sent) => Ok(ActionView::Send(sent)),
            Err(error) => Err(error),
        };
        lemma_authenticated(before, cid, request, result, after);
    }
}

/// The COSE map of an Ed25519 public key: an octet key pair (1: 1) for EdDSA
/// (3: -8) on Ed25519 (-1: 6), with the key under -2.
pub open spec fn ed25519_cose_map(public_key: Seq<u8>) -> CborView {
    CborView::Entries(
        seq![
            (CborView::Integer(1), CborView::Integer(1)),
            (CborView::Integer(3), CborView::Integer(-8)),
            (CborView::Integer(-1), CborView::Integer(6)),
            (CborView::Integer(-2), CborView::Bytes(public_key)),
        ],
    )
}

/// Whether an answer is the attestation of a new credential: the status 0, and a
/// map with the format `none` under 1, the authenticator data `data` under 2 and
/// an empty statement under 3. The data is the SHA-256 digest of all UTF-8 bytes
/// of the relying party ID, the flags 0x41, a counter of zero and a zero AAGUID,
/// the length of the credential ID, most significant byte first, the ID, and the
/// COSE key.
pub open spec fn answers_with_attestation(
    answer: MessageView,
    cid: u32,
    rp_id: Seq<char>,
    registration: RegistrationView,
    data: Seq<u8>,
) -> bool {
    let id = registration.credential_id;
    &&& answer.cid == cid
    &&& answer.cmd == 0x90
    &&& answer.payload == seq![0u8] + crate::cbor::cbor_encoded(
        CborView::Entries(
            seq![
                (CborView::Integer(1), CborView::Text("none"@)),
                (CborView::Integer(2), CborView::Bytes(data)),
                (CborView::Integer(3), CborView::Entries(seq![])),
            ],
        ),
    )
    &&& data.len() >= 55 + id.len()
    &&& data.take(32) == crate::sha256::sha256_digest(vstd::utf8::encode_utf8(rp_id))
    &&& data[32] == 0x41
    &&& forall|i: int| 33 <= i < 53 ==> #[trigger] data[i] == 0
    &&& data[53] * 256 + data[54] == id.len()
    &&& data.subrange(55, (55 + id.len()) as int) == id
    &&& data.skip((55 + id.len()) as int) == crate::cbor::cbor_encoded(
        ed25519_cose_map(registration.public_key),
    )
}

/// The user's word on a registration: confirmed, the service registers and its
/// credential is attested, or its error comes out, or the credential ID is too
/// long for its length field; denied, the status 0x27 is sent and nothing
/// changes.
pub proof fn law_confirmed_registrations_are_attested<B: CredentialBackend>(
    before: UhidView<B>,
    cid: u32,
    rp_id: Seq<char>,
    user_id: Seq<u8>,
    confirmed: bool,
    answer: Result<MessageView, UhidErrorView>,
    after: UhidView<B>,
)
    requires
        before.resumes(
            PendingView::Registration { cid, rp_id, user_id },
            confirmed,
            answer,
            after,
        ),
    ensures
        if !confirmed {
            &&& before.unchanged(after)
            &&& answer == Ok::<_, UhidErrorView>(
                MessageView { cid, cmd: 0x90, payload: seq![0x27u8] },
            )
        } else {
            &&& after.channels == before.channels
            &&& match answer {
                Ok(sent) => exists|registration: RegistrationView, data: Seq<u8>| {
                    &&& before.service.registers(
                        rp_id,
                        user_id,
                        Ok(registration),
                        after.service,
                    )
                    &&& #[trigger] answers_with_attestation(sent, cid, rp_id, registration, data)
                },
                Err(UhidErrorView::Authenticator(error)) => before.service.registers(
                    rp_id,
                    user_id,
                    Err(error),
                    after.service,
                ),
                Err(UhidErrorView::CredentialIdTooLong) => exists|
                    registration: RegistrationView,
                | #[trigger]
                    before.service.registers(rp_id, user_id, Ok(registration), after.service)
                        && registration.credential_id.len() > 65535,
                Err(_) => false,
            }
        },
{
    if confirmed {
        if let Ok(sent) = answer {
            let registration = choose|registration: RegistrationView| {
                &&& #[trigger] before.service.registers(
                    rp_id,
                    user_id,
                    Ok(registration),
                    after.service,
                )
                &&& registration.credential_id.len() <= u16::MAX
                &&& super::responses::attested_layout(
                    super::responses::attested_data(
                        rp_id,
                        registration.credential_id,
                        registration.public_key,
                    ),
                    rp_id,
                    registration.credential_id,
                    registration.public_key,
                )
                &&& sent == super::cbor_message(
                    cid,
                    super::responses::success_payload(
                        super::responses::attestation_item(
                            rp_id,
                            registration.credential_id,
                            registration.public_key,
                        ),
                    ),
                )
            };
            let id = registration.credential_id;
            let data = super::responses::attested_data(rp_id, id, registration.public_key);
            let key_at = (55 + id.len()) as int;
            assert(data.take(32) == data.subrange(0, 32));
            assert(data.skip(key_at) == data.subrange(key_at, data.len() as int));
            assert forall|i: int| 33 <= i < 53 implies #[trigger] data[i] == 0 by {
                if i < 37 {
                    assert(data.subrange(33, 37)[i - 33] == data[i]);
                } else {
                    assert(data.subrange(37, 53)[i - 37] == data[i]);
                }
            }
            assert(data.subrange(53, 55)[0] == data[53]);
            assert(data.subrange(53, 55)[1] == data[54]);
            assert(super::responses::cose_key_item(registration.public_key) == ed25519_cose_map(
                registration.public_key,
            ));
            assert(answers_with_attestation(sent, cid, rp_id, registration, data));
        }
    }
}

/// The user's word on the other questions: Firefox's selection is answered with
/// 0x35, a selection with 0, a U2F registration with a dummy registration; denied
/// ones with 0x27, or with 0x6985 for U2F. None changes anything.
pub proof fn law_other_words_change_nothing<B: CredentialBackend>(
    before: UhidView<B>,
    pending: PendingView,
    confirmed: bool,
    answer: Result<MessageView, UhidErrorView>,
    after: UhidView<B>,
)
    requires
        !(pending is Registration),
        !(pending is Authentication),
        before.resumes(pending, confirmed, answer, after),
    ensures
        before.unchanged(after),
        answer matches Ok(sent) && {
            &&& sent.cid == pending.cid()
            &&& match pending {
                PendingView::FirefoxSelection { .. } => sent.cmd == 0x90 && sent.payload == seq![
                    if confirmed {
                        0x35u8
                    } else {
                        0x27u8
                    },
                ],
                PendingView::Selection { .. } => sent.cmd == 0x90 && sent.payload == seq![
                    if confirmed {
                        0x00u8
                    } else {
                        0x27u8
                    },
                ],
                _ => {
                    &&& sent.cmd == 0x83
                    &&& if confirmed {
                        is_dummy_registration(sent.payload)
                    } else {
                        sent.payload == seq![0x69u8, 0x85u8]
                    }
                },
            }
        },
{
    if pending is U2fRegistration {
        if confirmed {
            lemma_dummy_registration();
        } else {
            assert(super::u2f::APDU_SW_CONDITIONS_NOT_SATISFIED@ =~= seq![0x69u8, 0x85u8]);
        }
    }
}

/// Whether a payload is laid out as a U2F registration: the reserved byte 5, a
/// point of 65 bytes, a key handle behind its length, a DER certificate and a DER
/// signature, each as long as it says, and the status 0x9000.
pub open spec fn is_dummy_registration(payload: Seq<u8>) -> bool {
    let handle_len = payload[66] as int;
    let cert_at = 67 + handle_len;
    let cert_len = 2 + payload[cert_at + 1];
    let signature_at = cert_at + cert_len;
    let signature_len = 2 + payload[signature_at + 1];
    &&& payload.len() == signature_at + signature_len + 2
    &&& payload[0] == 0x05
    &&& payload[1] == 0x04
    &&& forall|i: int| 2 <= i < 66 ==> #[trigger] payload[i] == 0x42
    &&& handle_len == 21
    &&& payload[cert_at] == 0x30
    &&& payload[signature_at] == 0x30
    &&& payload[payload.len() - 2] == 0x90
    &&& payload[payload.len() - 1] == 0x00
}

proof fn lemma_dummy_registration()
    ensures
        is_dummy_registration(super::u2f::dummy_register_response()),
{
    let payload = super::u2f::dummy_register_response();
    assert(super::u2f::U2F_DUMMY_ATTESTATION_CERT_DER@[0] == 0x30);
    assert(super::u2f::U2F_DUMMY_ATTESTATION_CERT_DER@[1] == 0x03);
    assert(super::u2f::U2F_DUMMY_SIGNATURE_DER@[0] == 0x30);
    assert(super::u2f::U2F_DUMMY_SIGNATURE_DER@[1] == 0x06);
    assert(super::u2f::APDU_SW_NO_ERROR@[0] == 0x90);
    assert(super::u2f::APDU_SW_NO_ERROR@[1] == 0x00);
    assert(payload.len() == 103);
    assert(payload[66] == 21);
    assert(payload[88] == super::u2f::U2F_DUMMY_ATTESTATION_CERT_DER@[0]);
    assert(payload[89] == super::u2f::U2F_DUMMY_ATTESTATION_CERT_DER@[1]);
    assert(payload[93] == super::u2f::U2F_DUMMY_SIGNATURE_DER@[0]);
    assert(payload[94] == super::u2f::U2F_DUMMY_SIGNATURE_DER@[1]);
    assert(payload[101] == super::u2f::APDU_SW_NO_ERROR@[0]);
    assert(payload[102] == super::u2f::APDU_SW_NO_ERROR@[1]);
}

/// A ping comes back as it is.
pub proof fn law_pings_come_back<B: CredentialBackend>(
    before: UhidView<B>,
    message: MessageView,
    result: Result<ActionView, UhidErrorView>,
    after: UhidView<B>,
)
    requires
        message.cmd == 0x81,
        before.handles(message, result, after),
    ensures
        before.unchanged(after),
        result == Ok::<_, UhidErrorView>(ActionView::Send(message)),
{
}

/// CTAPHID_INIT with a nonce of eight bytes is answered on its channel with the
/// nonce, some channel of four bytes, protocol version 2, device version 1.0.0 and
/// the capabilities 0x0c; a shorter one is ignored.
pub proof fn law_init_is_answered_with_its_nonce<B: CredentialBackend>(
    before: UhidView<B>,
    message: MessageView,
    result: Result<ActionView, UhidErrorView>,
    after: UhidView<B>,
)
    requires
        message.cmd == 0x86,
        before.handles(message, result, after),
    ensures
        before.unchanged(after),
        message.payload.len() < 8 ==> result == Ok::<_, UhidErrorView>(ActionView::Ignore),
        message.payload.len() >= 8 ==> (result matches Ok(ActionView::Send(sent)) && {
            &&& sent.cid == message.cid
            &&& sent.cmd == 0x86
            &&& sent.payload.len() == 17
            &&& sent.payload.take(8) == message.payload.take(8)
            &&& sent.payload.skip(12) == seq![0x02u8, 0x01u8, 0x00u8, 0x00u8, 0x0cu8]
        }),
{
    if message.payload.len() >= 8 {
        let new_cid = choose|new_cid: Seq<u8>|
            new_cid.len() == 4 && result == Ok::<_, UhidErrorView>(
                ActionView::Send(#[trigger] super::init_response(message, new_cid)),
            );
        super::laws::law_init_announces_cbor_without_msg(message, new_cid);
        let payload = super::init_response(message, new_cid).payload;
        assert(payload.skip(12) =~= seq![0x02u8, 0x01u8, 0x00u8, 0x00u8, 0x0cu8]);
    }
}

/// U2F messages, by the instruction in their second byte: the version is told, no
/// key handle is known, a registration with the parameter 3 waits for the user,
/// and everything else is not supported.
pub proof fn law_u2f_messages_are_answered_by_instruction<B: CredentialBackend>(
    before: UhidView<B>,
    message: MessageView,
    result: Result<ActionView, UhidErrorView>,
    after: UhidView<B>,
)
    requires
        message.cmd == 0x83,
        before.handles(message, result, after),
    ensures
        before.unchanged(after),
        ({
            let payload = message.payload;
            if payload.len() >= 3 && payload[1] == 1 && payload[2] == 3 {
                result == Ok::<_, UhidErrorView>(
                    ActionView::Confirm(PendingView::U2fRegistration { cid: message.cid }),
                )
            } else {
                result == Ok::<_, UhidErrorView>(
                    ActionView::Send(
                        MessageView {
                            cid: message.cid,
                            cmd: 0x83,
                            payload: if payload.len() >= 2 && payload[1] == 3 {
                                seq![
                                    0x55u8,
                                    0x32u8,
                                    0x46u8,
                                    0x5fu8,
                                    0x56u8,
                                    0x32u8,
                                    0x90u8,
                                    0x00u8,
                                ]
                            } else if payload.len() >= 2 && payload[1] == 2 {
                                seq![0x6au8, 0x80u8]
                            } else {
                                seq![0x6du8, 0x00u8]
                            },
                        },
                    ),
                )
            }
        }),
{
    assert(super::u2f::U2F_VERSION@ + super::u2f::APDU_SW_NO_ERROR@ =~= seq![
        0x55u8,
        0x32u8,
        0x46u8,
        0x5fu8,
        0x56u8,
        0x32u8,
        0x90u8,
        0x00u8,
    ]);
    assert(super::u2f::APDU_SW_WRONG_DATA@ =~= seq![0x6au8, 0x80u8]);
    assert(super::u2f::APDU_SW_INS_NOT_SUPPORTED@ =~= seq![0x6du8, 0x00u8]);
}

/// authenticatorGetInfo is answered with the status 0 and a map: the version
/// `FIDO_2_0` under 1, sixteen zero bytes under 3, and the options `rk` false and
/// `up` true under 4.
pub proof fn law_get_info_is_answered<B: CredentialBackend>(
    before: UhidView<B>,
    message: MessageView,
    result: Result<ActionView, UhidErrorView>,
    after: UhidView<B>,
)
    requires
        message.cmd == 0x90,
        message.payload.len() > 0,
        message.payload[0] == 0x04,
        before.handles(message, result, after),
    ensures
        before.unchanged(after),
        result matches Ok(ActionView::Send(sent)) && {
            &&& sent.cid == message.cid
            &&& sent.cmd == 0x90
            &&& exists|aaguid: Seq<u8>| {
                &&& aaguid.len() == 16
                &&& forall|i: int| 0 <= i < 16 ==> #[trigger] aaguid[i] == 0
                &&& sent.payload == seq![0u8] + crate::cbor::cbor_encoded(
                    #[trigger] info_map(aaguid),
                )
            }
        },
{
    let aaguid = super::responses::aaguid();
    assert(super::responses::get_info_item() == info_map(aaguid));
}

/// What authenticatorGetInfo tells with an AAGUID.
pub open spec fn info_map(aaguid: Seq<u8>) -> CborView {
    CborView::Entries(
        seq![
            (CborView::Integer(1), CborView::Array(seq![CborView::Text("FIDO_2_0"@)])),
            (CborView::Integer(3), CborView::Bytes(aaguid)),
            (
                CborView::Integer(4),
                CborView::Entries(
                    seq![
                        (CborView::Text("rk"@), CborView::Bool(false)),
                        (CborView::Text("up"@), CborView::Bool(true)),
                    ],
                ),
            ),
        ],
    )
}

/// authenticatorSelection asks the user.
pub proof fn law_selection_asks_the_user<B: CredentialBackend>(
    before: UhidView<B>,
    message: MessageView,
    result: Result<ActionView, UhidErrorView>,
    after: UhidView<B>,
)
    requires
        message.cmd == 0x90,
        message.payload.len() > 0,
        message.payload[0] == 0x0b,
        before.handles(message, result, after),
    ensures
        before.unchanged(after),
        result == Ok::<_, UhidErrorView>(
            ActionView::Confirm(PendingView::Selection { cid: message.cid }),
        ),
{
}

/// Other commands, and CBOR messages that are empty or of another command, are
/// ignored.
pub proof fn law_other_messages_are_ignored<B: CredentialBackend>(
    before: UhidView<B>,
    message: MessageView,
    result: Result<ActionView, UhidErrorView>,
    after: UhidView<B>,
)
    requires
        message.cmd != 0x81,
        message.cmd != 0x83,
        message.cmd != 0x86,
        message.cmd == 0x90 && message.payload.len() > 0 ==> {
            let command = message.payload[0];
            command != 0x01 && command != 0x02 && command != 0x04 && command != 0x0b
        },
        before.handles(message, result, after),
    ensures
        before.unchanged(after),
        result == Ok::<_, UhidErrorView>(ActionView::Ignore),
{
}

/// What the user is asked, by what waits for the user's word.
pub proof fn law_prompts_name_what_is_asked(pending: PendingView)
    ensures
        pending.prompt() == match pending {
            PendingView::U2fRegistration { .. } => "Allow Chromium's compatibility request?"@,
            PendingView::FirefoxSelection { .. } => "Use this authenticator for Firefox?"@,
            PendingView::Registration { .. } => "Register this passkey?"@,
            PendingView::Authentication { .. } => "Authenticate this passkey?"@,
            PendingView::Selection { .. } => "Use this authenticator?"@,
        },
{
}

/// Where nothing differs, the unfinished messages, the backend and every record are
/// the same.
pub proof fn law_unchanged_is_the_same<B: CredentialBackend>(
    before: UhidView<B>,
    after: UhidView<B>,
)
    ensures
        before.unchanged(after) <==> before.channels == after.channels && before.service.backend
            == after.service.backend && before.service.records == after.service.records,
{
}

/// A packet that completes a message is handled as that message, whatever its
/// channel and command; one that does not is only taken in. A report is handled as
/// the packet it holds, and one that holds none is ignored.
pub proof fn law_completed_messages_are_handled<B: CredentialBackend>(
    before: UhidView<B>,
    report: Seq<u8>,
    result: Result<ActionView, UhidErrorView>,
    after: UhidView<B>,
)
    requires
        before.handles_report(report, result, after),
    ensures
        match PacketView::parsed(report) {
            None => before.unchanged(after) && result == Ok::<_, UhidErrorView>(ActionView::Ignore),
            Some(packet) => {
                let (channels, completed) = crate::ctap_hid::reassembly_step(
                    before.channels,
                    packet,
                );
                match completed {
                    Some(message) => UhidView { channels, service: before.service }.handles(
                        message,
                        result,
                        after,
                    ),
                    None => {
                        &&& result == Ok::<_, UhidErrorView>(ActionView::Ignore)
                        &&& after.channels == channels
                        &&& after.service.backend == before.service.backend
                        &&& after.service.records == before.service.records
                    },
                }
            },
        },
{
}

/// Whether the events of a message, brought one after the other, lead through
/// `states` with `results`.
pub open spec fn brings_message<B: CredentialBackend>(
    message: MessageView,
    states: Seq<UhidView<B>>,
    results: Seq<Result<ActionView, UhidErrorView>>,
) -> bool {
    &&& results.len() == message.packets().len()
    &&& states.len() == results.len() + 1
    &&& forall|i: int|
        0 <= i < results.len() ==> states[i].handles_report(
            message.packets()[i].serialized(),
            #[trigger] results[i],
            states[i + 1],
        )
}

/// A message that arrives report by report is handled when its last report does,
/// with the credential service as it was before, and not earlier: every other
/// report of it is ignored.
#[verifier::spinoff_prover]
pub proof fn law_messages_are_handled_when_they_are_complete<B: CredentialBackend>(
    message: MessageView,
    states: Seq<UhidView<B>>,
    results: Seq<Result<ActionView, UhidErrorView>>,
)
    requires
        message.cmd >= 0x80,
        message.payload.len() <= MAX_PAYLOAD_SIZE,
        brings_message(message, states, results),
    ensures
        forall|i: int|
            0 <= i < results.len() - 1 ==> #[trigger] results[i] == Ok::<_, UhidErrorView>(
                ActionView::Ignore,
            ),
        exists|between: UhidView<B>| {
            &&& between.service.backend == states[0].service.backend
            &&& between.service.records == states[0].service.records
            &&& between.channels == (if message.payload.len() <= 57 {
                states[0].channels
            } else {
                states[0].channels.remove(message.cid)
            })
            &&& #[trigger] between.handles(message, results.last(), states.last())
        },
{
    let packets = message.packets();
    let n = packets.len() as int;
    crate::ctap_hid::laws::law_reassembly_inverts_framing(states[0].channels, message);
    let expected = crate::ctap_hid::laws::reassembled(states[0].channels, packets);
    assert forall|i: int| 0 <= i < n - 1 implies takes_in(
        states[i],
        packets[i],
        #[trigger] results[i],
        states[i + 1],
    ) by {
        lemma_takes_in(message, states, results, i);
    }
    lemma_ignored_prefix(packets, states, results, n - 1);
    assert(packets.drop_last() =~= packets.take(n - 1));
    lemma_reports_parse(message, n - 1);
    assert(states[n - 1].handles_report(packets[n - 1].serialized(), results[n - 1], states[n]));
    let step = crate::ctap_hid::reassembly_step(states[n - 1].channels, packets[n - 1]);
    assert(expected.1.last() == step.1);
    assert(step.1 == Some(message));
    let between = UhidView { channels: step.0, service: states[n - 1].service };
    assert(between.handles(message, results.last(), states.last()));
}

proof fn lemma_reports_parse(message: MessageView, i: int)
    requires
        message.cmd >= 0x80,
        message.payload.len() <= MAX_PAYLOAD_SIZE,
        0 <= i < message.packets().len(),
    ensures
        PacketView::parsed(message.packets()[i].serialized()) == Some(message.packets()[i]),
{
    crate::ctap_hid::laws::law_packets_survive_their_reports(message, i);
    crate::ctap_hid::laws::law_parse_inverts_serialize(message.packets()[i]);
}

/// Whether a report brings its packet: one that completes nothing is only taken in.
#[verifier::opaque]
spec fn takes_in<B: CredentialBackend>(
    before: UhidView<B>,
    packet: PacketView,
    result: Result<ActionView, UhidErrorView>,
    after: UhidView<B>,
) -> bool {
    crate::ctap_hid::reassembly_step(before.channels, packet).1 is None ==> {
        &&& result == Ok::<_, UhidErrorView>(ActionView::Ignore)
        &&& after.channels == crate::ctap_hid::reassembly_step(before.channels, packet).0
        &&& after.service.backend == before.service.backend
        &&& after.service.records == before.service.records
    }
}

proof fn lemma_takes_in<B: CredentialBackend>(
    message: MessageView,
    states: Seq<UhidView<B>>,
    results: Seq<Result<ActionView, UhidErrorView>>,
    i: int,
)
    requires
        message.cmd >= 0x80,
        message.payload.len() <= MAX_PAYLOAD_SIZE,
        brings_message(message, states, results),
        0 <= i < results.len(),
    ensures
        takes_in(states[i], message.packets()[i], results[i], states[i + 1]),
{
    reveal(takes_in);
    lemma_reports_parse(message, i);
    assert(states[i].handles_report(
        message.packets()[i].serialized(),
        results[i],
        states[i + 1],
    ));
}

proof fn lemma_ignored_prefix<B: CredentialBackend>(
    packets: Seq<PacketView>,
    states: Seq<UhidView<B>>,
    results: Seq<Result<ActionView, UhidErrorView>>,
    n: int,
)
    requires
        0 <= n <= packets.len(),
        forall|i: int|
            0 <= i < n ==> takes_in(states[i], packets[i], #[trigger] results[i], states[i + 1]),
        forall|i: int|
            0 <= i < n ==> (
            #[trigger] crate::ctap_hid::laws::reassembled(states[0].channels, packets).1[i]) is None,
    ensures
        forall|i: int|
            0 <= i < n ==> #[trigger] results[i] == Ok::<_, UhidErrorView>(ActionView::Ignore),
        states[n].channels == crate::ctap_hid::laws::reassembled(
            states[0].channels,
            packets.take(n),
        ).0,
        states[n].service.backend == states[0].service.backend,
        states[n].service.records == states[0].service.records,
    decreases n,
{
    if n > 0 {
        lemma_ignored_prefix(packets, states, results, n - 1);
        let earlier = packets.take(n);
        assert(earlier.drop_last() =~= packets.take(n - 1));
        assert(earlier.last() == packets[n - 1]);
        lemma_results_of_prefix(states[0].channels, packets, n);
        let expected = crate::ctap_hid::laws::reassembled(states[0].channels, packets);
        assert(expected.1[n - 1] is None);
        assert(takes_in(states[n - 1], packets[n - 1], results[n - 1], states[n]));
        reveal(takes_in);
    } else {
        assert(packets.take(0) =~= Seq::empty());
    }
}

proof fn lemma_results_of_prefix(
    channels: Map<u32, crate::ctap_hid::PartialView>,
    packets: Seq<PacketView>,
    n: int,
)
    requires
        0 < n <= packets.len(),
    ensures
        crate::ctap_hid::laws::reassembled(channels, packets).1.len() == packets.len(),
        crate::ctap_hid::laws::reassembled(channels, packets).1[n - 1]
            == crate::ctap_hid::reassembly_step(
            crate::ctap_hid::laws::reassembled(channels, packets.take(n - 1)).0,
            packets[n - 1],
        ).1,
    decreases packets.len(),
{
    lemma_results_len(channels, packets);
    if n == packets.len() {
        assert(packets.drop_last() =~= packets.take(n - 1));
        lemma_results_len(channels, packets.drop_last());
    } else {
        let rest = packets.drop_last();
        lemma_results_of_prefix(channels, rest, n);
        assert(rest.take(n - 1) =~= packets.take(n - 1));
    }
}

proof fn lemma_results_len(
    channels: Map<u32, crate::ctap_hid::PartialView>,
    packets: Seq<PacketView>,
)
    ensures
        crate::ctap_hid::laws::reassembled(channels, packets).1.len() == packets.len(),
    decreases packets.len(),
{
    if packets.len() > 0 {
        lemma_results_len(channels, packets.drop_last());
    }
}

/// The events of a message are one for each of its packets, in order, each of 4376
/// bytes with the type 12, the size 64 and the packet's report.
pub proof fn law_messages_are_sent_packet_by_packet(
    order: ByteOrder,
    message: MessageView,
    i: int,
)
    requires
        message.payload.len() <= MAX_PAYLOAD_SIZE,
        0 <= i < message.packets().len(),
    ensures
        super::message_events(order, message).len() == message.packets().len(),
        ({
            let event = super::message_events(order, message)[i];
            &&& event.len() == 4376
            &&& super::events::holds32(order, event.take(4), 12)
            &&& super::events::holds16(order, event.subrange(4, 6), 64)
            &&& event.subrange(6, 70) == message.packets()[i].serialized()
            &&& forall|k: int| 70 <= k < 4376 ==> #[trigger] event[k] == 0
        }),
{
    let packet = message.packets()[i];
    crate::ctap_hid::laws::law_messages_are_framed_in_order(message, i);
    assert(packet.serialized().len() == 64);
    super::events::law_input_events_are_laid_out(order, packet.serialized());
    assert(super::message_events(order, message)[i] == super::events::event(
        order,
        super::events::UHID_INPUT2,
        super::events::input_request(order, packet.serialized()),
    ));
}

} // verus!
