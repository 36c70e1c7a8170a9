//! What holds of registrations and assertions together.

use super::{
    AssertionRequestView, AssertionView, AuthenticatorErrorView, RegistrationView, ServiceView,
};
use crate::backend::{CredentialBackend, FrostBackend, LocalEd25519Backend};
use vstd::prelude::*;

verus! {

/// The selected credential is the first of the allow list that belongs to the
/// relying party; there is none exactly where no credential of the list does.
pub proof fn law_selection_is_the_first_match<B: CredentialBackend>(
    service: ServiceView<B>,
    rp_id: Seq<char>,
    allow_list: Seq<Seq<u8>>,
)
    ensures
        match service.selected(rp_id, allow_list) {
            Some(id) => {
                &&& service.matches_rp(rp_id, id)
                &&& exists|i: int|
                    0 <= i < allow_list.len() && #[trigger] allow_list[i] == id && forall|j: int|
                        0 <= j < i ==> !service.matches_rp(rp_id, #[trigger] allow_list[j])
            },
            None => forall|j: int|
                0 <= j < allow_list.len() ==> !service.matches_rp(rp_id, #[trigger] allow_list[j]),
        },
    decreases allow_list.len(),
{
    if allow_list.len() > 0 && !service.matches_rp(rp_id, allow_list[0]) {
        let rest = allow_list.skip(1);
        law_selection_is_the_first_match(service, rp_id, rest);
        assert(forall|j: int| 1 <= j < allow_list.len() ==> allow_list[j] == rest[j - 1]);
        match service.selected(rp_id, rest) {
            Some(id) => {
                let i = choose|i: int|
                    0 <= i < rest.len() && #[trigger] rest[i] == id && forall|j: int|
                        0 <= j < i ==> !service.matches_rp(rp_id, #[trigger] rest[j]);
                assert(allow_list[i + 1] == id);
            },
            None => {},
        }
    }
}

/// A credential is bound to the relying party it was registered for: it answers
/// that one and no other.
pub proof fn law_credentials_are_bound_to_the_relying_party<B: CredentialBackend>(
    before: ServiceView<B>,
    rp_id: Seq<char>,
    user_id: Seq<u8>,
    registration: RegistrationView,
    after: ServiceView<B>,
    asking: Seq<char>,
)
    requires
        before.registers(rp_id, user_id, Ok(registration), after),
    ensures
        after.selected(asking, seq![registration.credential_id]) == (if asking == rp_id {
            Some(registration.credential_id)
        } else {
            None
        }),
{
    let list = seq![registration.credential_id];
    assert(list.skip(1) =~= Seq::empty());
    assert(after.selected(asking, list.skip(1)) is None);
}

/// An assertion moves the counter of the credential it names by one, up to the
/// counter's maximum, and nothing else that is recorded.
pub proof fn law_an_assertion_moves_one_counter<B: CredentialBackend>(
    before: ServiceView<B>,
    request: AssertionRequestView,
    assertion: AssertionView,
    after: ServiceView<B>,
)
    requires
        before.asserts(request, Ok(assertion), after),
    ensures
        before.matches_rp(request.rp_id, assertion.credential_id),
        after.records.dom() == before.records.dom(),
        assertion.sign_count == after.records[assertion.credential_id].sign_count,
        before.records[assertion.credential_id].sign_count < u32::MAX ==> assertion.sign_count
            == before.records[assertion.credential_id].sign_count + 1,
        before.records[assertion.credential_id].sign_count == u32::MAX ==> assertion.sign_count
            == u32::MAX,
        forall|id: Seq<u8>|
            before.records.contains_key(id) && id != assertion.credential_id
                ==> #[trigger] after.records[id] == before.records[id],
{
    law_selection_is_the_first_match(before, request.rp_id, request.allow_list);
    assert(after.records.dom() =~= before.records.dom());
}

/// A registration or an assertion that fails changes nothing that is recorded.
pub proof fn law_failures_record_nothing<B: CredentialBackend>(
    before: ServiceView<B>,
    rp_id: Seq<char>,
    user_id: Seq<u8>,
    request: AssertionRequestView,
    error: AuthenticatorErrorView,
    after: ServiceView<B>,
)
    requires
        before.registers(rp_id, user_id, Err(error), after) || before.asserts(
            request,
            Err(error),
            after,
        ),
    ensures
        after.records == before.records,
{
}

/// With local keys, a registered credential always answers its relying party:
/// the first assertion has the counter 1, and its signature over the
/// authenticator data and the client data hash verifies under the registered
/// public key.
pub proof fn law_registered_credentials_assert_verifiably(
    before: ServiceView<LocalEd25519Backend>,
    rp_id: Seq<char>,
    user_id: Seq<u8>,
    registration: RegistrationView,
    registered: ServiceView<LocalEd25519Backend>,
    request: AssertionRequestView,
    asserted: Result<AssertionView, AuthenticatorErrorView>,
    after: ServiceView<LocalEd25519Backend>,
)
    requires
        before.registers(rp_id, user_id, Ok(registration), registered),
        request.rp_id == rp_id,
        registered.selected(rp_id, request.allow_list) == Some(registration.credential_id),
        registered.asserts(request, asserted, after),
    ensures
        asserted matches Ok(assertion) && {
            &&& assertion.credential_id == registration.credential_id
            &&& assertion.sign_count == 1
            &&& assertion.authenticator_data == super::authenticator_data(
                rp_id,
                request.user_present,
                1,
            )
            &&& crate::backend::ed25519::ed25519_verifies(
                registration.public_key,
                assertion.authenticator_data + request.client_data_hash,
                assertion.signature,
            )
        },
{
}

/// With shared keys, whatever assertion a registered credential gives verifies
/// under the registered public key.
pub proof fn law_shared_credentials_assert_verifiably(
    before: ServiceView<FrostBackend>,
    rp_id: Seq<char>,
    user_id: Seq<u8>,
    registration: RegistrationView,
    registered: ServiceView<FrostBackend>,
    request: AssertionRequestView,
    assertion: AssertionView,
    after: ServiceView<FrostBackend>,
)
    requires
        before.registers(rp_id, user_id, Ok(registration), registered),
        request.rp_id == rp_id,
        registered.selected(rp_id, request.allow_list) == Some(registration.credential_id),
        registered.asserts(request, Ok(assertion), after),
    ensures
        assertion.credential_id == registration.credential_id,
        assertion.sign_count == 1,
        crate::backend::ed25519::ed25519_verifies(
            registration.public_key,
            assertion.authenticator_data + request.client_data_hash,
            assertion.signature,
        ),
{
}

/// Whether the service keeps the passkey `id` of `rp_id`, with a local key, with this
/// public key.
pub open spec fn keeps_local(
    service: ServiceView<LocalEd25519Backend>,
    id: Seq<u8>,
    rp_id: Seq<char>,
    public_key: Seq<u8>,
) -> bool {
    &&& service.records.contains_key(id)
    &&& service.records[id].rp_id == rp_id
    &&& service.backend@.contains_key(id)
    &&& crate::backend::ed25519::ed25519_public_key(service.backend@[id]) == public_key
}

/// A registration with a local key is kept from then on, whatever is registered or asserted
/// afterwards.
pub proof fn law_local_passkeys_are_kept(
    before: ServiceView<LocalEd25519Backend>,
    rp_id: Seq<char>,
    user_id: Seq<u8>,
    registered: Result<RegistrationView, AuthenticatorErrorView>,
    request: AssertionRequestView,
    asserted: Result<AssertionView, AuthenticatorErrorView>,
    after: ServiceView<LocalEd25519Backend>,
    kept: Seq<u8>,
    kept_rp_id: Seq<char>,
    public_key: Seq<u8>,
)
    requires
        before.registers(rp_id, user_id, registered, after) || before.asserts(
            request,
            asserted,
            after,
        ),
    ensures
        before.registers(rp_id, user_id, registered, after) && registered is Ok ==> keeps_local(
            after,
            registered->Ok_0.credential_id,
            rp_id,
            registered->Ok_0.public_key,
        ),
        keeps_local(before, kept, kept_rp_id, public_key) ==> keeps_local(
            after,
            kept,
            kept_rp_id,
            public_key,
        ),
{
    law_selection_is_the_first_match(before, request.rp_id, request.allow_list);
}

/// A kept passkey with a local key always answers when it is selected: its
/// counter goes up, and its signature over the authenticator data and the client
/// data hash verifies under its public key.
pub proof fn law_kept_local_passkeys_assert_verifiably(
    before: ServiceView<LocalEd25519Backend>,
    id: Seq<u8>,
    public_key: Seq<u8>,
    request: AssertionRequestView,
    asserted: Result<AssertionView, AuthenticatorErrorView>,
    after: ServiceView<LocalEd25519Backend>,
)
    requires
        keeps_local(before, id, request.rp_id, public_key),
        before.selected(request.rp_id, request.allow_list) == Some(id),
        before.asserts(request, asserted, after),
    ensures
        asserted matches Ok(assertion) && {
            &&& assertion.credential_id == id
            &&& assertion.sign_count == super::next_sign_count(before.records[id].sign_count)
            &&& crate::backend::ed25519::ed25519_verifies(
                public_key,
                assertion.authenticator_data + request.client_data_hash,
                assertion.signature,
            )
        },
{
}

/// Whether the service keeps the passkey `id` of `rp_id`, with a shared key, with this
/// public key.
pub open spec fn keeps_shared(
    service: ServiceView<FrostBackend>,
    id: Seq<u8>,
    rp_id: Seq<char>,
    public_key: Seq<u8>,
) -> bool {
    &&& service.records.contains_key(id)
    &&& service.records[id].rp_id == rp_id
    &&& service.backend@.credentials.contains_key(id)
    &&& crate::backend::frost_protocol::group_public_key(
        service.backend@.credentials[id].public_package,
    ) == Ok::<_, Seq<char>>(public_key)
}

/// A registration with a shared key is kept from then on, whatever is registered or asserted
/// afterwards.
pub proof fn law_shared_passkeys_are_kept(
    before: ServiceView<FrostBackend>,
    rp_id: Seq<char>,
    user_id: Seq<u8>,
    registered: Result<RegistrationView, AuthenticatorErrorView>,
    request: AssertionRequestView,
    asserted: Result<AssertionView, AuthenticatorErrorView>,
    after: ServiceView<FrostBackend>,
    kept: Seq<u8>,
    kept_rp_id: Seq<char>,
    public_key: Seq<u8>,
)
    requires
        before.registers(rp_id, user_id, registered, after) || before.asserts(
            request,
            asserted,
            after,
        ),
    ensures
        before.registers(rp_id, user_id, registered, after) && registered is Ok ==> keeps_shared(
            after,
            registered->Ok_0.credential_id,
            rp_id,
            registered->Ok_0.public_key,
        ),
        keeps_shared(before, kept, kept_rp_id, public_key) ==> keeps_shared(
            after,
            kept,
            kept_rp_id,
            public_key,
        ),
{
    law_selection_is_the_first_match(before, request.rp_id, request.allow_list);
}

/// Whatever assertion a kept passkey with a shared key gives verifies under its
/// public key.
pub proof fn law_kept_shared_passkeys_assert_verifiably(
    before: ServiceView<FrostBackend>,
    id: Seq<u8>,
    public_key: Seq<u8>,
    request: AssertionRequestView,
    assertion: AssertionView,
    after: ServiceView<FrostBackend>,
)
    requires
        keeps_shared(before, id, request.rp_id, public_key),
        before.selected(request.rp_id, request.allow_list) == Some(id),
        before.asserts(request, Ok(assertion), after),
    ensures
        assertion.credential_id == id,
        assertion.sign_count == super::next_sign_count(before.records[id].sign_count),
        crate::backend::ed25519::ed25519_verifies(
            public_key,
            assertion.authenticator_data + request.client_data_hash,
            assertion.signature,
        ),
{
}

/// Whether bytes are the authenticator data of an assertion: the SHA-256 digest of
/// all UTF-8 bytes of the relying party ID, a byte that is 1 if a user was present
/// and else 0, and the counter, most significant byte first.
pub open spec fn is_assertion_data(
    data: Seq<u8>,
    rp_id: Seq<char>,
    user_present: bool,
    sign_count: int,
) -> bool {
    &&& data.len() == 37
    &&& data.take(32) == crate::sha256::sha256_digest(vstd::utf8::encode_utf8(rp_id))
    &&& data[32] == if user_present {
        1u8
    } else {
        0u8
    }
    &&& data[33] * 0x100_0000 + data[34] * 0x1_0000 + data[35] * 0x100 + data[36] == sign_count
}

/// Authenticator data of 37 bytes is laid out as that of an assertion.
pub proof fn lemma_assertion_data(rp_id: Seq<char>, user_present: bool, sign_count: u32)
    requires
        super::authenticator_data(rp_id, user_present, sign_count).len() == 37,
    ensures
        is_assertion_data(
            super::authenticator_data(rp_id, user_present, sign_count),
            rp_id,
            user_present,
            sign_count as int,
        ),
{
    let data = super::authenticator_data(rp_id, user_present, sign_count);
    let digest = crate::sha256::sha256_digest(vstd::utf8::encode_utf8(rp_id));
    assert(digest.len() == 32);
    assert(data.take(32) =~= digest);
    crate::bytes::lemma_be32_round_trip(sign_count);
    let bytes = crate::bytes::be32(sign_count);
    assert(data[33] == bytes[0] && data[34] == bytes[1] && data[35] == bytes[2] && data[36]
        == bytes[3]);
    assert(bytes[0] * 0x100_0000 + bytes[1] * 0x1_0000 + bytes[2] * 0x100 + bytes[3]
        == sign_count);
}

/// The authenticator data of an assertion is the digest of the requested relying
/// party ID, whether a user was present, and the assertion's counter. The backend
/// signs these bytes followed by the client data hash, with the credential that
/// the assertion names, and its signature is the assertion's.
pub proof fn law_assertion_data_is_laid_out<B: CredentialBackend>(
    before: ServiceView<B>,
    request: AssertionRequestView,
    assertion: AssertionView,
    after: ServiceView<B>,
)
    requires
        before.asserts(request, Ok(assertion), after),
    ensures
        is_assertion_data(
            assertion.authenticator_data,
            request.rp_id,
            request.user_present,
            assertion.sign_count as int,
        ),
        before.backend.signs(
            assertion.credential_id,
            assertion.authenticator_data + request.client_data_hash,
            Ok(assertion.signature),
            after.backend,
        ),
{
    lemma_assertion_data(request.rp_id, request.user_present, assertion.sign_count);
}

/// The digest in an assertion depends on the whole relying party ID: two
/// assertions have the same one only where the digests of all UTF-8 bytes of
/// their IDs are the same.
pub proof fn law_assertions_digest_the_whole_relying_party_id<B: CredentialBackend>(
    before: ServiceView<B>,
    request: AssertionRequestView,
    assertion: AssertionView,
    after: ServiceView<B>,
    other_before: ServiceView<B>,
    other_request: AssertionRequestView,
    other_assertion: AssertionView,
    other_after: ServiceView<B>,
)
    requires
        before.asserts(request, Ok(assertion), after),
        other_before.asserts(other_request, Ok(other_assertion), other_after),
    ensures
        assertion.authenticator_data.take(32) == other_assertion.authenticator_data.take(32)
            <==> crate::sha256::sha256_digest(vstd::utf8::encode_utf8(request.rp_id))
            == crate::sha256::sha256_digest(vstd::utf8::encode_utf8(other_request.rp_id)),
{
    law_assertion_data_is_laid_out(before, request, assertion, after);
    law_assertion_data_is_laid_out(other_before, other_request, other_assertion, other_after);
}

/// An assertion request is answered with the first credential of its allow list
/// that is recorded for its relying party. It fails only where there is none, or
/// where the backend fails to sign with that one; then nothing recorded changes.
pub proof fn law_assertions_fail_only_without_a_credential_or_a_signature<B: CredentialBackend>(
    before: ServiceView<B>,
    request: AssertionRequestView,
    asserted: Result<AssertionView, AuthenticatorErrorView>,
    after: ServiceView<B>,
)
    requires
        before.asserts(request, asserted, after),
    ensures
        asserted == Err::<AssertionView, _>(AuthenticatorErrorView::NoCredentials) <==> (forall|
            i: int,
        |
            0 <= i < request.allow_list.len() ==> !(before.records.contains_key(
                #[trigger] request.allow_list[i],
            ) && before.records[request.allow_list[i]].rp_id == request.rp_id)),
        match asserted {
            Ok(assertion) => exists|i: int|
                0 <= i < request.allow_list.len() && #[trigger] request.allow_list[i]
                    == assertion.credential_id && before.records.contains_key(
                    assertion.credential_id,
                ) && before.records[assertion.credential_id].rp_id == request.rp_id && forall|
                    j: int,
                |
                    0 <= j < i ==> !(before.records.contains_key(#[trigger] request.allow_list[j])
                        && before.records[request.allow_list[j]].rp_id == request.rp_id),
            Err(AuthenticatorErrorView::NoCredentials) => {
                &&& after.backend == before.backend
                &&& after.records == before.records
            },
            Err(AuthenticatorErrorView::Backend(error)) => {
                &&& after.records == before.records
                &&& exists|id: Seq<u8>, data: Seq<u8>|
                    before.records.contains_key(id) && before.records[id].rp_id == request.rp_id
                        && #[trigger] before.backend.signs(
                        id,
                        data + request.client_data_hash,
                        Err(error),
                        after.backend,
                    )
            },
        },
{
    law_selection_is_the_first_match(before, request.rp_id, request.allow_list);
    match before.selected(request.rp_id, request.allow_list) {
        Some(id) => {
            let i = choose|i: int|
                0 <= i < request.allow_list.len() && #[trigger] request.allow_list[i] == id
                    && forall|j: int|
                    0 <= j < i ==> !before.matches_rp(
                        request.rp_id,
                        #[trigger] request.allow_list[j],
                    );
            assert(before.matches_rp(request.rp_id, request.allow_list[i]));
            assert forall|j: int| 0 <= j < i implies !(before.records.contains_key(
                #[trigger] request.allow_list[j],
            ) && before.records[request.allow_list[j]].rp_id == request.rp_id) by {
                assert(!before.matches_rp(request.rp_id, request.allow_list[j]));
            }
            if let Err(AuthenticatorErrorView::Backend(error)) = asserted {
                let data = super::authenticator_data(
                    request.rp_id,
                    request.user_present,
                    super::next_sign_count(before.records[id].sign_count),
                );
                assert(before.backend.signs(
                    id,
                    data + request.client_data_hash,
                    Err(error),
                    after.backend,
                ));
            }
        },
        None => {
            assert forall|j: int| 0 <= j < request.allow_list.len() implies !(
            before.records.contains_key(#[trigger] request.allow_list[j])
                && before.records[request.allow_list[j]].rp_id == request.rp_id) by {
                assert(!before.matches_rp(request.rp_id, request.allow_list[j]));
            }
        },
    }
}

/// A registration gives what the backend creates for the same relying party and
/// user, and fails only where the backend does. What is created is recorded under
/// its handle for the relying party with a counter of zero, and every other record
/// stays.
pub proof fn law_registrations_are_what_the_backend_creates<B: CredentialBackend>(
    before: ServiceView<B>,
    rp_id: Seq<char>,
    user_id: Seq<u8>,
    registered: Result<RegistrationView, AuthenticatorErrorView>,
    after: ServiceView<B>,
)
    requires
        before.registers(rp_id, user_id, registered, after),
    ensures
        match registered {
            Ok(registration) => {
                let id = registration.credential_id;
                &&& before.backend.creates(
                    rp_id,
                    user_id,
                    Ok(
                        crate::backend::CreatedView {
                            handle: id,
                            public_key: registration.public_key,
                        },
                    ),
                    after.backend,
                )
                &&& after.records.contains_key(id)
                &&& after.records[id].rp_id == rp_id
                &&& after.records[id].sign_count == 0
                &&& forall|other: Seq<u8>|
                    other != id ==> {
                        &&& #[trigger] after.records.contains_key(other)
                            == before.records.contains_key(other)
                        &&& before.records.contains_key(other) ==> after.records[other]
                            == before.records[other]
                    }
            },
            Err(AuthenticatorErrorView::Backend(error)) => {
                &&& before.backend.creates(rp_id, user_id, Err(error), after.backend)
                &&& after.records == before.records
            },
            Err(_) => false,
        },
{
}

/// What each error says to a user: a backend's error says what the backend says.
pub proof fn law_errors_say_what_is_wrong(error: crate::backend::BackendErrorView)
    ensures
        AuthenticatorErrorView::NoCredentials.message() == "no matching credential"@,
        AuthenticatorErrorView::Backend(error).message() == error.message(),
{
}

} // verus!
