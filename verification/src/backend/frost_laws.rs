//! What holds of the shared credentials as a whole.

use super::frost::{FrostBackend, MAX_SIGNERS};
use super::{BackendErrorView, CreatedView, CredentialBackend};
use vstd::prelude::*;

verus! {

/// A pair is selected exactly when at least two participants are available. It
/// is a pair of distinct, available participants, and it is the preferred pair
/// whenever that is available.
pub proof fn law_any_two_available_participants_sign(preferred: (u16, u16), available: Seq<bool>)
    requires
        super::frost::valid_signers(preferred.0, preferred.1),
        available.len() == MAX_SIGNERS,
    ensures
        super::frost::selected_pair(preferred, available) is Some <==> (exists|i: int, j: int|
            0 <= i < j < MAX_SIGNERS && #[trigger] available[i] && #[trigger] available[j]),
        super::frost::selected_pair(preferred, available) matches Some(pair) ==> {
            &&& super::frost::valid_signers(pair.0, pair.1)
            &&& super::frost::pair_available(available, pair)
        },
        super::frost::pair_available(available, preferred) ==> super::frost::selected_pair(
            preferred,
            available,
        ) == Some(preferred),
{
    match super::frost::selected_pair(preferred, available) {
        Some(pair) => {
            if pair.0 < pair.1 {
                assert(available[pair.0 - 1] && available[pair.1 - 1]);
            } else {
                assert(available[pair.1 - 1] && available[pair.0 - 1]);
            }
        },
        None => {},
    }
}

/// Where one participant of the preferred pair is unavailable, the remaining
/// participant takes its place beside the other, whichever they are.
pub proof fn law_remaining_participant_replaces_the_missing_one(
    missing: u16,
    other: u16,
    remaining: u16,
    missing_first: bool,
    available: Seq<bool>,
)
    requires
        super::frost::valid_signers(missing, other),
        super::frost::valid_signers(missing, remaining),
        super::frost::valid_signers(other, remaining),
        available.len() == MAX_SIGNERS,
        !available[missing - 1],
        available[other - 1],
        available[remaining - 1],
    ensures
        super::frost::selected_pair(
            if missing_first {
                (missing, other)
            } else {
                (other, missing)
            },
            available,
        ) == Some(
            if other < remaining {
                (other, remaining)
            } else {
                (remaining, other)
            },
        ),
{
}

/// What a created credential signs, with whatever pair, is an Ed25519 signature
/// that verifies under its public key, as long as the credential is kept.
pub proof fn law_created_credentials_sign_verifiably(
    before: FrostBackend,
    rp_id: Seq<char>,
    user_id: Seq<u8>,
    credential: CreatedView,
    created: FrostBackend,
    later: FrostBackend,
    message: Seq<u8>,
    signature: Seq<u8>,
    after: FrostBackend,
)
    requires
        before.creates(rp_id, user_id, Ok(credential), created),
        later@.credentials.contains_key(credential.handle),
        later@.credentials[credential.handle] == created@.credentials[credential.handle],
        later.signs(credential.handle, message, Ok(signature), after),
    ensures
        super::ed25519::ed25519_verifies(credential.public_key, message, signature),
{
}

/// With at least two available participants a created credential signs, as long
/// as it is kept, unless a step of FROST itself fails in the selected pair's
/// ceremony: a signer's draw, the making of a share, or the aggregation. The
/// signature verifies under the credential's public key.
pub proof fn law_created_credentials_sign_unless_a_step_fails(
    before: FrostBackend,
    rp_id: Seq<char>,
    user_id: Seq<u8>,
    credential: CreatedView,
    created: FrostBackend,
    later: FrostBackend,
    message: Seq<u8>,
    signature: Result<Seq<u8>, BackendErrorView>,
    after: FrostBackend,
)
    requires
        before.creates(rp_id, user_id, Ok(credential), created),
        later@.credentials.contains_key(credential.handle),
        later@.credentials[credential.handle] == created@.credentials[credential.handle],
        super::frost::valid_signers(later@.preferred.0, later@.preferred.1),
        later@.available.len() == MAX_SIGNERS,
        exists|i: int, j: int|
            0 <= i < j < MAX_SIGNERS && #[trigger] later@.available[i]
                && #[trigger] later@.available[j],
        later.signs(credential.handle, message, signature, after),
    ensures
        super::frost::selected_pair(later@.preferred, later@.available) matches Some(pair) && {
            &&& super::frost::valid_signers(pair.0, pair.1)
            &&& super::frost::pair_available(later@.available, pair)
            &&& match signature {
                Ok(bytes) => {
                    &&& bytes.len() == 64
                    &&& super::ed25519::ed25519_verifies(credential.public_key, message, bytes)
                },
                Err(_) => super::frost::ceremony_can_fail(
                    later@.credentials[credential.handle],
                    pair,
                    message,
                ),
            }
        },
{
    law_any_two_available_participants_sign(later@.preferred, later@.available);
}

/// Creating, signing, and deleting another credential keep a credential, and no
/// operation changes which participants sign.
pub proof fn law_operations_keep_other_credentials(
    before: FrostBackend,
    handle: Seq<u8>,
    after: FrostBackend,
)
    requires
        before@.credentials.contains_key(handle),
        (exists|rp_id: Seq<char>, user_id: Seq<u8>, created: Result<CreatedView, BackendErrorView>|
            before.creates(rp_id, user_id, created, after)) || (exists|
            used: Seq<u8>,
            message: Seq<u8>,
            signature: Result<Seq<u8>, BackendErrorView>,
        |
            before.signs(used, message, signature, after)) || (exists|
            other: Seq<u8>,
            deleted: Result<(), BackendErrorView>,
        |
            other != handle && before.deletes(other, deleted, after)),
    ensures
        after@.credentials.contains_key(handle),
        after@.credentials[handle] == before@.credentials[handle],
        after@.preferred == before@.preferred,
        after@.available == before@.available,
{
}

/// A credential that is deleted, or was never created, cannot sign.
pub proof fn law_deleted_and_unknown_credentials_cannot_sign(
    before: FrostBackend,
    handle: Seq<u8>,
    deleted: Result<(), BackendErrorView>,
    between: FrostBackend,
    message: Seq<u8>,
    signature: Result<Seq<u8>, BackendErrorView>,
    after: FrostBackend,
)
    requires
        before.deletes(handle, deleted, between),
        between.signs(handle, message, signature, after),
    ensures
        signature == Err::<Seq<u8>, _>(BackendErrorView::CredentialNotFound),
{
}

/// With fewer than two available participants a known credential does not sign.
pub proof fn law_one_participant_cannot_sign(
    before: FrostBackend,
    handle: Seq<u8>,
    message: Seq<u8>,
    signature: Result<Seq<u8>, BackendErrorView>,
    after: FrostBackend,
)
    requires
        super::frost::valid_signers(before@.preferred.0, before@.preferred.1),
        before@.available.len() == MAX_SIGNERS,
        !(exists|i: int, j: int|
            0 <= i < j < MAX_SIGNERS && #[trigger] before@.available[i]
                && #[trigger] before@.available[j]),
        before@.credentials.contains_key(handle),
        before.signs(handle, message, signature, after),
    ensures
        signature == Err::<Seq<u8>, _>(
            BackendErrorView::Internal(
                "fewer than two FROST participants are available for signing"@,
            ),
        ),
{
    law_any_two_available_participants_sign(before@.preferred, before@.available);
}

/// No two credentials share a handle.
pub proof fn law_handles_are_fresh(
    before: FrostBackend,
    rp_id: Seq<char>,
    user_id: Seq<u8>,
    credential: CreatedView,
    after: FrostBackend,
)
    requires
        before.creates(rp_id, user_id, Ok(credential), after),
    ensures
        !before@.credentials.contains_key(credential.handle),
        after@.credentials.contains_key(credential.handle),
{
}

/// With shared keys, creating a credential for a named relying party fails only
/// where a step of key generation fails or the generated group has no usable
/// public key, whatever participants are marked available. What it gives is a
/// fresh handle of 32 bytes and the group's public key, and the credential is
/// stored under the handle; nothing else changes.
pub proof fn law_creating_fails_only_in_key_generation(
    before: FrostBackend,
    rp_id: Seq<char>,
    user_id: Seq<u8>,
    created: Result<CreatedView, BackendErrorView>,
    after: FrostBackend,
)
    requires
        rp_id.len() > 0,
        before.creates(rp_id, user_id, created, after),
    ensures
        after@.available == before@.available,
        after@.preferred == before@.preferred,
        match created {
            Ok(made) => {
                &&& made.handle.len() == 32
                &&& !before@.credentials.contains_key(made.handle)
                &&& after@.credentials.contains_key(made.handle)
                &&& after@.credentials.remove(made.handle) == before@.credentials
                &&& super::frost::can_generate(Ok(after@.credentials[made.handle]))
                &&& super::frost_protocol::group_public_key(
                    after@.credentials[made.handle].public_package,
                ) == Ok::<_, Seq<char>>(made.public_key)
            },
            Err(error) => {
                &&& after@ == before@
                &&& super::frost::can_generate(Err(error)) || exists|
                    credential: super::frost::FrostCredentialView,
                |
                    #[trigger] super::frost::can_generate(Ok(credential))
                        && match super::frost_protocol::group_public_key(
                        credential.public_package,
                    ) {
                        Ok(key) => key.len() != 32,
                        Err(text) => error == BackendErrorView::Internal("FROST error: "@ + text),
                    }
            },
        },
{
    if let Ok(made) = created {
        assert(after@.credentials.remove(made.handle) =~= before@.credentials);
    }
}

/// What creating a credential gives does not depend on which participants are
/// available or preferred: where one backend can give it, so can any other that
/// keeps the same credentials, and both then keep the same.
pub proof fn law_creating_does_not_depend_on_availability(
    before: FrostBackend,
    other: FrostBackend,
    rp_id: Seq<char>,
    user_id: Seq<u8>,
    created: Result<CreatedView, BackendErrorView>,
    after: FrostBackend,
    other_after: FrostBackend,
)
    requires
        other@.credentials == before@.credentials,
        other_after@.credentials == after@.credentials,
        other_after@.available == other@.available,
        other_after@.preferred == other@.preferred,
        before.creates(rp_id, user_id, created, after),
    ensures
        other.creates(rp_id, user_id, created, other_after),
{
    if rp_id.len() > 0 {
        if let Ok(made) = created {
            let credential = choose|credential: super::frost::FrostCredentialView| {
                &&& #[trigger] super::frost::can_generate(Ok(credential))
                &&& super::frost_protocol::group_public_key(credential.public_package) == Ok::<
                    _,
                    Seq<char>,
                >(made.public_key)
                &&& after@ == (super::frost::FrostView {
                    credentials: before@.credentials.insert(made.handle, credential),
                    ..before@
                })
            };
            assert(super::frost::can_generate(Ok(credential)));
            assert(other_after@ == (super::frost::FrostView {
                credentials: other@.credentials.insert(made.handle, credential),
                ..other@
            }));
        } else {
            assert(other_after@ == other@);
        }
    } else {
        assert(other_after@ == other@);
    }
}

/// Whether these are what the three participants drew in a key generation for
/// three signers of whom two suffice.
pub open spec fn drawn_by_three(draws: super::frost_protocol::Pairs) -> bool {
    &&& draws.len() == 3
    &&& forall|i: int|
        0 <= i < 3 ==> super::frost_protocol::dkg_part1_outcome(
            super::frost_protocol::identifier_bytes((i + 1) as u16),
            3,
            2,
            Ok(#[trigger] draws[i]),
        )
}

/// The broadcasts of the two participants other than the `j`-th.
pub open spec fn broadcasts_to(
    draws: super::frost_protocol::Pairs,
    j: int,
) -> super::frost_protocol::Pairs {
    let (a, b): (int, int) = if j == 0 {
        (1, 2)
    } else if j == 1 {
        (0, 2)
    } else {
        (0, 1)
    };
    seq![
        (super::frost_protocol::identifier_bytes((a + 1) as u16), draws[a].1),
        (super::frost_protocol::identifier_bytes((b + 1) as u16), draws[b].1),
    ]
}

proof fn lemma_broadcasts(draws: super::frost_protocol::Pairs, j: int)
    requires
        0 <= j < 3,
    ensures
        super::frost::received_round1(draws, j) == broadcasts_to(draws, j),
{
    assert(super::frost::received_round1(draws, j) =~= broadcasts_to(draws, j));
}

proof fn lemma_draws(draws: super::frost_protocol::Pairs)
    requires
        super::frost::possible_draws(draws),
    ensures
        drawn_by_three(draws),
{
    assert forall|i: int| 0 <= i < 3 implies super::frost_protocol::dkg_part1_outcome(
        super::frost_protocol::identifier_bytes((i + 1) as u16),
        3,
        2,
        Ok(#[trigger] draws[i]),
    ) by {
        assert(super::frost_protocol::dkg_part1_outcome(
            super::frost::identifier(i),
            MAX_SIGNERS,
            super::frost::MIN_SIGNERS,
            Ok(draws[i]),
        ));
    }
}

/// What the `j`-th participant receives in the second round holds only what the
/// others addressed to it.
pub proof fn law_second_round_packages_reach_their_receiver(
    sent: super::frost_protocol::Pairs,
    sender: Seq<u8>,
    receiver: Seq<u8>,
    package: Seq<u8>,
)
    ensures
        super::frost::addressed(sent, sender, receiver).contains((sender, package))
            <==> sent.contains((receiver, package)),
        forall|k: int|
            0 <= k < super::frost::addressed(sent, sender, receiver).len() ==> (
            #[trigger] super::frost::addressed(sent, sender, receiver)[k]).0 == sender,
    decreases sent.len(),
{
    if sent.len() > 0 {
        let rest = sent.drop_last();
        law_second_round_packages_reach_their_receiver(rest, sender, receiver, package);
        let before = super::frost::addressed(rest, sender, receiver);
        let all = super::frost::addressed(sent, sender, receiver);
        if sent.contains((receiver, package)) {
            let k = choose|k: int| 0 <= k < sent.len() && sent[k] == (receiver, package);
            if k < rest.len() {
                assert(rest[k] == (receiver, package));
                let m = choose|m: int| 0 <= m < before.len() && before[m] == (sender, package);
                assert(all[m] == (sender, package));
            } else {
                assert(all.last() == (sender, package));
                assert(all[all.len() - 1] == (sender, package));
            }
        }
        if all.contains((sender, package)) {
            let m = choose|m: int| 0 <= m < all.len() && all[m] == (sender, package);
            if m < before.len() {
                assert(before[m] == (sender, package));
                let k = choose|k: int| 0 <= k < rest.len() && rest[k] == (receiver, package);
                assert(sent[k] == (receiver, package));
            } else {
                assert(sent[sent.len() - 1] == (receiver, package));
            }
        }
        assert forall|k: int| 0 <= k < all.len() implies (#[trigger] all[k]).0 == sender by {
            if k < before.len() {
                assert(before[k].0 == sender);
            }
        }
    }
}

/// A generated credential comes of one key generation among three participants of
/// whom two suffice: each took in the broadcasts of the other two, got its own key
/// package, and all of them the same public package.
pub proof fn law_generated_credentials_are_agreed_by_all_three(
    credential: super::frost::FrostCredentialView,
)
    requires
        super::frost::can_generate(Ok(credential)),
    ensures
        credential.key_packages.len() == 3,
        exists|draws: super::frost_protocol::Pairs| #[trigger]
            drawn_by_three(draws) && forall|j: int|
                0 <= j < 3 ==> agrees(draws, j, #[trigger] credential.key_packages[j], credential),
{
    let draws = choose|draws: super::frost_protocol::Pairs| #[trigger]
        super::frost::possible_draws(draws) && Ok::<_, BackendErrorView>(credential)
            == super::frost::generated(draws);
    lemma_draws(draws);
    reveal_with_fuel(super::frost::round2_failure, 4);
    reveal_with_fuel(super::frost::round3, 4);
    assert forall|j: int| 0 <= j < 3 implies agrees(
        draws,
        j,
        #[trigger] credential.key_packages[j],
        credential,
    ) by {
        lemma_broadcasts(draws, j);
    }
}

/// Whether the `j`-th participant of a key generation gets the key package and the
/// credential's public package, from the other two's broadcasts and from packages
/// that were addressed to it.
pub open spec fn agrees(
    draws: super::frost_protocol::Pairs,
    j: int,
    key_package: Seq<u8>,
    credential: super::frost::FrostCredentialView,
) -> bool {
    super::frost_protocol::dkg_part2_result(draws[j].0, broadcasts_to(draws, j)) matches Ok(given)
        && super::frost_protocol::dkg_part3_result(
        given.0,
        broadcasts_to(draws, j),
        super::frost::received_round2(draws, j, 3),
    ) == Ok::<_, Seq<char>>((key_package, credential.public_package))
}

/// Key generation fails only where a step of FROST does, where a participant is
/// sent nothing in the second round, or where the participants derive different
/// public packages.
pub proof fn law_key_generation_fails_only_in_a_step(error: BackendErrorView)
    requires
        super::frost::can_generate(Err(error)),
    ensures
        ({
            ||| exists|i: u16, text: Seq<char>|
                1 <= i <= 3 && #[trigger] super::frost_protocol::dkg_part1_outcome(
                    super::frost_protocol::identifier_bytes(i),
                    3,
                    2,
                    Err(text),
                ) && error == BackendErrorView::Internal("FROST error: "@ + text)
            ||| exists|draws: super::frost_protocol::Pairs| #[trigger]
                drawn_by_three(draws) && a_round_fails(draws, error)
        }),
{
    if exists|draws: super::frost_protocol::Pairs| #[trigger]
        super::frost::possible_draws(draws) && Err::<super::frost::FrostCredentialView, _>(error)
            == super::frost::generated(draws) {
        let draws = choose|draws: super::frost_protocol::Pairs| #[trigger]
            super::frost::possible_draws(draws) && Err::<super::frost::FrostCredentialView, _>(
                error,
            ) == super::frost::generated(draws);
        lemma_draws(draws);
        lemma_broadcasts(draws, 0);
        lemma_broadcasts(draws, 1);
        lemma_broadcasts(draws, 2);
        reveal_with_fuel(super::frost::round2_failure, 4);
        reveal_with_fuel(super::frost::round3, 4);
        assert(fails_at(draws, error, 0) || fails_at(draws, error, 1) || fails_at(
            draws,
            error,
            2,
        ));
        assert(a_round_fails(draws, error));
    } else {
        let (i, text) = choose|i: int, text: Seq<char>| #[trigger]
            super::frost::possible_draw_failure(i, text) && Err::<
                super::frost::FrostCredentialView,
                _,
            >(error) == Err::<super::frost::FrostCredentialView, _>(
                super::frost::frost_error_view(text),
            );
        assert(super::frost_protocol::dkg_part1_outcome(
            super::frost_protocol::identifier_bytes((i + 1) as u16),
            3,
            2,
            Err(text),
        ));
    }
}

/// Whether a later round of key generation fails with the error.
pub open spec fn a_round_fails(
    draws: super::frost_protocol::Pairs,
    error: BackendErrorView,
) -> bool {
    exists|j: int| 0 <= j < 3 && #[trigger] fails_at(draws, error, j)
}

/// Whether a later round of key generation fails at the `j`-th participant.
pub open spec fn fails_at(
    draws: super::frost_protocol::Pairs,
    error: BackendErrorView,
    j: int,
) -> bool {
    let received = super::frost::received_round2(draws, j, 3);
    match super::frost_protocol::dkg_part2_result(draws[j].0, broadcasts_to(draws, j)) {
        Err(text) => error == BackendErrorView::Internal("FROST error: "@ + text),
        Ok(given) => if received.len() == 0 {
            error == BackendErrorView::Internal("missing DKG round-two packages"@)
        } else {
            match super::frost_protocol::dkg_part3_result(
                given.0,
                broadcasts_to(draws, j),
                received,
            ) {
                Err(text) => error == BackendErrorView::Internal("FROST error: "@ + text),
                Ok(got) => {
                    &&& j > 0
                    &&& error == BackendErrorView::Internal(
                        "FROST participants derived different public packages"@,
                    )
                    &&& super::frost_protocol::dkg_part2_result(
                        draws[j - 1].0,
                        broadcasts_to(draws, j - 1),
                    ) matches Ok(earlier) && (super::frost_protocol::dkg_part3_result(
                        earlier.0,
                        broadcasts_to(draws, j - 1),
                        super::frost::received_round2(draws, j - 1, 3),
                    ) matches Ok(held) && held.1 != got.1)
                },
            }
        },
    }
}

/// In the second round a participant receives whatever any participant addressed
/// to it.
pub proof fn law_second_round_packages_come_from_everyone(
    draws: super::frost_protocol::Pairs,
    j: int,
    k: int,
    given: (Seq<u8>, super::frost_protocol::Pairs),
    package: Seq<u8>,
)
    requires
        0 <= j < 3,
        0 <= k < 3,
        super::frost_protocol::dkg_part2_result(draws[k].0, broadcasts_to(draws, k)) == Ok::<
            _,
            Seq<char>,
        >(given),
        given.1.contains((super::frost_protocol::identifier_bytes((j + 1) as u16), package)),
    ensures
        super::frost::received_round2(draws, j, 3).contains(
            (super::frost_protocol::identifier_bytes((k + 1) as u16), package),
        ),
{
    let receiver = super::frost_protocol::identifier_bytes((j + 1) as u16);
    let sender = super::frost_protocol::identifier_bytes((k + 1) as u16);
    lemma_broadcasts(draws, k);
    law_second_round_packages_reach_their_receiver(given.1, sender, receiver, package);
    reveal_with_fuel(super::frost::received_round2, 4);
    let part = super::frost::addressed(given.1, sender, receiver);
    let m = choose|m: int| 0 <= m < part.len() && part[m] == (sender, package);
    let before = super::frost::received_round2(draws, j, k);
    let all = super::frost::received_round2(draws, j, 3);
    assert(super::frost::received_round2(draws, j, k + 1) == before + part);
    assert((before + part)[before.len() + m] == (sender, package));
    assert(all[before.len() + m] == (sender, package));
}

/// The nonces and commitments of a pair, the shares that the two signers make with
/// them, and their order by signer.
pub open spec fn ceremony(
    credential: super::frost::FrostCredentialView,
    pair: (u16, u16),
    message: Seq<u8>,
    draws: super::frost_protocol::Pairs,
) -> (
    super::frost_protocol::Pairs,
    Result<Seq<u8>, Seq<char>>,
    Result<Seq<u8>, Seq<char>>,
) {
    let commitments = seq![
        (super::frost_protocol::identifier_bytes(pair.0), draws[0].1),
        (super::frost_protocol::identifier_bytes(pair.1), draws[1].1),
    ];
    (
        commitments,
        super::frost_protocol::signature_share_result(
            commitments,
            message,
            draws[0].0,
            credential.key_packages[pair.0 - 1],
        ),
        super::frost_protocol::signature_share_result(
            commitments,
            message,
            draws[1].0,
            credential.key_packages[pair.1 - 1],
        ),
    )
}

/// The aggregate of a pair's shares over the message.
pub open spec fn aggregate_of(
    credential: super::frost::FrostCredentialView,
    pair: (u16, u16),
    message: Seq<u8>,
    draws: super::frost_protocol::Pairs,
) -> Result<Seq<u8>, Seq<char>> {
    let (commitments, first, second) = ceremony(credential, pair, message, draws);
    let one = (super::frost_protocol::identifier_bytes(pair.0), first->Ok_0);
    let other = (super::frost_protocol::identifier_bytes(pair.1), second->Ok_0);
    super::frost_protocol::aggregate_result(
        commitments,
        message,
        if pair.0 < pair.1 {
            seq![one, other]
        } else {
            seq![other, one]
        },
        credential.public_package,
    )
}

/// A signature of a pair is the aggregate of the two signers' shares over the
/// message, each made with the signer's own key package and freshly drawn nonces
/// over both commitments. It has 64 bytes, and it verifies under the group's key.
/// There is none only where a signer's draw, a share or the aggregation fails, and
/// then the error is that failure.
pub proof fn law_a_pair_signs_with_its_own_shares(
    credential: super::frost::FrostCredentialView,
    pair: (u16, u16),
    message: Seq<u8>,
    result: Result<Seq<u8>, BackendErrorView>,
)
    requires
        super::frost::valid_signers(pair.0, pair.1),
        super::frost::can_sign(credential, pair, message, result),
    ensures
        match result {
            Ok(signature) => {
                &&& signature.len() == 64
                &&& super::frost_protocol::group_verification(
                    credential.public_package,
                    message,
                    signature,
                ) is Ok
                &&& match super::frost_protocol::group_public_key(credential.public_package) {
                    Ok(key) => super::ed25519::ed25519_verifies(key, message, signature),
                    Err(_) => true,
                }
                &&& exists|draws: super::frost_protocol::Pairs| {
                    &&& #[trigger] draws.len() == 2
                    &&& super::frost_protocol::commit_outcome(
                        credential.key_packages[pair.0 - 1],
                        Ok(draws[0]),
                    )
                    &&& super::frost_protocol::commit_outcome(
                        credential.key_packages[pair.1 - 1],
                        Ok(draws[1]),
                    )
                    &&& ceremony(credential, pair, message, draws).1 is Ok
                    &&& ceremony(credential, pair, message, draws).2 is Ok
                    &&& aggregate_of(credential, pair, message, draws) == Ok::<_, Seq<char>>(
                        signature,
                    )
                }
            },
            Err(error) => exists|text: Seq<char>|
                error == BackendErrorView::Internal(#[trigger] ("FROST error: "@ + text)) && {
                    ||| super::frost_protocol::commit_outcome(
                        credential.key_packages[pair.0 - 1],
                        Err(text),
                    )
                    ||| super::frost_protocol::commit_outcome(
                        credential.key_packages[pair.1 - 1],
                        Err(text),
                    )
                    ||| exists|draws: super::frost_protocol::Pairs| #[trigger]
                        draws.len() == 2 && {
                            ||| ceremony(credential, pair, message, draws).1 == Err::<Seq<u8>, _>(
                                text,
                            )
                            ||| ceremony(credential, pair, message, draws).2 == Err::<Seq<u8>, _>(
                                text,
                            )
                            ||| aggregate_of(credential, pair, message, draws) == Err::<
                                Seq<u8>,
                                _,
                            >(text)
                        }
                },
        },
{
    if exists|draws: super::frost_protocol::Pairs| #[trigger]
        super::frost::possible_nonces(credential, pair, draws) && result == super::frost::signed(
            credential,
            pair,
            draws,
            message,
        ) && (result is Ok <==> super::frost::ceremony_completes(
            credential,
            pair,
            draws,
            message,
        )) {
        let draws = choose|draws: super::frost_protocol::Pairs| #[trigger]
            super::frost::possible_nonces(credential, pair, draws) && result
                == super::frost::signed(credential, pair, draws, message) && (result is Ok
                <==> super::frost::ceremony_completes(credential, pair, draws, message));
        let (commitments, first, second) = ceremony(credential, pair, message, draws);
        assert(commitments == super::frost::pair_commitments(pair, draws));
        assert(draws.len() == 2);
        if let Ok(signature) = result {
            assert(first is Ok && second is Ok);
            assert(aggregate_of(credential, pair, message, draws) == Ok::<_, Seq<char>>(signature));
        }
        if let Err(error) = result {
            let text = if pair.0 < pair.1 && first is Err {
                first->Err_0
            } else if pair.0 >= pair.1 && second is Err {
                second->Err_0
            } else if first is Err {
                first->Err_0
            } else if second is Err {
                second->Err_0
            } else {
                aggregate_of(credential, pair, message, draws)->Err_0
            };
            assert(error == BackendErrorView::Internal("FROST error: "@ + text));
        }
    } else {
        let text = choose|text: Seq<char>| #[trigger]
            super::frost::possible_nonce_failure(credential, pair, text) && result == Err::<
                Seq<u8>,
                _,
            >(super::frost::frost_error_view(text));
        assert(result->Err_0 == BackendErrorView::Internal("FROST error: "@ + text));
    }
}

/// A known credential signs with two available participants wherever there are
/// two: the preferred pair if both are available. An unknown one is not found.
/// Signing changes nothing.
pub proof fn law_known_credentials_sign_with_an_available_pair(
    before: FrostBackend,
    handle: Seq<u8>,
    message: Seq<u8>,
    signature: Result<Seq<u8>, BackendErrorView>,
    after: FrostBackend,
)
    requires
        super::frost::valid_signers(before@.preferred.0, before@.preferred.1),
        before@.available.len() == 3,
        before.signs(handle, message, signature, after),
    ensures
        after@ == before@,
        !before@.credentials.contains_key(handle) ==> signature == Err::<Seq<u8>, _>(
            BackendErrorView::CredentialNotFound,
        ),
        before@.credentials.contains_key(handle) && (exists|i: int, j: int|
            0 <= i < j < 3 && #[trigger] before@.available[i] && #[trigger] before@.available[j])
            ==> exists|pair: (u16, u16)| {
            &&& pair.0 != pair.1
            &&& 1 <= pair.0 <= 3
            &&& 1 <= pair.1 <= 3
            &&& before@.available[pair.0 - 1]
            &&& before@.available[pair.1 - 1]
            &&& before@.available[before@.preferred.0 - 1]
                && before@.available[before@.preferred.1 - 1] ==> pair == before@.preferred
            &&& #[trigger] super::frost::can_sign(
                before@.credentials[handle],
                pair,
                message,
                signature,
            )
        },
{
    law_any_two_available_participants_sign(before@.preferred, before@.available);
    if before@.credentials.contains_key(handle) && (exists|i: int, j: int|
        0 <= i < j < 3 && #[trigger] before@.available[i] && #[trigger] before@.available[j]) {
        let pair = super::frost::selected_pair(before@.preferred, before@.available)->0;
        assert(super::frost::can_sign(before@.credentials[handle], pair, message, signature));
    }
}

/// A known credential can be deleted, and only it is gone then; deleting an
/// unknown one changes nothing.
pub proof fn law_known_credentials_can_be_deleted(
    before: FrostBackend,
    handle: Seq<u8>,
    deleted: Result<(), BackendErrorView>,
    after: FrostBackend,
)
    requires
        before.deletes(handle, deleted, after),
    ensures
        deleted is Ok <==> before@.credentials.contains_key(handle),
        deleted is Err ==> deleted == Err::<(), _>(BackendErrorView::CredentialNotFound) && after@
            == before@,
        !after@.credentials.contains_key(handle),
        forall|other: Seq<u8>|
            other != handle ==> {
                &&& #[trigger] after@.credentials.contains_key(other)
                    == before@.credentials.contains_key(other)
                &&& before@.credentials.contains_key(other) ==> after@.credentials[other]
                    == before@.credentials[other]
            },
        after@.available == before@.available,
        after@.preferred == before@.preferred,
{
}

/// Without a relying party nothing is created.
pub proof fn law_nothing_is_created_without_a_relying_party(
    before: FrostBackend,
    user_id: Seq<u8>,
    created: Result<CreatedView, BackendErrorView>,
    after: FrostBackend,
)
    requires
        before.creates(Seq::empty(), user_id, created, after),
    ensures
        created == Err::<CreatedView, _>(
            BackendErrorView::InvalidInput("rp.id must not be empty"@),
        ),
        after@ == before@,
{
}

/// A new backend keeps no credential, has every participant available, and signs
/// with the pair it prefers.
pub proof fn law_new_backends_sign_with_the_preferred_pair(
    backend: super::frost::FrostView,
    pair: (u16, u16),
)
    requires
        super::frost::valid_signers(pair.0, pair.1),
        backend.starts(pair),
    ensures
        forall|handle: Seq<u8>| !#[trigger] backend.credentials.contains_key(handle),
        backend.available.len() == 3,
        forall|i: int| 0 <= i < 3 ==> #[trigger] backend.available[i],
        super::frost::selected_pair(backend.preferred, backend.available) == Some(pair),
{
}

/// Two participants sign only if they are distinct and numbered from 1 to 3.
pub proof fn law_signers_are_two_of_three(first: u16, second: u16)
    ensures
        super::frost::valid_signers(first, second) <==> first != second && 1 <= first <= 3 && 1
            <= second <= 3,
{
}

/// Marking a participant from 1 to 3 sets its mark and no other, and neither the
/// credentials nor the preferred pair change. Any other number is refused, and
/// nothing changes.
pub proof fn law_marking_sets_one_mark(
    before: super::frost::FrostView,
    participant: u16,
    available: bool,
    marked: Result<(), BackendErrorView>,
    after: super::frost::FrostView,
)
    requires
        before.available.len() == 3,
        before.marks(participant, available, marked, after),
    ensures
        marked is Ok <==> 1 <= participant <= 3,
        marked is Err ==> after == before && marked == Err::<(), _>(
            BackendErrorView::InvalidInput("FROST participant must be numbered 1 through 3"@),
        ),
        marked is Ok ==> after.available[participant - 1] == available,
        after.available.len() == 3,
        forall|i: int|
            0 <= i < 3 && i != participant - 1 ==> #[trigger] after.available[i]
                == before.available[i],
        after.credentials == before.credentials,
        after.preferred == before.preferred,
{
}

/// Where one participant of a new backend's preferred pair is marked unavailable,
/// the other one signs with the third; and marked available again, the preferred
/// pair signs.
pub proof fn law_a_missing_signer_is_replaced_and_comes_back(
    started: super::frost::FrostView,
    pair: (u16, u16),
    missing: u16,
    third: u16,
    marked: super::frost::FrostView,
    unmarked: super::frost::FrostView,
)
    requires
        super::frost::valid_signers(pair.0, pair.1),
        started.starts(pair),
        missing == pair.0 || missing == pair.1,
        1 <= third <= 3,
        third != pair.0,
        third != pair.1,
        started.marks(missing, false, Ok(()), marked),
        marked.marks(missing, true, Ok(()), unmarked),
    ensures
        super::frost::selected_pair(marked.preferred, marked.available) matches Some(signers) && {
            let other = if missing == pair.0 {
                pair.1
            } else {
                pair.0
            };
            signers == (other, third) || signers == (third, other)
        },
        super::frost::selected_pair(unmarked.preferred, unmarked.available) == Some(pair),
{
}

} // verus!
