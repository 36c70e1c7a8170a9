//! Credentials whose keys are shared among three FROST participants.

use super::frost_protocol::{
    aggregate, commit, dkg_part1, dkg_part2, dkg_part3, participant_identifier, public_key_of,
    signature_share, verify, Pairs,
};
use super::handle_map::HandleMap;
use super::{
    BackendError, BackendErrorView, CreateCredentialRequest, CreatedCredential, CreatedView,
    CredentialBackend, CredentialHandle, SignRequest,
};
use crate::bytes::{bytes_equal, copy_bytes, padded_array};
use vstd::prelude::*;
use vstd::string::StringExecFns;

verus! {

pub const MAX_SIGNERS: u16 = 3;

pub const MIN_SIGNERS: u16 = 2;

/// The key shares of one credential, by participant, and the public data of
/// the group.
pub struct FrostCredential {
    key_packages: Vec<Vec<u8>>,
    public_key_package: Vec<u8>,
}

/// The contents of a [`FrostCredential`].
#[verifier::ext_equal]
pub struct FrostCredentialView {
    pub key_packages: Seq<Seq<u8>>,
    pub public_package: Seq<u8>,
}

impl View for FrostCredential {
    type V = FrostCredentialView;

    closed spec fn view(&self) -> FrostCredentialView {
        FrostCredentialView {
            key_packages: self.key_packages@.map_values(|key: Vec<u8>| key@),
            public_package: self.public_key_package@,
        }
    }
}

impl FrostCredential {
    /// Every participant has a share.
    #[verifier::type_invariant]
    spec fn has_all_shares(&self) -> bool {
        self.key_packages@.len() == MAX_SIGNERS
    }
}

/// Two distinct participants, which is what a signature takes.
#[derive(Clone, Copy)]
pub struct SignerPair {
    first: u16,
    second: u16,
}

/// The numbers of the two participants, in order.
impl View for SignerPair {
    type V = (u16, u16);

    closed spec fn view(&self) -> (u16, u16) {
        (self.first, self.second)
    }
}

/// Whether the numbers are those of two distinct participants.
pub open spec fn valid_signers(first: u16, second: u16) -> bool {
    &&& first != second
    &&& 1 <= first <= MAX_SIGNERS
    &&& 1 <= second <= MAX_SIGNERS
}

impl SignerPair {
    #[verifier::type_invariant]
    spec fn is_valid(&self) -> bool {
        valid_signers(self.first, self.second)
    }
}

/// In-process 2-of-3 FROST Ed25519 backend.
///
/// It models three distinct participants and never reconstructs the group
/// secret. The in-memory coordinator is intentionally replaceable by a
/// networked participant implementation in a later milestone.
pub struct FrostBackend {
    credentials: HandleMap<FrostCredential>,
    preferred_signers: SignerPair,
    participant_available: [bool; 3],
}

/// The contents of a [`FrostBackend`].
#[verifier::ext_equal]
pub struct FrostView {
    pub credentials: Map<Seq<u8>, FrostCredentialView>,
    pub preferred: (u16, u16),
    pub available: Seq<bool>,
}

impl View for FrostBackend {
    type V = FrostView;

    closed spec fn view(&self) -> FrostView {
        FrostView {
            credentials: self.credentials@.map_values(|credential: FrostCredential| credential@),
            preferred: self.preferred_signers@,
            available: self.participant_available@,
        }
    }
}

impl FrostView {
    /// Whether a new backend that prefers the pair is this one.
    pub open spec fn starts(self, pair: (u16, u16)) -> bool {
        &&& self.credentials == Map::<Seq<u8>, FrostCredentialView>::empty()
        &&& self.preferred == pair
        &&& self.available == seq![true, true, true]
    }

    /// Whether marking a participant can give `marked` and leave `after`.
    pub open spec fn marks(
        self,
        participant: u16,
        available: bool,
        marked: Result<(), BackendErrorView>,
        after: Self,
    ) -> bool {
        if 1 <= participant <= MAX_SIGNERS {
            &&& marked is Ok
            &&& after == (FrostView {
                available: self.available.update(participant - 1, available),
                ..self
            })
        } else {
            &&& marked == Err::<(), _>(
                BackendErrorView::InvalidInput("FROST participant must be numbered 1 through 3"@),
            )
            &&& after == self
        }
    }
}

/// The error for what a FROST step says.
pub open spec fn frost_error_view(text: Seq<char>) -> BackendErrorView {
    BackendErrorView::Internal("FROST error: "@ + text)
}

/// The serialized identifier of the `i`-th participant, counted from zero.
pub open spec fn identifier(i: int) -> Seq<u8> {
    super::frost_protocol::identifier_bytes((i + 1) as u16)
}

/// The first-round packages that the `i`-th participant receives: those of the
/// others, in order. `draws` are the secret and the broadcast package of each
/// participant.
pub open spec fn received_round1(draws: Pairs, i: int) -> Pairs {
    Seq::new(
        2,
        |k: int|
            {
                let sender = if k < i { k } else { k + 1 };
                (identifier(sender), draws[sender].1)
            },
    )
}

/// What the second round gives the `i`-th participant.
pub open spec fn round2(draws: Pairs, i: int) -> Result<(Seq<u8>, Pairs), Seq<char>> {
    super::frost_protocol::dkg_part2_result(draws[i].0, received_round1(draws, i))
}

/// The first failure of the second round, at or after the `i`-th participant.
pub open spec fn round2_failure(draws: Pairs, i: int) -> Option<Seq<char>>
    decreases MAX_SIGNERS - i,
{
    if i >= MAX_SIGNERS {
        None
    } else {
        match round2(draws, i) {
            Ok(_) => round2_failure(draws, i + 1),
            Err(text) => Some(text),
        }
    }
}

/// What `sender` sent to `receiver`, out of all that it sent.
pub open spec fn addressed(sent: Pairs, sender: Seq<u8>, receiver: Seq<u8>) -> Pairs
    decreases sent.len(),
{
    if sent.len() == 0 {
        Seq::empty()
    } else {
        let before = addressed(sent.drop_last(), sender, receiver);
        if sent.last().0 == receiver {
            before.push((sender, sent.last().1))
        } else {
            before
        }
    }
}

/// The second-round packages that the `j`-th participant receives from the
/// first `n` participants.
pub open spec fn received_round2(draws: Pairs, j: int, n: int) -> Pairs
    decreases n,
{
    if n <= 0 {
        Seq::empty()
    } else {
        received_round2(draws, j, n - 1) + addressed(
            round2(draws, n - 1)->Ok_0.1,
            identifier(n - 1),
            identifier(j),
        )
    }
}

/// What key generation gives from the `j`-th participant's third round on, where
/// the participants before it hold `keys` and agree on `agreed`.
pub open spec fn round3(
    draws: Pairs,
    j: int,
    keys: Seq<Seq<u8>>,
    agreed: Option<Seq<u8>>,
) -> Result<FrostCredentialView, BackendErrorView>
    decreases MAX_SIGNERS - j,
{
    if j >= MAX_SIGNERS {
        match agreed {
            Some(public_package) => Ok(FrostCredentialView { key_packages: keys, public_package }),
            None => Err(BackendErrorView::Internal("DKG produced no public package"@)),
        }
    } else if received_round2(draws, j, MAX_SIGNERS as int).len() == 0 {
        Err(BackendErrorView::Internal("missing DKG round-two packages"@))
    } else {
        match super::frost_protocol::dkg_part3_result(
            round2(draws, j)->Ok_0.0,
            received_round1(draws, j),
            received_round2(draws, j, MAX_SIGNERS as int),
        ) {
            Err(text) => Err(frost_error_view(text)),
            Ok((key, public_package)) => {
                if agreed is Some && agreed->0 != public_package {
                    Err(
                        BackendErrorView::Internal(
                            "FROST participants derived different public packages"@,
                        ),
                    )
                } else {
                    round3(draws, j + 1, keys.push(key), Some(public_package))
                }
            },
        }
    }
}

/// What key generation gives for the secrets and packages that the participants
/// drew.
pub open spec fn generated(draws: Pairs) -> Result<FrostCredentialView, BackendErrorView> {
    match round2_failure(draws, 0) {
        Some(text) => Err(frost_error_view(text)),
        None => round3(draws, 0, Seq::empty(), None),
    }
}

/// Whether the participants can have drawn these secrets and packages.
pub open spec fn possible_draws(draws: Pairs) -> bool {
    &&& draws.len() == MAX_SIGNERS
    &&& forall|i: int|
        0 <= i < MAX_SIGNERS ==> super::frost_protocol::dkg_part1_outcome(
            identifier(i),
            MAX_SIGNERS,
            MIN_SIGNERS,
            Ok(#[trigger] draws[i]),
        )
}

/// Whether the draw of the `i`-th participant can fail with the text.
pub open spec fn possible_draw_failure(i: int, text: Seq<char>) -> bool {
    &&& 0 <= i < MAX_SIGNERS
    &&& super::frost_protocol::dkg_part1_outcome(
        identifier(i),
        MAX_SIGNERS,
        MIN_SIGNERS,
        Err(text),
    )
}

/// Whether key generation can give `result`: what follows from possible draws, or
/// the failure of a participant's draw.
pub open spec fn can_generate(result: Result<FrostCredentialView, BackendErrorView>) -> bool {
    ||| exists|draws: Pairs| #[trigger] possible_draws(draws) && result == generated(draws)
    ||| exists|i: int, text: Seq<char>| #[trigger]
        possible_draw_failure(i, text) && result == Err::<FrostCredentialView, _>(
            frost_error_view(text),
        )
}

fn frost_error(text: String) -> (error: BackendError)
    ensures
        error@ == frost_error_view(text@),
{
    BackendError::Internal(String::from_str("FROST error: ").concat(text.as_str()))
}

fn internal(text: &str) -> (error: BackendError)
    ensures
        error@ == BackendErrorView::Internal(text@),
{
    BackendError::Internal(String::from_str(text))
}

fn identifiers() -> (all: Vec<Vec<u8>>)
    ensures
        all@.len() == MAX_SIGNERS,
        forall|i: int| 0 <= i < MAX_SIGNERS ==> (#[trigger] all@[i])@ == identifier(i),
{
    let mut all: Vec<Vec<u8>> = Vec::new();
    all.push(participant_identifier(1));
    all.push(participant_identifier(2));
    all.push(participant_identifier(3));
    all
}

fn received_round1_of(
    identifiers: &Vec<Vec<u8>>,
    draws: &Vec<(Vec<u8>, Vec<u8>)>,
    receiver: usize,
) -> (received: Vec<(Vec<u8>, Vec<u8>)>)
    requires
        identifiers@.len() == MAX_SIGNERS,
        forall|i: int| 0 <= i < MAX_SIGNERS ==> (#[trigger] identifiers@[i])@ == identifier(i),
        draws@.len() == MAX_SIGNERS,
        receiver < MAX_SIGNERS,
    ensures
        super::frost_protocol::pairs_view(received@) == received_round1(
            super::frost_protocol::pairs_view(draws@),
            receiver as int,
        ),
{
    let ghost all = super::frost_protocol::pairs_view(draws@);
    let ghost expected = received_round1(all, receiver as int);
    let mut received: Vec<(Vec<u8>, Vec<u8>)> = Vec::new();
    let mut sender: usize = 0;
    while sender < 3
        invariant
            sender <= 3,
            receiver < 3,
            identifiers@.len() == MAX_SIGNERS,
            forall|i: int| 0 <= i < MAX_SIGNERS ==> (#[trigger] identifiers@[i])@ == identifier(i),
            draws@.len() == MAX_SIGNERS,
            all == super::frost_protocol::pairs_view(draws@),
            expected == received_round1(all, receiver as int),
            received@.len() == (if sender <= receiver {
                sender as int
            } else {
                sender - 1
            }),
            forall|k: int|
                0 <= k < received@.len() ==> ((#[trigger] received@[k]).0@, received@[k].1@)
                    == expected[k],
        decreases 3 - sender,
    {
        if sender != receiver {
            received.push((copy_bytes(&identifiers[sender]), copy_bytes(&draws[sender].1)));
        }
        sender = sender + 1;
    }
    assert(super::frost_protocol::pairs_view(received@) =~= expected);
    received
}

fn push_addressed(
    received: &mut Vec<(Vec<u8>, Vec<u8>)>,
    sent: &Vec<(Vec<u8>, Vec<u8>)>,
    sender: &Vec<u8>,
    receiver: &Vec<u8>,
)
    ensures
        super::frost_protocol::pairs_view(final(received)@) == super::frost_protocol::pairs_view(
            old(received)@,
        ) + addressed(super::frost_protocol::pairs_view(sent@), sender@, receiver@),
{
    let ghost all = super::frost_protocol::pairs_view(sent@);
    let ghost start = super::frost_protocol::pairs_view(received@);
    let mut i: usize = 0;
    assert(start + addressed(all.take(0), sender@, receiver@) =~= start);
    while i < sent.len()
        invariant
            i <= sent@.len(),
            all == super::frost_protocol::pairs_view(sent@),
            super::frost_protocol::pairs_view(received@) == start + addressed(
                all.take(i as int),
                sender@,
                receiver@,
            ),
        decreases sent@.len() - i,
    {
        assert(all.take(i + 1).drop_last() =~= all.take(i as int));
        let ghost before = received@;
        if bytes_equal(&sent[i].0, receiver) {
            received.push((copy_bytes(sender), copy_bytes(&sent[i].1)));
            assert(super::frost_protocol::pairs_view(received@)
                =~= super::frost_protocol::pairs_view(before).push((sender@, all[i as int].1)));
        }
        i = i + 1;
        assert(super::frost_protocol::pairs_view(received@) =~= start + addressed(
            all.take(i as int),
            sender@,
            receiver@,
        ));
    }
    assert(all.take(i as int) =~= all);
}

/// The contents of what key generation gives.
pub open spec fn generated_view(generated: Result<FrostCredential, BackendError>) -> Result<
    FrostCredentialView,
    BackendErrorView,
> {
    match generated {
        Ok(credential) => Ok(credential@),
        Err(error) => Err(error@),
    }
}

impl FrostCredential {
    /// Completes key generation for the secrets and packages that the
    /// participants drew.
    pub fn generate_from(draws: Vec<(Vec<u8>, Vec<u8>)>) -> (credential: Result<
        FrostCredential,
        BackendError,
    >)
        requires
            possible_draws(super::frost_protocol::pairs_view(draws@)),
        ensures
            generated_view(credential) == generated(super::frost_protocol::pairs_view(draws@)),
    {
        let ghost all = super::frost_protocol::pairs_view(draws@);
        let identifiers: Vec<Vec<u8>> = identifiers();
        let mut received1: Vec<Vec<(Vec<u8>, Vec<u8>)>> = Vec::new();
        let mut secrets: Vec<Vec<u8>> = Vec::new();
        let mut sent: Vec<Vec<(Vec<u8>, Vec<u8>)>> = Vec::new();
        let mut i: usize = 0;
        while i < 3
            invariant
                i <= 3,
                draws@.len() == 3,
                all == super::frost_protocol::pairs_view(draws@),
                possible_draws(all),
                identifiers@.len() == 3,
                forall|k: int| 0 <= k < 3 ==> (#[trigger] identifiers@[k])@ == identifier(k),
                received1@.len() == i,
                secrets@.len() == i,
                sent@.len() == i,
                round2_failure(all, 0) == round2_failure(all, i as int),
                forall|k: int|
                    0 <= k < i ==> super::frost_protocol::pairs_view((#[trigger] received1@[k])@)
                        == received_round1(all, k),
                forall|k: int|
                    0 <= k < i ==> (#[trigger] round2(all, k)) == Ok::<_, Seq<char>>(
                        (secrets@[k]@, super::frost_protocol::pairs_view(sent@[k]@)),
                    ),
            decreases 3 - i,
        {
            let incoming: Vec<(Vec<u8>, Vec<u8>)> = received_round1_of(&identifiers, &draws, i);
            assert(super::frost_protocol::dkg_part1_outcome(
                identifier(i as int),
                MAX_SIGNERS,
                MIN_SIGNERS,
                Ok(all[i as int]),
            ));
            match dkg_part2(&draws[i].0, &incoming) {
                Ok(given) => {
                    received1.push(incoming);
                    secrets.push(given.0);
                    sent.push(given.1);
                },
                Err(text) => return Err(frost_error(text)),
            }
            i = i + 1;
        }
        let mut key_packages: Vec<Vec<u8>> = Vec::new();
        let mut agreed: Option<Vec<u8>> = None;
        let mut j: usize = 0;
        assert(key_packages@.map_values(|key: Vec<u8>| key@) =~= Seq::empty());
        while j < 3
            invariant
                j <= 3,
                draws@.len() == 3,
                all == super::frost_protocol::pairs_view(draws@),
                identifiers@.len() == 3,
                forall|k: int| 0 <= k < 3 ==> (#[trigger] identifiers@[k])@ == identifier(k),
                received1@.len() == 3,
                secrets@.len() == 3,
                sent@.len() == 3,
                round2_failure(all, 0) is None,
                forall|k: int|
                    0 <= k < 3 ==> super::frost_protocol::pairs_view((#[trigger] received1@[k])@)
                        == received_round1(all, k),
                forall|k: int|
                    0 <= k < 3 ==> (#[trigger] round2(all, k)) == Ok::<_, Seq<char>>(
                        (secrets@[k]@, super::frost_protocol::pairs_view(sent@[k]@)),
                    ),
                key_packages@.len() == j,
                generated(all) == round3(
                    all,
                    j as int,
                    key_packages@.map_values(|key: Vec<u8>| key@),
                    match agreed {
                        Some(package) => Some(package@),
                        None => None,
                    },
                ),
                j > 0 ==> agreed is Some,
            decreases 3 - j,
        {
            let mut incoming: Vec<(Vec<u8>, Vec<u8>)> = Vec::new();
            let mut n: usize = 0;
            assert(super::frost_protocol::pairs_view(incoming@) =~= Seq::empty());
            while n < 3
                invariant
                    n <= 3,
                    j < 3,
                    identifiers@.len() == 3,
                    forall|k: int| 0 <= k < 3 ==> (#[trigger] identifiers@[k])@ == identifier(k),
                    sent@.len() == 3,
                    forall|k: int|
                        0 <= k < 3 ==> (#[trigger] round2(all, k)) == Ok::<_, Seq<char>>(
                            (secrets@[k]@, super::frost_protocol::pairs_view(sent@[k]@)),
                        ),
                    super::frost_protocol::pairs_view(incoming@) == received_round2(
                        all,
                        j as int,
                        n as int,
                    ),
                decreases 3 - n,
            {
                assert(round2(all, n as int) is Ok);
                push_addressed(&mut incoming, &sent[n], &identifiers[n], &identifiers[j]);
                n = n + 1;
            }
            assert(incoming@.len() == received_round2(all, j as int, 3).len());
            if incoming.len() == 0 {
                return Err(internal("missing DKG round-two packages"));
            }
            proof {
                assert(round2(all, j as int) is Ok);
                assert(super::frost_protocol::dkg_part2_result(
                    all[j as int].0,
                    received_round1(all, j as int),
                )->Ok_0.0 == secrets@[j as int]@);
            }
            match dkg_part3(&secrets[j], &received1[j], &incoming) {
                Ok((key_package, public_package)) => {
                    if let Some(expected) = &agreed {
                        if !bytes_equal(expected, &public_package) {
                            return Err(
                                internal("FROST participants derived different public packages"),
                            );
                        }
                    }
                    let ghost before = key_packages@;
                    key_packages.push(key_package);
                    assert(key_packages@.map_values(|key: Vec<u8>| key@) =~= before.map_values(
                        |key: Vec<u8>| key@,
                    ).push(key_package@));
                    agreed = Some(public_package);
                },
                Err(text) => return Err(frost_error(text)),
            }
            j = j + 1;
        }
        match agreed {
            Some(public_key_package) => Ok(FrostCredential { key_packages, public_key_package }),
            None => Err(internal("DKG produced no public package")),
        }
    }

}

impl FrostBackend {
    /// Runs key generation among the three participants.
    pub fn generate_credential() -> (credential: Result<FrostCredential, BackendError>)
        ensures
            can_generate(generated_view(credential)),
    {
        let identifiers: Vec<Vec<u8>> = identifiers();
        let mut draws: Vec<(Vec<u8>, Vec<u8>)> = Vec::new();
        let mut i: usize = 0;
        while i < 3
            invariant
                i <= 3,
                identifiers@.len() == 3,
                forall|k: int| 0 <= k < 3 ==> (#[trigger] identifiers@[k])@ == identifier(k),
                draws@.len() == i,
                forall|k: int|
                    0 <= k < i ==> super::frost_protocol::dkg_part1_outcome(
                        identifier(k),
                        MAX_SIGNERS,
                        MIN_SIGNERS,
                        Ok(((#[trigger] draws@[k]).0@, draws@[k].1@)),
                    ),
            decreases 3 - i,
        {
            match dkg_part1(&identifiers[i], MAX_SIGNERS, MIN_SIGNERS) {
                Ok(drawn) => draws.push(drawn),
                Err(text) => {
                    assert(possible_draw_failure(i as int, text@));
                    return Err(frost_error(text));
                },
            }
            i = i + 1;
        }
        let ghost all = super::frost_protocol::pairs_view(draws@);
        proof {
            assert forall|k: int| 0 <= k < 3 implies super::frost_protocol::dkg_part1_outcome(
                identifier(k),
                MAX_SIGNERS,
                MIN_SIGNERS,
                Ok(#[trigger] all[k]),
            ) by {
                assert(all[k] == (draws@[k].0@, draws@[k].1@));
            }
            assert(possible_draws(all));
        }
        FrostCredential::generate_from(draws)
    }
}

/// The commitments of the two signers. `draws` are the nonces and commitments
/// of each, in the pair's order.
pub open spec fn pair_commitments(pair: (u16, u16), draws: Pairs) -> Pairs {
    seq![
        (super::frost_protocol::identifier_bytes(pair.0), draws[0].1),
        (super::frost_protocol::identifier_bytes(pair.1), draws[1].1),
    ]
}

/// The signature share of the signer `number` with its drawn `nonces`.
pub open spec fn pair_share(
    credential: FrostCredentialView,
    pair: (u16, u16),
    draws: Pairs,
    message: Seq<u8>,
    number: u16,
    nonces: Seq<u8>,
) -> Result<Seq<u8>, Seq<char>> {
    super::frost_protocol::signature_share_result(
        pair_commitments(pair, draws),
        message,
        nonces,
        credential.key_packages[number - 1],
    )
}

/// What the two signers' ceremony gives for the nonces and commitments that
/// they drew. The signer with the lower number makes its share first.
pub open spec fn signed(
    credential: FrostCredentialView,
    pair: (u16, u16),
    draws: Pairs,
    message: Seq<u8>,
) -> Result<Seq<u8>, BackendErrorView> {
    let (low, low_nonces, high, high_nonces) = if pair.0 < pair.1 {
        (pair.0, draws[0].0, pair.1, draws[1].0)
    } else {
        (pair.1, draws[1].0, pair.0, draws[0].0)
    };
    match pair_share(credential, pair, draws, message, low, low_nonces) {
        Err(text) => Err(frost_error_view(text)),
        Ok(low_share) => match pair_share(credential, pair, draws, message, high, high_nonces) {
            Err(text) => Err(frost_error_view(text)),
            Ok(high_share) => signed_with_shares(
                credential,
                pair_commitments(pair, draws),
                message,
                seq![
                    (super::frost_protocol::identifier_bytes(low), low_share),
                    (super::frost_protocol::identifier_bytes(high), high_share),
                ],
            ),
        },
    }
}

/// The aggregate of the shares, if it verifies under the group's key.
pub open spec fn signed_with_shares(
    credential: FrostCredentialView,
    commitments: Pairs,
    message: Seq<u8>,
    shares: Pairs,
) -> Result<Seq<u8>, BackendErrorView> {
    match super::frost_protocol::aggregate_result(
        commitments,
        message,
        shares,
        credential.public_package,
    ) {
        Err(text) => Err(frost_error_view(text)),
        Ok(signature) => match super::frost_protocol::group_verification(
            credential.public_package,
            message,
            signature,
        ) {
            Err(text) => Err(frost_error_view(text)),
            Ok(()) => {
                if signature.len() == 64 {
                    Ok(signature)
                } else {
                    Err(BackendErrorView::Internal("non-Ed25519 signature length"@))
                }
            },
        },
    }
}

/// Whether both signers make their shares and the shares aggregate.
pub open spec fn ceremony_completes(
    credential: FrostCredentialView,
    pair: (u16, u16),
    draws: Pairs,
    message: Seq<u8>,
) -> bool {
    let (low, low_nonces, high, high_nonces) = if pair.0 < pair.1 {
        (pair.0, draws[0].0, pair.1, draws[1].0)
    } else {
        (pair.1, draws[1].0, pair.0, draws[0].0)
    };
    let low_share = pair_share(credential, pair, draws, message, low, low_nonces);
    let high_share = pair_share(credential, pair, draws, message, high, high_nonces);
    &&& low_share is Ok
    &&& high_share is Ok
    &&& super::frost_protocol::aggregate_result(
        pair_commitments(pair, draws),
        message,
        seq![
            (super::frost_protocol::identifier_bytes(low), low_share->Ok_0),
            (super::frost_protocol::identifier_bytes(high), high_share->Ok_0),
        ],
        credential.public_package,
    ) is Ok
}

/// Whether the two signers can have drawn these nonces and commitments.
pub open spec fn possible_nonces(
    credential: FrostCredentialView,
    pair: (u16, u16),
    draws: Pairs,
) -> bool {
    &&& draws.len() == 2
    &&& super::frost_protocol::commit_outcome(credential.key_packages[pair.0 - 1], Ok(draws[0]))
    &&& super::frost_protocol::commit_outcome(credential.key_packages[pair.1 - 1], Ok(draws[1]))
}

/// Whether the draw of one of the two signers can fail with the text.
pub open spec fn possible_nonce_failure(
    credential: FrostCredentialView,
    pair: (u16, u16),
    text: Seq<char>,
) -> bool {
    ||| super::frost_protocol::commit_outcome(credential.key_packages[pair.0 - 1], Err(text))
    ||| super::frost_protocol::commit_outcome(credential.key_packages[pair.1 - 1], Err(text))
}

/// Whether a signature is an Ed25519 signature of the message under the group's
/// serialized key.
pub open spec fn verifies_under_group_key(
    credential: FrostCredentialView,
    message: Seq<u8>,
    signature: Seq<u8>,
) -> bool {
    match super::frost_protocol::group_public_key(credential.public_package) {
        Ok(key) => super::ed25519::ed25519_verifies(key, message, signature),
        Err(_) => true,
    }
}

/// Whether a step of the two signers' ceremony can fail: a signer's draw, the
/// making of a share, or the aggregation.
pub open spec fn ceremony_can_fail(
    credential: FrostCredentialView,
    pair: (u16, u16),
    message: Seq<u8>,
) -> bool {
    ||| exists|draws: Pairs| #[trigger]
        possible_nonces(credential, pair, draws) && !ceremony_completes(
            credential,
            pair,
            draws,
            message,
        )
    ||| exists|text: Seq<char>| possible_nonce_failure(credential, pair, text)
}

/// Whether the two signers' ceremony can give `result`: what follows from
/// possible nonces, or the failure of a signer's draw. Once the shares aggregate
/// there is a signature.
pub open spec fn can_sign(
    credential: FrostCredentialView,
    pair: (u16, u16),
    message: Seq<u8>,
    result: Result<Seq<u8>, BackendErrorView>,
) -> bool {
    &&& {
        ||| exists|draws: Pairs| #[trigger]
            possible_nonces(credential, pair, draws) && result == signed(
                credential,
                pair,
                draws,
                message,
            ) && (result is Ok <==> ceremony_completes(credential, pair, draws, message))
        ||| exists|text: Seq<char>| #[trigger]
            possible_nonce_failure(credential, pair, text) && result == Err::<Seq<u8>, _>(
                frost_error_view(text),
            )
    }
    &&& result matches Ok(signature) ==> verifies_under_group_key(credential, message, signature)
}

/// Checks that the numbers are those of two distinct participants.
pub fn validate_signers(signers: [u16; 2]) -> (checked: Result<(), BackendError>)
    ensures
        match checked {
            Ok(()) => valid_signers(signers@[0], signers@[1]),
            Err(error) => !valid_signers(signers@[0], signers@[1]) && error@
                == BackendErrorView::InvalidInput(
                "FROST requires two distinct participants numbered 1 through 3"@,
            ),
        },
{
    if signers[0] == signers[1] || signers[0] < 1 || signers[0] > MAX_SIGNERS || signers[1] < 1
        || signers[1] > MAX_SIGNERS {
        return Err(
            BackendError::InvalidInput(
                "FROST requires two distinct participants numbered 1 through 3",
            ),
        );
    }
    Ok(())
}

fn pair_of(first: (Vec<u8>, Vec<u8>), second: (Vec<u8>, Vec<u8>)) -> (pairs: Vec<
    (Vec<u8>, Vec<u8>),
>)
    ensures
        super::frost_protocol::pairs_view(pairs@) == seq![
            (first.0@, first.1@),
            (second.0@, second.1@),
        ],
{
    let mut pairs: Vec<(Vec<u8>, Vec<u8>)> = Vec::new();
    pairs.push(first);
    pairs.push(second);
    assert(super::frost_protocol::pairs_view(pairs@) =~= seq![
        (first.0@, first.1@),
        (second.0@, second.1@),
    ]);
    pairs
}

impl FrostCredential {
    /// Completes a signing ceremony for the nonces and commitments that the two
    /// signers drew.
    pub fn sign_from(
        &self,
        signers: [u16; 2],
        first: (Vec<u8>, Vec<u8>),
        second: (Vec<u8>, Vec<u8>),
        message: &[u8],
    ) -> (signature: Result<[u8; 64], BackendError>)
        requires
            valid_signers(signers@[0], signers@[1]),
        ensures
            super::signature_view(signature) == signed(
                self@,
                (signers@[0], signers@[1]),
                seq![(first.0@, first.1@), (second.0@, second.1@)],
                message@,
            ),
            signature is Ok <==> ceremony_completes(
                self@,
                (signers@[0], signers@[1]),
                seq![(first.0@, first.1@), (second.0@, second.1@)],
                message@,
            ),
            signature matches Ok(bytes) ==> verifies_under_group_key(self@, message@, bytes@),
    {
        proof {
            use_type_invariant(self);
        }
        let ghost pair = (signers@[0], signers@[1]);
        let ghost draws = seq![(first.0@, first.1@), (second.0@, second.1@)];
        let commitments: Vec<(Vec<u8>, Vec<u8>)> = pair_of(
            (participant_identifier(signers[0]), first.1),
            (participant_identifier(signers[1]), second.1),
        );
        assert(super::frost_protocol::pairs_view(commitments@) == pair_commitments(pair, draws));
        let (low, low_nonces, high, high_nonces) = if signers[0] < signers[1] {
            (signers[0], first.0, signers[1], second.0)
        } else {
            (signers[1], second.0, signers[0], first.0)
        };
        assert(self@.key_packages[low - 1] == self.key_packages@[low - 1]@);
        assert(self@.key_packages[high - 1] == self.key_packages@[high - 1]@);
        let low_share: Vec<u8> = match signature_share(
            &commitments,
            message,
            &low_nonces,
            &self.key_packages[low as usize - 1],
        ) {
            Ok(share) => share,
            Err(text) => return Err(frost_error(text)),
        };
        let high_share: Vec<u8> = match signature_share(
            &commitments,
            message,
            &high_nonces,
            &self.key_packages[high as usize - 1],
        ) {
            Ok(share) => share,
            Err(text) => return Err(frost_error(text)),
        };
        let shares: Vec<(Vec<u8>, Vec<u8>)> = pair_of(
            (participant_identifier(low), low_share),
            (participant_identifier(high), high_share),
        );
        let signature: Vec<u8> = match aggregate(
            &commitments,
            message,
            &shares,
            &self.public_key_package,
        ) {
            Ok(signature) => signature,
            Err(text) => return Err(frost_error(text)),
        };
        match verify(&self.public_key_package, message, &signature) {
            Ok(()) => {},
            Err(text) => return Err(frost_error(text)),
        }
        if signature.len() != 64 {
            return Err(internal("non-Ed25519 signature length"));
        }
        let bytes: [u8; 64] = padded_array(&signature, 0);
        assert(bytes@ =~= signature@);
        Ok(bytes)
    }

    /// The group's public key.
    pub fn public_key(&self) -> (key: Result<[u8; 32], BackendError>)
        ensures
            match key {
                Ok(k) => super::frost_protocol::group_public_key(self@.public_package) == Ok::<
                    _,
                    Seq<char>,
                >(k@),
                Err(error) => public_key_failure(self@) == Some(error@),
            },
            public_key_failure(self@) is Some ==> key is Err,
    {
        let bytes: Vec<u8> = match public_key_of(&self.public_key_package) {
            Ok(bytes) => bytes,
            Err(text) => return Err(frost_error(text)),
        };
        if bytes.len() != 32 {
            return Err(internal("non-Ed25519 public key length"));
        }
        let key: [u8; 32] = padded_array(&bytes, 0);
        assert(key@ =~= bytes@);
        Ok(key)
    }
}

impl FrostBackend {
    /// Runs a signing ceremony between two participants. The signature is
    /// checked under the group's key before it is given out.
    pub fn sign_with(credential: &FrostCredential, signers: [u16; 2], message: &[u8]) -> (signature:
        Result<[u8; 64], BackendError>)
        ensures
            if valid_signers(signers@[0], signers@[1]) {
                can_sign(
                    credential@,
                    (signers@[0], signers@[1]),
                    message@,
                    super::signature_view(signature),
                )
            } else {
                signature matches Err(error) && error@ == BackendErrorView::InvalidInput(
                    "FROST requires two distinct participants numbered 1 through 3"@,
                )
            },
    {
        match validate_signers(signers) {
            Ok(()) => {},
            Err(error) => return Err(error),
        }
        proof {
            use_type_invariant(credential);
        }
        let ghost pair = (signers@[0], signers@[1]);
        assert(credential@.key_packages[signers@[0] - 1] == credential.key_packages@[signers@[0]
            - 1]@);
        assert(credential@.key_packages[signers@[1] - 1] == credential.key_packages@[signers@[1]
            - 1]@);
        let first: (Vec<u8>, Vec<u8>) = match commit(
            &credential.key_packages[signers[0] as usize - 1],
        ) {
            Ok(drawn) => drawn,
            Err(text) => {
                assert(possible_nonce_failure(credential@, pair, text@));
                return Err(frost_error(text));
            },
        };
        let second: (Vec<u8>, Vec<u8>) = match commit(
            &credential.key_packages[signers[1] as usize - 1],
        ) {
            Ok(drawn) => drawn,
            Err(text) => {
                assert(possible_nonce_failure(credential@, pair, text@));
                return Err(frost_error(text));
            },
        };
        assert(possible_nonces(
            credential@,
            pair,
            seq![(first.0@, first.1@), (second.0@, second.1@)],
        ));
        credential.sign_from(signers, first, second, message)
    }
}

/// Whether both participants of a pair are available.
pub open spec fn pair_available(available: Seq<bool>, pair: (u16, u16)) -> bool {
    available[pair.0 - 1] && available[pair.1 - 1]
}

/// The pair that signs: the preferred one if it is available, else the first
/// available of 1+2, 1+3 and 2+3.
pub open spec fn selected_pair(preferred: (u16, u16), available: Seq<bool>) -> Option<(u16, u16)> {
    if pair_available(available, preferred) {
        Some(preferred)
    } else if pair_available(available, (1, 2)) {
        Some((1, 2))
    } else if pair_available(available, (1, 3)) {
        Some((1, 3))
    } else if pair_available(available, (2, 3)) {
        Some((2, 3))
    } else {
        None
    }
}

impl Default for FrostBackend {
    fn default() -> (backend: Self)
        ensures
            backend@.starts((1, 2)),
            backend@ == (FrostView {
                credentials: Map::empty(),
                preferred: (1, 2),
                available: seq![true, true, true],
            }),
    {
        Self::new()
    }
}

impl FrostBackend {
    /// Creates a backend whose normal signing path uses participants 1 and 2.
    pub fn new() -> (backend: Self)
        ensures
            backend@.starts((1, 2)),
            backend@ == (FrostView {
                credentials: Map::empty(),
                preferred: (1, 2),
                available: seq![true, true, true],
            }),
    {
        let backend = FrostBackend {
            credentials: HandleMap::new(),
            preferred_signers: SignerPair { first: 1, second: 2 },
            participant_available: [true, true, true],
        };
        assert(backend@.credentials =~= Map::empty());
        assert(backend@.available =~= seq![true, true, true]);
        backend
    }

    /// Creates a backend using a selected pair. `[1, 3]` and `[2, 3]` are the
    /// recovery paths involving the backup participant.
    pub fn with_signing_participants(signing_participants: [u16; 2]) -> (backend: Result<
        Self,
        BackendError,
    >)
        ensures
            match backend {
                Ok(b) => {
                    &&& b@.starts((signing_participants@[0], signing_participants@[1]))
                    &&& valid_signers(signing_participants@[0], signing_participants@[1])
                    &&& b@ == (FrostView {
                        credentials: Map::empty(),
                        preferred: (signing_participants@[0], signing_participants@[1]),
                        available: seq![true, true, true],
                    })
                },
                Err(error) => {
                    &&& !valid_signers(signing_participants@[0], signing_participants@[1])
                    &&& error@ == BackendErrorView::InvalidInput(
                        "FROST requires two distinct participants numbered 1 through 3"@,
                    )
                },
            },
    {
        match validate_signers(signing_participants) {
            Ok(()) => {},
            Err(error) => return Err(error),
        }
        let backend = FrostBackend {
            credentials: HandleMap::new(),
            preferred_signers: SignerPair {
                first: signing_participants[0],
                second: signing_participants[1],
            },
            participant_available: [true, true, true],
        };
        assert(backend@.credentials =~= Map::empty());
        assert(backend@.available =~= seq![true, true, true]);
        Ok(backend)
    }

    /// The preferred pair of participants.
    pub fn signing_participants(&self) -> (pair: [u16; 2])
        ensures
            (pair@[0], pair@[1]) == self@.preferred,
            valid_signers(self@.preferred.0, self@.preferred.1),
            self@.available.len() == MAX_SIGNERS,
    {
        proof {
            use_type_invariant(&self.preferred_signers);
        }
        [self.preferred_signers.first, self.preferred_signers.second]
    }

    /// Marks a participant available or unavailable. Signing automatically
    /// selects another valid pair when at least two participants remain.
    pub fn set_participant_available(&mut self, participant: u16, available: bool) -> (marked:
        Result<(), BackendError>)
        ensures
            old(self)@.marks(
                participant,
                available,
                match marked {
                    Ok(()) => Ok(()),
                    Err(error) => Err(error@),
                },
                final(self)@,
            ),
            match marked {
                Ok(()) => {
                    &&& 1 <= participant <= MAX_SIGNERS
                    &&& final(self)@ == (FrostView {
                        available: old(self)@.available.update(participant - 1, available),
                        ..old(self)@
                    })
                },
                Err(error) => {
                    &&& !(1 <= participant <= MAX_SIGNERS)
                    &&& error@ == BackendErrorView::InvalidInput(
                        "FROST participant must be numbered 1 through 3"@,
                    )
                    &&& final(self)@ == old(self)@
                },
            },
    {
        if participant < 1 || participant > MAX_SIGNERS {
            return Err(
                BackendError::InvalidInput("FROST participant must be numbered 1 through 3"),
            );
        }
        self.participant_available[participant as usize - 1] = available;
        assert(self@.available =~= old(self)@.available.update(participant - 1, available));
        Ok(())
    }

    /// The pair of participants that signs next.
    pub fn selected_signers(&self) -> (pair: Result<[u16; 2], BackendError>)
        ensures
            valid_signers(self@.preferred.0, self@.preferred.1),
            self@.available.len() == MAX_SIGNERS,
            match selected_pair(self@.preferred, self@.available) {
                Some(selected) => pair matches Ok(p) && (p@[0], p@[1]) == selected
                    && valid_signers(p@[0], p@[1]),
                None => pair matches Err(error) && error@ == BackendErrorView::Internal(
                    "fewer than two FROST participants are available for signing"@,
                ),
            },
    {
        proof {
            use_type_invariant(&self.preferred_signers);
        }
        let first: u16 = self.preferred_signers.first;
        let second: u16 = self.preferred_signers.second;
        if self.participant_available[first as usize - 1]
            && self.participant_available[second as usize - 1] {
            Ok([first, second])
        } else if self.participant_available[0] && self.participant_available[1] {
            Ok([1, 2])
        } else if self.participant_available[0] && self.participant_available[2] {
            Ok([1, 3])
        } else if self.participant_available[1] && self.participant_available[2] {
            Ok([2, 3])
        } else {
            Err(internal("fewer than two FROST participants are available for signing"))
        }
    }

    /// Stores a credential under a handle.
    pub fn store_credential(&mut self, handle: &CredentialHandle, credential: FrostCredential)
        ensures
            final(self)@ == (FrostView {
                credentials: old(self)@.credentials.insert(handle@, credential@),
                ..old(self)@
            }),
    {
        let ghost view = credential@;
        self.credentials.insert(copy_bytes(handle.as_bytes()), credential);
        assert(self@.credentials =~= old(self)@.credentials.insert(handle@, view));
    }
}

/// The error for a generated credential without a usable public key, if it is
/// one.
pub open spec fn public_key_failure(credential: FrostCredentialView) -> Option<BackendErrorView> {
    match super::frost_protocol::group_public_key(credential.public_package) {
        Ok(key) => if key.len() == 32 {
            None
        } else {
            Some(BackendErrorView::Internal("non-Ed25519 public key length"@))
        },
        Err(text) => Some(frost_error_view(text)),
    }
}

/// Whether creating a credential can fail with `error`: key generation fails, or
/// its result has no usable public key.
pub open spec fn creation_failure(error: BackendErrorView) -> bool {
    ||| can_generate(Err(error))
    ||| exists|credential: FrostCredentialView| #[trigger]
        can_generate(Ok(credential)) && public_key_failure(credential) == Some(error)
}

impl CredentialBackend for FrostBackend {
    /// A fresh 32-byte handle gets a generated credential, and the public key is
    /// the group's. Without a relying party, or where key generation fails,
    /// nothing is created.
    open spec fn creates(
        self,
        rp_id: Seq<char>,
        user_id: Seq<u8>,
        created: Result<CreatedView, BackendErrorView>,
        after: Self,
    ) -> bool {
        if rp_id.len() == 0 {
            &&& created == Err::<CreatedView, _>(
                BackendErrorView::InvalidInput("rp.id must not be empty"@),
            )
            &&& after@ == self@
        } else {
            match created {
                Ok(made) => {
                    &&& made.handle.len() == 32
                    &&& !self@.credentials.contains_key(made.handle)
                    &&& exists|credential: FrostCredentialView| {
                        &&& #[trigger] can_generate(Ok(credential))
                        &&& super::frost_protocol::group_public_key(credential.public_package)
                            == Ok::<_, Seq<char>>(made.public_key)
                        &&& after@ == (FrostView {
                            credentials: self@.credentials.insert(made.handle, credential),
                            ..self@
                        })
                    }
                },
                Err(error) => {
                    &&& creation_failure(error)
                    &&& after@ == self@
                },
            }
        }
    }

    /// A known credential signs with the selected pair; an unknown one is not
    /// found, and without two available participants nothing is signed.
    open spec fn signs(
        self,
        handle: Seq<u8>,
        message: Seq<u8>,
        signature: Result<Seq<u8>, BackendErrorView>,
        after: Self,
    ) -> bool {
        &&& after@ == self@
        &&& if !self@.credentials.contains_key(handle) {
            signature == Err::<Seq<u8>, _>(BackendErrorView::CredentialNotFound)
        } else {
            match selected_pair(self@.preferred, self@.available) {
                None => signature == Err::<Seq<u8>, _>(
                    BackendErrorView::Internal(
                        "fewer than two FROST participants are available for signing"@,
                    ),
                ),
                Some(pair) => can_sign(self@.credentials[handle], pair, message, signature),
            }
        }
    }

    /// A known credential is gone afterwards; an unknown one is not found.
    open spec fn deletes(
        self,
        handle: Seq<u8>,
        deleted: Result<(), BackendErrorView>,
        after: Self,
    ) -> bool {
        if self@.credentials.contains_key(handle) {
            &&& deleted == Ok::<(), BackendErrorView>(())
            &&& after@ == (FrostView {
                credentials: self@.credentials.remove(handle),
                ..self@
            })
        } else {
            deleted == Err::<(), _>(BackendErrorView::CredentialNotFound) && after@ == self@
        }
    }

    fn create_credential(&mut self, request: CreateCredentialRequest<'_>) -> (created: Result<
        CreatedCredential,
        BackendError,
    >) {
        if request.rp_id.is_empty() {
            return Err(BackendError::InvalidInput("rp.id must not be empty"));
        }
        let credential = match Self::generate_credential() {
            Ok(credential) => credential,
            Err(error) => return Err(error),
        };
        let public_key: [u8; 32] = match credential.public_key() {
            Ok(public_key) => public_key,
            Err(error) => return Err(error),
        };
        let ghost view = credential@;
        match CredentialHandle::new(self.credentials.draw_unused_key()) {
            Ok(handle) => {
                assert(!self@.credentials.contains_key(handle@));
                self.store_credential(&handle, credential);
                assert(can_generate(Ok(view)));
                Ok(CreatedCredential { handle, public_key })
            },
            Err(error) => Err(error),
        }
    }

    fn sign(&mut self, request: SignRequest<'_>) -> (signature: Result<[u8; 64], BackendError>) {
        let credential = match self.credentials.get(request.handle.as_bytes()) {
            Some(credential) => credential,
            None => return Err(BackendError::CredentialNotFound),
        };
        let signers: [u16; 2] = match self.selected_signers() {
            Ok(signers) => signers,
            Err(error) => return Err(error),
        };
        Self::sign_with(credential, signers, request.message)
    }

    fn delete_credential(&mut self, handle: &CredentialHandle) -> (deleted: Result<
        (),
        BackendError,
    >) {
        match self.credentials.remove(handle.as_bytes()) {
            Some(_) => {
                assert(self@.credentials =~= old(self)@.credentials.remove(handle@));
                Ok(())
            },
            None => {
                assert(self@.credentials =~= old(self)@.credentials);
                Err(BackendError::CredentialNotFound)
            },
        }
    }
}

} // verus!
