//! The steps of FROST over Ed25519, on serialized values.
//!
//! Every package, key share, nonce, commitment and signature is held in the
//! serialized form that `frost_ed25519` gives it, and equal values have equal
//! forms. An error is its debug text. The identity of the group has no
//! serialized form: a step that meets it fails.

use frost_ed25519::keys::{dkg, KeyPackage, PublicKeyPackage};
use frost_ed25519::rand_core::OsRng;
use frost_ed25519::round1::{SigningCommitments, SigningNonces};
use frost_ed25519::round2::SignatureShare;
use frost_ed25519::{Error, Identifier, Signature, SigningPackage};
use std::collections::BTreeMap;
use vstd::prelude::*;

verus! {

/// Serialized values by the identifier of a participant.
pub type Pairs = Seq<(Seq<u8>, Seq<u8>)>;

/// The contents of a list of pairs.
pub open spec fn pairs_view(pairs: Seq<(Vec<u8>, Vec<u8>)>) -> Pairs {
    pairs.map_values(|pair: (Vec<u8>, Vec<u8>)| (pair.0@, pair.1@))
}

/// The serialized identifier of a participant: its number as a little-endian
/// scalar.
pub open spec fn identifier_bytes(participant: u16) -> Seq<u8> {
    Seq::new(
        32,
        |i: int|
            if i == 0 {
                (participant % 256) as u8
            } else if i == 1 {
                (participant / 256) as u8
            } else {
                0u8
            },
    )
}

/// Whether `frost_ed25519::keys::dkg::part1` can give `outcome`: a secret package
/// and a broadcast package, or an error.
pub uninterp spec fn dkg_part1_outcome(
    identifier: Seq<u8>,
    max_signers: u16,
    min_signers: u16,
    outcome: Result<(Seq<u8>, Seq<u8>), Seq<char>>,
) -> bool;

/// What `frost_ed25519::keys::dkg::part2` gives: the secret package, and a
/// package for each other participant in the order of their identifiers.
pub uninterp spec fn dkg_part2_result(secret: Seq<u8>, received: Pairs) -> Result<
    (Seq<u8>, Pairs),
    Seq<char>,
>;

/// What `frost_ed25519::keys::dkg::part3` gives: the participant's key package
/// and the public key package.
pub uninterp spec fn dkg_part3_result(
    secret: Seq<u8>,
    received_round1: Pairs,
    received_round2: Pairs,
) -> Result<(Seq<u8>, Seq<u8>), Seq<char>>;

/// Whether `frost_ed25519::round1::commit` can give `outcome`: nonces and their
/// commitments, or an error.
pub uninterp spec fn commit_outcome(
    key_package: Seq<u8>,
    outcome: Result<(Seq<u8>, Seq<u8>), Seq<char>>,
) -> bool;

/// What `frost_ed25519::round2::sign` gives: the participant's signature share.
pub uninterp spec fn signature_share_result(
    commitments: Pairs,
    message: Seq<u8>,
    nonces: Seq<u8>,
    key_package: Seq<u8>,
) -> Result<Seq<u8>, Seq<char>>;

/// What `frost_ed25519::aggregate` gives: the serialized signature.
pub uninterp spec fn aggregate_result(
    commitments: Pairs,
    message: Seq<u8>,
    shares: Pairs,
    public_package: Seq<u8>,
) -> Result<Seq<u8>, Seq<char>>;

/// What `frost_ed25519::VerifyingKey::verify` says under the group's key.
pub uninterp spec fn group_verification(
    public_package: Seq<u8>,
    message: Seq<u8>,
    signature: Seq<u8>,
) -> Result<(), Seq<char>>;

/// What `frost_ed25519::VerifyingKey::serialize` gives for the group's key.
pub uninterp spec fn group_public_key(public_package: Seq<u8>) -> Result<Seq<u8>, Seq<char>>;

/// The contents of what a draw gives.
pub open spec fn drawn_view(drawn: Result<(Vec<u8>, Vec<u8>), String>) -> Result<
    (Seq<u8>, Seq<u8>),
    Seq<char>,
> {
    match drawn {
        Ok(given) => Ok((given.0@, given.1@)),
        Err(text) => Err(text@),
    }
}

/// Whether a secret package comes out of the first part of key generation.
pub open spec fn is_round1_secret(secret: Seq<u8>) -> bool {
    exists|identifier: Seq<u8>, max_signers: u16, min_signers: u16, package: Seq<u8>|
        dkg_part1_outcome(identifier, max_signers, min_signers, Ok((secret, package)))
}

/// Whether a secret package comes out of the second part of key generation.
pub open spec fn is_round2_secret(secret: Seq<u8>) -> bool {
    exists|earlier: Seq<u8>, received: Pairs|
        (#[trigger] dkg_part2_result(earlier, received)) matches Ok(given) && given.0 == secret
}

/// `frost_ed25519::Identifier::try_from` and `serialize`. Only zero is no
/// identifier.
#[verifier::external_body]
pub(crate) fn participant_identifier(participant: u16) -> (identifier: Vec<u8>)
    requires
        participant > 0,
    ensures
        identifier@ == identifier_bytes(participant),
{
    Identifier::try_from(participant).expect("participants are numbered from 1").serialize()
}

/// `frost_ed25519::keys::dkg::part1` with the operating system's generator:
/// some outcome that it can have for the participant and the numbers of signers.
#[verifier::external_body]
pub(crate) fn dkg_part1(identifier: &[u8], max_signers: u16, min_signers: u16) -> (drawn: Result<
    (Vec<u8>, Vec<u8>),
    String,
>)
    ensures
        dkg_part1_outcome(identifier@, max_signers, min_signers, drawn_view(drawn)),
{
    let run = || -> Result<(Vec<u8>, Vec<u8>), Error> {
        let identifier = Identifier::deserialize(identifier)?;
        let (secret, package) = dkg::part1(identifier, max_signers, min_signers, OsRng)?;
        Ok((secret.serialize()?, package.serialize()?))
    };
    run().map_err(|error| format!("{error:?}"))
}

/// `frost_ed25519::keys::dkg::part2`, which is determined by its inputs.
#[verifier::external_body]
pub(crate) fn dkg_part2(secret: &[u8], received: &Vec<(Vec<u8>, Vec<u8>)>) -> (given: Result<
    (Vec<u8>, Vec<(Vec<u8>, Vec<u8>)>),
    String,
>)
    requires
        is_round1_secret(secret@),
    ensures
        match given {
            Ok(g) => dkg_part2_result(secret@, pairs_view(received@)) == Ok::<_, Seq<char>>(
                (g.0@, pairs_view(g.1@)),
            ),
            Err(text) => dkg_part2_result(secret@, pairs_view(received@)) == Err::<
                (Seq<u8>, Pairs),
                _,
            >(text@),
        },
{
    let run = || -> Result<(Vec<u8>, Vec<(Vec<u8>, Vec<u8>)>), Error> {
        let mut packages = BTreeMap::new();
        for (sender, package) in received {
            packages.insert(Identifier::deserialize(sender)?, dkg::round1::Package::deserialize(package)?);
        }
        let (next, sent) = dkg::part2(dkg::round1::SecretPackage::deserialize(secret)?, &packages)?;
        let mut outgoing = Vec::new();
        for (receiver, package) in sent {
            outgoing.push((receiver.serialize(), package.serialize()?));
        }
        Ok((next.serialize()?, outgoing))
    };
    run().map_err(|error| format!("{error:?}"))
}

/// `frost_ed25519::keys::dkg::part3`, which is determined by its inputs.
#[verifier::external_body]
pub(crate) fn dkg_part3(
    secret: &[u8],
    received_round1: &Vec<(Vec<u8>, Vec<u8>)>,
    received_round2: &Vec<(Vec<u8>, Vec<u8>)>,
) -> (given: Result<(Vec<u8>, Vec<u8>), String>)
    requires
        is_round2_secret(secret@),
    ensures
        match given {
            Ok(g) => dkg_part3_result(
                secret@,
                pairs_view(received_round1@),
                pairs_view(received_round2@),
            ) == Ok::<_, Seq<char>>((g.0@, g.1@)),
            Err(text) => dkg_part3_result(
                secret@,
                pairs_view(received_round1@),
                pairs_view(received_round2@),
            ) == Err::<(Seq<u8>, Seq<u8>), _>(text@),
        },
{
    let run = || -> Result<(Vec<u8>, Vec<u8>), Error> {
        let mut round1 = BTreeMap::new();
        for (sender, package) in received_round1 {
            round1.insert(Identifier::deserialize(sender)?, dkg::round1::Package::deserialize(package)?);
        }
        let mut round2 = BTreeMap::new();
        for (sender, package) in received_round2 {
            round2.insert(Identifier::deserialize(sender)?, dkg::round2::Package::deserialize(package)?);
        }
        let secret = dkg::round2::SecretPackage::deserialize(secret)?;
        let (key, public) = dkg::part3(&secret, &round1, &round2)?;
        Ok((key.serialize()?, public.serialize()?))
    };
    run().map_err(|error| format!("{error:?}"))
}

/// `frost_ed25519::round1::commit` with the operating system's generator: some
/// outcome that it can have for the participant's key share.
#[verifier::external_body]
pub(crate) fn commit(key_package: &[u8]) -> (drawn: Result<(Vec<u8>, Vec<u8>), String>)
    ensures
        commit_outcome(key_package@, drawn_view(drawn)),
{
    let run = || -> Result<(Vec<u8>, Vec<u8>), Error> {
        let key_package = KeyPackage::deserialize(key_package)?;
        let (nonces, commitments) = frost_ed25519::round1::commit(key_package.signing_share(), &mut OsRng);
        Ok((nonces.serialize()?, commitments.serialize()?))
    };
    run().map_err(|error| format!("{error:?}"))
}

/// `frost_ed25519::round2::sign`, which is determined by its inputs.
#[verifier::external_body]
pub(crate) fn signature_share(
    commitments: &Vec<(Vec<u8>, Vec<u8>)>,
    message: &[u8],
    nonces: &[u8],
    key_package: &[u8],
) -> (share: Result<Vec<u8>, String>)
    ensures
        match share {
            Ok(bytes) => signature_share_result(
                pairs_view(commitments@),
                message@,
                nonces@,
                key_package@,
            ) == Ok::<_, Seq<char>>(bytes@),
            Err(text) => signature_share_result(
                pairs_view(commitments@),
                message@,
                nonces@,
                key_package@,
            ) == Err::<Seq<u8>, _>(text@),
        },
{
    let run = || -> Result<Vec<u8>, Error> {
        let mut map = BTreeMap::new();
        for (signer, commitment) in commitments {
            map.insert(Identifier::deserialize(signer)?, SigningCommitments::deserialize(commitment)?);
        }
        let package = SigningPackage::new(map, message);
        let nonces = SigningNonces::deserialize(nonces)?;
        let key_package = KeyPackage::deserialize(key_package)?;
        Ok(frost_ed25519::round2::sign(&package, &nonces, &key_package)?.serialize())
    };
    run().map_err(|error| format!("{error:?}"))
}

/// `frost_ed25519::aggregate` and `Signature::serialize`, which are determined
/// by their inputs. A signature is given only after it has been verified under
/// the group's key, and its serialized form is a point and a scalar of 32 bytes
/// each.
#[verifier::external_body]
pub(crate) fn aggregate(
    commitments: &Vec<(Vec<u8>, Vec<u8>)>,
    message: &[u8],
    shares: &Vec<(Vec<u8>, Vec<u8>)>,
    public_package: &[u8],
) -> (signature: Result<Vec<u8>, String>)
    ensures
        match signature {
            Ok(bytes) => aggregate_result(
                pairs_view(commitments@),
                message@,
                pairs_view(shares@),
                public_package@,
            ) == Ok::<_, Seq<char>>(bytes@),
            Err(text) => aggregate_result(
                pairs_view(commitments@),
                message@,
                pairs_view(shares@),
                public_package@,
            ) == Err::<Seq<u8>, _>(text@),
        },
        signature matches Ok(bytes) ==> {
            &&& bytes@.len() == 64
            &&& group_verification(public_package@, message@, bytes@) == Ok::<_, Seq<char>>(())
        },
{
    let run = || -> Result<Vec<u8>, Error> {
        let mut map = BTreeMap::new();
        for (signer, commitment) in commitments {
            map.insert(Identifier::deserialize(signer)?, SigningCommitments::deserialize(commitment)?);
        }
        let mut collected = BTreeMap::new();
        for (signer, share) in shares {
            collected.insert(Identifier::deserialize(signer)?, SignatureShare::deserialize(share)?);
        }
        let public_package = PublicKeyPackage::deserialize(public_package)?;
        frost_ed25519::aggregate(&SigningPackage::new(map, message), &collected, &public_package)?.serialize()
    };
    run().map_err(|error| format!("{error:?}"))
}

/// `frost_ed25519::VerifyingKey::verify` under the group's key, which is
/// determined by its inputs. It checks the plain Ed25519 equation on canonical
/// encodings, so what it accepts `ed25519_dalek` accepts under the serialized
/// group key.
#[verifier::external_body]
pub(crate) fn verify(public_package: &[u8], message: &[u8], signature: &[u8]) -> (verified: Result<
    (),
    String,
>)
    ensures
        match verified {
            Ok(()) => group_verification(public_package@, message@, signature@) == Ok::<
                _,
                Seq<char>,
            >(()),
            Err(text) => group_verification(public_package@, message@, signature@) == Err::<(), _>(
                text@,
            ),
        },
        verified is Ok ==> match group_public_key(public_package@) {
            Ok(key) => super::ed25519::ed25519_verifies(key, message@, signature@),
            Err(_) => true,
        },
{
    let run = || -> Result<(), Error> {
        let public_package = PublicKeyPackage::deserialize(public_package)?;
        public_package.verifying_key().verify(message, &Signature::deserialize(signature)?)
    };
    run().map_err(|error| format!("{error:?}"))
}

/// `frost_ed25519::VerifyingKey::serialize` of the group's key.
#[verifier::external_body]
pub(crate) fn public_key_of(public_package: &[u8]) -> (key: Result<Vec<u8>, String>)
    ensures
        match key {
            Ok(bytes) => group_public_key(public_package@) == Ok::<_, Seq<char>>(bytes@),
            Err(text) => group_public_key(public_package@) == Err::<Seq<u8>, _>(text@),
        },
{
    PublicKeyPackage::deserialize(public_package)
        .and_then(|package| package.verifying_key().serialize())
        .map_err(|error| format!("{error:?}"))
}

} // verus!
