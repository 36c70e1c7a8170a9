//! Plain Ed25519 keys and signatures.

use ed25519_dalek::{Signer, SigningKey};
use vstd::prelude::*;

verus! {

/// The public key of the key pair that `ed25519_dalek` derives from a 32-byte
/// secret.
pub uninterp spec fn ed25519_public_key(secret: Seq<u8>) -> Seq<u8>;

/// The signature that `ed25519_dalek` computes with a 32-byte secret.
pub uninterp spec fn ed25519_signature(secret: Seq<u8>, message: Seq<u8>) -> Seq<u8>;

/// Whether `ed25519_dalek::VerifyingKey::verify` accepts a signature.
pub uninterp spec fn ed25519_verifies(
    public_key: Seq<u8>,
    message: Seq<u8>,
    signature: Seq<u8>,
) -> bool;

/// `ed25519_dalek::SigningKey::generate` with the thread's generator. Which
/// secret comes is chance, so nothing is stated of it.
#[verifier::external_body]
pub(crate) fn generate_secret() -> [u8; 32] {
    SigningKey::generate(&mut rand::thread_rng()).to_bytes()
}

/// `ed25519_dalek::SigningKey::verifying_key`: the public key of a secret.
#[verifier::external_body]
pub(crate) fn public_key(secret: &[u8; 32]) -> (key: [u8; 32])
    ensures
        key@ == ed25519_public_key(secret@),
{
    SigningKey::from_bytes(secret).verifying_key().to_bytes()
}

/// `ed25519_dalek::SigningKey::sign`: the signature is determined by the secret
/// and the message, and verifies under the secret's public key.
#[verifier::external_body]
pub(crate) fn sign_message(secret: &[u8; 32], message: &[u8]) -> (signature: [u8; 64])
    ensures
        signature@ == ed25519_signature(secret@, message@),
        ed25519_verifies(ed25519_public_key(secret@), message@, signature@),
{
    SigningKey::from_bytes(secret).sign(message).to_bytes()
}

} // verus!
