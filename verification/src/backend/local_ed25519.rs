//! Credentials with one local Ed25519 key each.

use super::ed25519::{generate_secret, public_key, sign_message};
use super::handle_map::HandleMap;
use super::{
    BackendError, BackendErrorView, CreateCredentialRequest, CreatedCredential, CreatedView,
    CredentialBackend, CredentialHandle, SignRequest,
};
use crate::bytes::copy_bytes;
use vstd::prelude::*;

verus! {

/// In-process backend used as the baseline of browser tests. Private keys never
/// leave this type.
pub struct LocalEd25519Backend {
    keys: HandleMap<[u8; 32]>,
}

/// The secret of each credential, by handle.
impl View for LocalEd25519Backend {
    type V = Map<Seq<u8>, Seq<u8>>;

    closed spec fn view(&self) -> Map<Seq<u8>, Seq<u8>> {
        self.keys@.map_values(|secret: [u8; 32]| secret@)
    }
}

impl Default for LocalEd25519Backend {
    fn default() -> (backend: Self)
        ensures
            backend@ == Map::<Seq<u8>, Seq<u8>>::empty(),
    {
        let backend = LocalEd25519Backend { keys: HandleMap::new() };
        assert(backend@ =~= Map::<Seq<u8>, Seq<u8>>::empty());
        backend
    }
}

impl LocalEd25519Backend {
    /// Stores a secret under a handle.
    pub fn store_key(&mut self, handle: CredentialHandle, secret: [u8; 32]) -> (created:
        CreatedCredential)
        ensures
            created@ == (CreatedView {
                handle: handle@,
                public_key: super::ed25519::ed25519_public_key(secret@),
            }),
            final(self)@ == old(self)@.insert(handle@, secret@),
    {
        self.keys.insert(copy_bytes(handle.as_bytes()), secret);
        assert(self@ =~= old(self)@.insert(handle@, secret@));
        CreatedCredential { public_key: public_key(&secret), handle }
    }
}

impl CredentialBackend for LocalEd25519Backend {
    /// A fresh 32-byte handle gets a secret, and the public key is the secret's.
    /// Only without a relying party nothing is created.
    open spec fn creates(
        self,
        rp_id: Seq<char>,
        user_id: Seq<u8>,
        created: Result<CreatedView, BackendErrorView>,
        after: Self,
    ) -> bool {
        if rp_id.len() == 0 {
            &&& created == Err::<CreatedView, _>(
                BackendErrorView::InvalidInput("rp.id must not be empty"@),
            )
            &&& after@ == self@
        } else {
            created matches Ok(credential) && {
                &&& credential.handle.len() == 32
                &&& !self@.contains_key(credential.handle)
                &&& exists|secret: Seq<u8>| {
                    &&& secret.len() == 32
                    &&& credential.public_key
                        == #[trigger] super::ed25519::ed25519_public_key(secret)
                    &&& after@ == self@.insert(credential.handle, secret)
                }
            }
        }
    }

    /// A known credential signs with its secret; an unknown one is not found.
    open spec fn signs(
        self,
        handle: Seq<u8>,
        message: Seq<u8>,
        signature: Result<Seq<u8>, BackendErrorView>,
        after: Self,
    ) -> bool {
        &&& after@ == self@
        &&& if self@.contains_key(handle) {
            signature matches Ok(bytes) && {
                &&& bytes == super::ed25519::ed25519_signature(self@[handle], message)
                &&& super::ed25519::ed25519_verifies(
                    super::ed25519::ed25519_public_key(self@[handle]),
                    message,
                    bytes,
                )
            }
        } else {
            signature == Err::<Seq<u8>, _>(BackendErrorView::CredentialNotFound)
        }
    }

    /// A known credential is gone afterwards; an unknown one is not found.
    open spec fn deletes(
        self,
        handle: Seq<u8>,
        deleted: Result<(), BackendErrorView>,
        after: Self,
    ) -> bool {
        if self@.contains_key(handle) {
            deleted == Ok::<(), BackendErrorView>(()) && after@ == self@.remove(handle)
        } else {
            deleted == Err::<(), _>(BackendErrorView::CredentialNotFound) && after@ == self@
        }
    }

    fn create_credential(&mut self, request: CreateCredentialRequest<'_>) -> (created: Result<
        CreatedCredential,
        BackendError,
    >) {
        if request.rp_id.is_empty() {
            return Err(BackendError::InvalidInput("rp.id must not be empty"));
        }
        // The local backend does not need the user ID to derive the key, but
        // accepting it here keeps the boundary suitable for remote/MPC policy.
        let secret: [u8; 32] = generate_secret();
        match CredentialHandle::new(self.keys.draw_unused_key()) {
            Ok(handle) => {
                let created = self.store_key(handle, secret);
                assert(created@.public_key == super::ed25519::ed25519_public_key(secret@));
                Ok(created)
            },
            Err(error) => Err(error),
        }
    }

    fn sign(&mut self, request: SignRequest<'_>) -> (signature: Result<[u8; 64], BackendError>) {
        match self.keys.get(request.handle.as_bytes()) {
            Some(secret) => Ok(sign_message(secret, request.message)),
            None => Err(BackendError::CredentialNotFound),
        }
    }

    fn delete_credential(&mut self, handle: &CredentialHandle) -> (deleted: Result<
        (),
        BackendError,
    >) {
        match self.keys.remove(handle.as_bytes()) {
            Some(_) => {
                assert(self@ =~= old(self)@.remove(handle@));
                Ok(())
            },
            None => {
                assert(self@ =~= old(self)@);
                Err(BackendError::CredentialNotFound)
            },
        }
    }
}

/// What a created credential signs verifies under its public key, as long as the
/// credential is kept.
pub proof fn law_created_credentials_sign_verifiably(
    before: LocalEd25519Backend,
    rp_id: Seq<char>,
    user_id: Seq<u8>,
    credential: CreatedView,
    created: LocalEd25519Backend,
    later: LocalEd25519Backend,
    message: Seq<u8>,
    signature: Result<Seq<u8>, BackendErrorView>,
    after: LocalEd25519Backend,
)
    requires
        before.creates(rp_id, user_id, Ok(credential), created),
        later@.contains_key(credential.handle),
        later@[credential.handle] == created@[credential.handle],
        later.signs(credential.handle, message, signature, after),
    ensures
        signature is Ok,
        super::ed25519::ed25519_verifies(credential.public_key, message, signature->Ok_0),
{
}

/// A credential is created exactly where the relying party has a name.
pub proof fn law_named_relying_parties_get_a_credential(
    before: LocalEd25519Backend,
    rp_id: Seq<char>,
    user_id: Seq<u8>,
    created: Result<CreatedView, BackendErrorView>,
    after: LocalEd25519Backend,
)
    requires
        before.creates(rp_id, user_id, created, after),
    ensures
        created is Ok <==> rp_id.len() > 0,
{
}

/// Creating, signing, and deleting another credential keep a credential and its
/// secret.
pub proof fn law_operations_keep_other_credentials(
    before: LocalEd25519Backend,
    handle: Seq<u8>,
    after: LocalEd25519Backend,
)
    requires
        before@.contains_key(handle),
        (exists|rp_id: Seq<char>, user_id: Seq<u8>, created: Result<CreatedView, BackendErrorView>|
            before.creates(rp_id, user_id, created, after)) || (exists|
            used: Seq<u8>,
            message: Seq<u8>,
            signature: Result<Seq<u8>, BackendErrorView>,
        |
            before.signs(used, message, signature, after)) || (exists|
            other: Seq<u8>,
            deleted: Result<(), BackendErrorView>,
        |
            other != handle && before.deletes(other, deleted, after)),
    ensures
        after@.contains_key(handle),
        after@[handle] == before@[handle],
{
}

/// A credential that is deleted, or was never created, cannot sign.
pub proof fn law_deleted_and_unknown_credentials_cannot_sign(
    before: LocalEd25519Backend,
    handle: Seq<u8>,
    deleted: Result<(), BackendErrorView>,
    between: LocalEd25519Backend,
    message: Seq<u8>,
    signature: Result<Seq<u8>, BackendErrorView>,
    after: LocalEd25519Backend,
)
    requires
        before.deletes(handle, deleted, between),
        between.signs(handle, message, signature, after),
    ensures
        signature == Err::<Seq<u8>, _>(BackendErrorView::CredentialNotFound),
{
}

/// No two credentials share a handle.
pub proof fn law_handles_are_fresh(
    before: LocalEd25519Backend,
    rp_id: Seq<char>,
    user_id: Seq<u8>,
    credential: CreatedView,
    after: LocalEd25519Backend,
)
    requires
        before.creates(rp_id, user_id, Ok(credential), after),
    ensures
        !before@.contains_key(credential.handle),
        after@.contains_key(credential.handle),
{
}

/// A created credential has a handle of 32 bytes that was not in use, and a secret
/// of 32 bytes whose public key it names. It is stored, and every other credential
/// stays. Without a relying party nothing is created.
pub proof fn law_creating_stores_one_credential(
    before: LocalEd25519Backend,
    rp_id: Seq<char>,
    user_id: Seq<u8>,
    created: Result<CreatedView, BackendErrorView>,
    after: LocalEd25519Backend,
)
    requires
        before.creates(rp_id, user_id, created, after),
    ensures
        match created {
            Ok(credential) => {
                &&& rp_id.len() > 0
                &&& credential.handle.len() == 32
                &&& !before@.contains_key(credential.handle)
                &&& after@.contains_key(credential.handle)
                &&& after@[credential.handle].len() == 32
                &&& super::ed25519::ed25519_public_key(after@[credential.handle])
                    == credential.public_key
                &&& after@.remove(credential.handle) == before@
            },
            Err(error) => {
                &&& rp_id.len() == 0
                &&& error == BackendErrorView::InvalidInput("rp.id must not be empty"@)
                &&& after@ == before@
            },
        },
{
    if let Ok(credential) = created {
        assert(after@.remove(credential.handle) =~= before@);
    }
}

/// A known credential signs with its own secret, whatever the message, and the
/// signature verifies under the secret's public key; an unknown one is not found.
/// Signing changes nothing.
pub proof fn law_known_credentials_sign_with_their_secret(
    before: LocalEd25519Backend,
    handle: Seq<u8>,
    message: Seq<u8>,
    signature: Result<Seq<u8>, BackendErrorView>,
    after: LocalEd25519Backend,
)
    requires
        before.signs(handle, message, signature, after),
    ensures
        after@ == before@,
        signature is Ok <==> before@.contains_key(handle),
        match signature {
            Ok(bytes) => {
                &&& bytes == super::ed25519::ed25519_signature(before@[handle], message)
                &&& super::ed25519::ed25519_verifies(
                    super::ed25519::ed25519_public_key(before@[handle]),
                    message,
                    bytes,
                )
            },
            Err(error) => error == BackendErrorView::CredentialNotFound,
        },
{
}

/// A known credential can be deleted, and only it is gone then; deleting an
/// unknown one changes nothing.
pub proof fn law_known_credentials_can_be_deleted(
    before: LocalEd25519Backend,
    handle: Seq<u8>,
    deleted: Result<(), BackendErrorView>,
    after: LocalEd25519Backend,
)
    requires
        before.deletes(handle, deleted, after),
    ensures
        deleted is Ok <==> before@.contains_key(handle),
        deleted is Err ==> deleted == Err::<(), _>(BackendErrorView::CredentialNotFound) && after@
            == before@,
        !after@.contains_key(handle),
        forall|other: Seq<u8>|
            other != handle ==> {
                &&& #[trigger] after@.contains_key(other) == before@.contains_key(other)
                &&& before@.contains_key(other) ==> after@[other] == before@[other]
            },
{
}

} // verus!
