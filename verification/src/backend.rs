//! Credential key backends used by the authenticator protocol layer.
//!
//! CTAP transports deal only in opaque credential handles, Ed25519 public
//! keys, and Ed25519 signatures. Private key material and signing ceremony
//! details remain inside an implementation of [`CredentialBackend`].

use vstd::prelude::*;
use vstd::string::StringExecFns;

pub mod ed25519;
pub mod frost;
pub mod frost_laws;
pub mod frost_protocol;
pub mod handle_map;
pub mod local_ed25519;

pub use frost::FrostBackend;
pub use local_ed25519::LocalEd25519Backend;

verus! {

/// Opaque backend-owned identifier exposed to WebAuthn as a credential ID.
#[derive(Debug, Eq, Hash, PartialEq)]
pub struct CredentialHandle(Vec<u8>);

/// The handle's bytes.
impl View for CredentialHandle {
    type V = Seq<u8>;

    closed spec fn view(&self) -> Seq<u8> {
        self.0@
    }
}

impl CredentialHandle {
    #[verifier::type_invariant]
    spec fn not_empty(&self) -> bool {
        self.0@.len() > 0
    }

    pub fn new(bytes: Vec<u8>) -> (handle: Result<Self, BackendError>)
        ensures
            match handle {
                Ok(h) => bytes@.len() > 0 && h@ == bytes@,
                Err(error) => bytes@.len() == 0 && error@ == BackendErrorView::InvalidInput(
                    "credential handles must not be empty"@,
                ),
            },
    {
        if bytes.len() == 0 {
            return Err(BackendError::InvalidInput("credential handles must not be empty"));
        }
        Ok(CredentialHandle(bytes))
    }

    /// The handle's bytes. There is at least one.
    pub fn as_bytes(&self) -> (bytes: &[u8])
        ensures
            bytes@ == self@,
            bytes@.len() > 0,
    {
        proof {
            use_type_invariant(self);
        }
        &self.0
    }
}

impl Clone for CredentialHandle {
    fn clone(&self) -> (copy: Self)
        ensures
            copy@ == self@,
    {
        proof {
            use_type_invariant(self);
        }
        CredentialHandle(self.0.clone())
    }
}

/// Public result of creating a backend credential.
pub struct CreatedCredential {
    pub handle: CredentialHandle,
    pub public_key: [u8; 32],
}

/// The contents of a [`CreatedCredential`].
#[verifier::ext_equal]
pub struct CreatedView {
    pub handle: Seq<u8>,
    pub public_key: Seq<u8>,
}

impl View for CreatedCredential {
    type V = CreatedView;

    open spec fn view(&self) -> CreatedView {
        CreatedView { handle: self.handle@, public_key: self.public_key@ }
    }
}

/// Inputs that bind a newly created key to its WebAuthn credential.
pub struct CreateCredentialRequest<'a> {
    pub rp_id: &'a str,
    pub user_id: &'a [u8],
}

/// Inputs for an assertion signature.
pub struct SignRequest<'a> {
    pub handle: &'a CredentialHandle,
    pub message: &'a [u8],
}

#[derive(Debug)]
pub enum BackendError {
    InvalidInput(&'static str),
    CredentialNotFound,
    Internal(String),
}

/// The contents of a [`BackendError`].
#[verifier::ext_equal]
pub enum BackendErrorView {
    InvalidInput(Seq<char>),
    CredentialNotFound,
    Internal(Seq<char>),
}

impl View for BackendError {
    type V = BackendErrorView;

    open spec fn view(&self) -> BackendErrorView {
        match self {
            BackendError::InvalidInput(message) => BackendErrorView::InvalidInput(message@),
            BackendError::CredentialNotFound => BackendErrorView::CredentialNotFound,
            BackendError::Internal(message) => BackendErrorView::Internal(message@),
        }
    }
}

impl BackendErrorView {
    /// What the error says to a user.
    pub open spec fn message(self) -> Seq<char> {
        match self {
            BackendErrorView::InvalidInput(message) => "invalid backend input: "@ + message,
            BackendErrorView::CredentialNotFound => "credential not found in backend"@,
            BackendErrorView::Internal(message) => "credential backend failed: "@ + message,
        }
    }
}

impl BackendError {
    /// What the error says to a user.
    pub fn message(&self) -> (message: String)
        ensures
            message@ == self@.message(),
    {
        match self {
            BackendError::InvalidInput(message) => String::from_str(
                "invalid backend input: ",
            ).concat(message),
            BackendError::CredentialNotFound => String::from_str("credential not found in backend"),
            BackendError::Internal(message) => String::from_str(
                "credential backend failed: ",
            ).concat(message.as_str()),
        }
    }
}

/// The contents of what creating a credential gives.
pub open spec fn created_view(created: Result<CreatedCredential, BackendError>) -> Result<
    CreatedView,
    BackendErrorView,
> {
    match created {
        Ok(credential) => Ok(credential@),
        Err(error) => Err(error@),
    }
}

/// The contents of what signing gives.
pub open spec fn signature_view(signature: Result<[u8; 64], BackendError>) -> Result<
    Seq<u8>,
    BackendErrorView,
> {
    match signature {
        Ok(bytes) => Ok(bytes@),
        Err(error) => Err(error@),
    }
}

/// The contents of what deleting gives.
pub open spec fn deleted_view(deleted: Result<(), BackendError>) -> Result<(), BackendErrorView> {
    match deleted {
        Ok(()) => Ok(()),
        Err(error) => Err(error@),
    }
}

/// Backend-neutral credential lifecycle needed by WebAuthn registration and
/// authentication.
///
/// Each operation may draw on chance, so a backend says of each which outcomes
/// and which states after it are possible.
pub trait CredentialBackend: Send + Sized {
    /// Whether creating a credential for `rp_id` and `user_id` can give
    /// `created` and leave `after`.
    spec fn creates(
        self,
        rp_id: Seq<char>,
        user_id: Seq<u8>,
        created: Result<CreatedView, BackendErrorView>,
        after: Self,
    ) -> bool;

    /// Whether signing `message` with the credential `handle` can give
    /// `signature` and leave `after`.
    spec fn signs(
        self,
        handle: Seq<u8>,
        message: Seq<u8>,
        signature: Result<Seq<u8>, BackendErrorView>,
        after: Self,
    ) -> bool;

    /// Whether deleting the credential `handle` can give `deleted` and leave
    /// `after`.
    spec fn deletes(
        self,
        handle: Seq<u8>,
        deleted: Result<(), BackendErrorView>,
        after: Self,
    ) -> bool;

    fn create_credential(&mut self, request: CreateCredentialRequest<'_>) -> (created: Result<
        CreatedCredential,
        BackendError,
    >)
        ensures
            old(self).creates(
                request.rp_id@,
                request.user_id@,
                created_view(created),
                *final(self),
            ),
    ;

    fn sign(&mut self, request: SignRequest<'_>) -> (signature: Result<[u8; 64], BackendError>)
        ensures
            old(self).signs(
                request.handle@,
                request.message@,
                signature_view(signature),
                *final(self),
            ),
    ;

    fn delete_credential(&mut self, handle: &CredentialHandle) -> (deleted: Result<
        (),
        BackendError,
    >)
        ensures
            old(self).deletes(handle@, deleted_view(deleted), *final(self)),
    ;
}

/// A boxed backend is the backend.
impl<B: CredentialBackend> CredentialBackend for Box<B> {
    open spec fn creates(
        self,
        rp_id: Seq<char>,
        user_id: Seq<u8>,
        created: Result<CreatedView, BackendErrorView>,
        after: Self,
    ) -> bool {
        (*self).creates(rp_id, user_id, created, *after)
    }

    open spec fn signs(
        self,
        handle: Seq<u8>,
        message: Seq<u8>,
        signature: Result<Seq<u8>, BackendErrorView>,
        after: Self,
    ) -> bool {
        (*self).signs(handle, message, signature, *after)
    }

    open spec fn deletes(
        self,
        handle: Seq<u8>,
        deleted: Result<(), BackendErrorView>,
        after: Self,
    ) -> bool {
        (*self).deletes(handle, deleted, *after)
    }

    fn create_credential(&mut self, request: CreateCredentialRequest<'_>) -> (created: Result<
        CreatedCredential,
        BackendError,
    >) {
        (&mut **self).create_credential(request)
    }

    fn sign(&mut self, request: SignRequest<'_>) -> (signature: Result<[u8; 64], BackendError>) {
        (&mut **self).sign(request)
    }

    fn delete_credential(&mut self, handle: &CredentialHandle) -> (deleted: Result<
        (),
        BackendError,
    >) {
        (&mut **self).delete_credential(handle)
    }
}

/// A boxed backend creates, signs and deletes as the backend in the box does.
pub proof fn law_boxes_do_as_their_backend<B: CredentialBackend>(
    before: Box<B>,
    after: Box<B>,
    rp_id: Seq<char>,
    bytes: Seq<u8>,
    message: Seq<u8>,
    created: Result<CreatedView, BackendErrorView>,
    signature: Result<Seq<u8>, BackendErrorView>,
    deleted: Result<(), BackendErrorView>,
)
    ensures
        before.creates(rp_id, bytes, created, after) == (*before).creates(
            rp_id,
            bytes,
            created,
            *after,
        ),
        before.signs(bytes, message, signature, after) == (*before).signs(
            bytes,
            message,
            signature,
            *after,
        ),
        before.deletes(bytes, deleted, after) == (*before).deletes(bytes, deleted, *after),
{
}

/// What each error says to a user.
pub proof fn law_errors_say_what_is_wrong(text: Seq<char>)
    ensures
        BackendErrorView::InvalidInput(text).message() == "invalid backend input: "@ + text,
        BackendErrorView::CredentialNotFound.message() == "credential not found in backend"@,
        BackendErrorView::Internal(text).message() == "credential backend failed: "@ + text,
{
}

} // verus!
