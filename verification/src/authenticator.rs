//! Transport-independent WebAuthn credential lifecycle.
//!
//! This layer owns credential metadata and delegates all private-key
//! operations to a [`CredentialBackend`]. HID framing, CTAP encoding, and user
//! interaction belong to transport adapters such as `linux_uhid`.

use crate::backend::handle_map::HandleMap;
use crate::backend::{
    BackendError, BackendErrorView, CreateCredentialRequest, CreatedCredential, CredentialBackend,
    CredentialHandle, SignRequest,
};
use crate::bytes::{copy_bytes, push_all, push_be32};
use crate::sha256::sha256;
use crate::text::text_equal;
use vstd::prelude::*;
use vstd::string::StringExecFns;

pub mod history;
pub mod laws;

verus! {

struct CredentialRecord {
    rp_id: String,
    backend_handle: CredentialHandle,
    sign_count: u32,
}

/// What the service knows of a credential. The backend knows it by its ID.
#[verifier::ext_equal]
pub struct RecordView {
    pub rp_id: Seq<char>,
    pub sign_count: u32,
}

impl View for CredentialRecord {
    type V = RecordView;

    closed spec fn view(&self) -> RecordView {
        RecordView { rp_id: self.rp_id@, sign_count: self.sign_count }
    }
}

/// The records of the service, each under the bytes of its backend handle.
struct CredentialTable {
    records: HandleMap<CredentialRecord>,
}

spec fn filed_under_handles(records: Map<Seq<u8>, CredentialRecord>) -> bool {
    forall|id: Seq<u8>| #[trigger]
        records.contains_key(id) ==> records[id].backend_handle@ == id
}

impl View for CredentialTable {
    type V = Map<Seq<u8>, RecordView>;

    closed spec fn view(&self) -> Map<Seq<u8>, RecordView> {
        self.records@.map_values(|record: CredentialRecord| record@)
    }
}

impl CredentialTable {
    #[verifier::type_invariant]
    spec fn is_filed_under_handles(&self) -> bool {
        filed_under_handles(self.records@)
    }

    fn new() -> (table: Self)
        ensures
            table@ == Map::<Seq<u8>, RecordView>::empty(),
    {
        let table = CredentialTable { records: HandleMap::new() };
        assert(table@ =~= Map::<Seq<u8>, RecordView>::empty());
        table
    }

    fn get(&self, id: &[u8]) -> (record: Option<&CredentialRecord>)
        ensures
            match record {
                Some(r) => self@.contains_key(id@) && self@[id@] == r@ && r.backend_handle@ == id@,
                None => !self@.contains_key(id@),
            },
    {
        proof {
            use_type_invariant(self);
        }
        self.records.get(id)
    }

    /// Files a record under its handle, in place of what was there.
    fn insert(&mut self, record: CredentialRecord)
        ensures
            final(self)@ == old(self)@.insert(record.backend_handle@, record@),
    {
        proof {
            use_type_invariant(&*self);
        }
        let mut records: HandleMap<CredentialRecord> = HandleMap::new();
        std::mem::swap(&mut records, &mut self.records);
        let ghost (id, view) = (record.backend_handle@, record@);
        records.insert(copy_bytes(record.backend_handle.as_bytes()), record);
        self.records = records;
        assert(self@ =~= old(self)@.insert(id, view));
    }

    /// Sets the counter of a record.
    fn set_sign_count(&mut self, id: &[u8], sign_count: u32)
        requires
            old(self)@.contains_key(id@),
        ensures
            final(self)@ == old(self)@.insert(
                id@,
                RecordView { rp_id: old(self)@[id@].rp_id, sign_count },
            ),
    {
        proof {
            use_type_invariant(&*self);
        }
        let mut records: HandleMap<CredentialRecord> = HandleMap::new();
        std::mem::swap(&mut records, &mut self.records);
        match records.remove(id) {
            Some(record) => {
                let mut record = record;
                record.sign_count = sign_count;
                records.insert(copy_bytes(id), record);
            },
            None => {},
        }
        self.records = records;
        assert(self@ =~= old(self)@.insert(
            id@,
            RecordView { rp_id: old(self)@[id@].rp_id, sign_count },
        ));
    }
}

pub struct RegistrationRequest<'a> {
    pub rp_id: &'a str,
    pub user_id: &'a [u8],
}

pub struct Registration {
    pub credential_id: Vec<u8>,
    pub public_key: [u8; 32],
}

/// The contents of a [`Registration`].
#[verifier::ext_equal]
pub struct RegistrationView {
    pub credential_id: Seq<u8>,
    pub public_key: Seq<u8>,
}

impl View for Registration {
    type V = RegistrationView;

    open spec fn view(&self) -> RegistrationView {
        RegistrationView { credential_id: self.credential_id@, public_key: self.public_key@ }
    }
}

pub struct AssertionRequest<'a> {
    pub rp_id: &'a str,
    pub client_data_hash: &'a [u8; 32],
    pub allow_list: &'a [Vec<u8>],
    pub user_present: bool,
}

/// The contents of an [`AssertionRequest`].
#[verifier::ext_equal]
pub struct AssertionRequestView {
    pub rp_id: Seq<char>,
    pub client_data_hash: Seq<u8>,
    pub allow_list: Seq<Seq<u8>>,
    pub user_present: bool,
}

/// The bytes of each credential ID.
pub open spec fn ids_view(ids: Seq<Vec<u8>>) -> Seq<Seq<u8>> {
    ids.map_values(|id: Vec<u8>| id@)
}

impl<'a> View for AssertionRequest<'a> {
    type V = AssertionRequestView;

    open spec fn view(&self) -> AssertionRequestView {
        AssertionRequestView {
            rp_id: self.rp_id@,
            client_data_hash: self.client_data_hash@,
            allow_list: ids_view(self.allow_list@),
            user_present: self.user_present,
        }
    }
}

pub struct Assertion {
    pub credential_id: Vec<u8>,
    pub authenticator_data: Vec<u8>,
    pub signature: [u8; 64],
    pub sign_count: u32,
}

/// The contents of an [`Assertion`].
#[verifier::ext_equal]
pub struct AssertionView {
    pub credential_id: Seq<u8>,
    pub authenticator_data: Seq<u8>,
    pub signature: Seq<u8>,
    pub sign_count: u32,
}

impl View for Assertion {
    type V = AssertionView;

    open spec fn view(&self) -> AssertionView {
        AssertionView {
            credential_id: self.credential_id@,
            authenticator_data: self.authenticator_data@,
            signature: self.signature@,
            sign_count: self.sign_count,
        }
    }
}

#[derive(Debug)]
pub enum AuthenticatorError {
    NoCredentials,
    Backend(BackendError),
}

/// The contents of an [`AuthenticatorError`].
#[verifier::ext_equal]
pub enum AuthenticatorErrorView {
    NoCredentials,
    Backend(BackendErrorView),
}

impl View for AuthenticatorError {
    type V = AuthenticatorErrorView;

    open spec fn view(&self) -> AuthenticatorErrorView {
        match self {
            AuthenticatorError::NoCredentials => AuthenticatorErrorView::NoCredentials,
            AuthenticatorError::Backend(error) => AuthenticatorErrorView::Backend(error@),
        }
    }
}

impl AuthenticatorErrorView {
    /// What the error says to a user.
    pub open spec fn message(self) -> Seq<char> {
        match self {
            AuthenticatorErrorView::NoCredentials => "no matching credential"@,
            AuthenticatorErrorView::Backend(error) => error.message(),
        }
    }
}

impl AuthenticatorError {
    /// What the error says to a user.
    pub fn message(&self) -> (message: String)
        ensures
            message@ == self@.message(),
    {
        match self {
            AuthenticatorError::NoCredentials => String::from_str("no matching credential"),
            AuthenticatorError::Backend(error) => error.message(),
        }
    }

    /// The backend error behind this one, if there is one.
    pub fn source(&self) -> (source: Option<&BackendError>)
        ensures
            match source {
                Some(error) => *self == AuthenticatorError::Backend(*error),
                None => *self == AuthenticatorError::NoCredentials,
            },
    {
        match self {
            AuthenticatorError::NoCredentials => None,
            AuthenticatorError::Backend(error) => Some(error),
        }
    }
}

impl From<BackendError> for AuthenticatorError {
    fn from(error: BackendError) -> (wrapped: Self) {
        AuthenticatorError::Backend(error)
    }
}

impl vstd::std_specs::convert::FromSpecImpl<BackendError> for AuthenticatorError {
    open spec fn obeys_from_spec() -> bool {
        true
    }

    open spec fn from_spec(error: BackendError) -> Self {
        AuthenticatorError::Backend(error)
    }
}

/// Credential and assertion service shared by every CTAP transport.
pub struct AuthenticatorService<B: CredentialBackend> {
    backend: B,
    credentials: CredentialTable,
}

/// The contents of an [`AuthenticatorService`]: its backend, and what it knows
/// of each credential, by credential ID.
#[verifier::reject_recursive_types(B)]
pub struct ServiceView<B: CredentialBackend> {
    pub backend: B,
    pub records: Map<Seq<u8>, RecordView>,
}

impl<B: CredentialBackend> View for AuthenticatorService<B> {
    type V = ServiceView<B>;

    closed spec fn view(&self) -> ServiceView<B> {
        ServiceView { backend: self.backend, records: self.credentials@ }
    }
}

/// The bytes of the authenticator data of an assertion: 32 of digest, one of
/// flags, four of counter.
pub const AUTHENTICATOR_DATA_SIZE: usize = 37;

/// The authenticator data of an assertion: the digest of the relying party ID,
/// whether a user was present, and the signature counter.
pub open spec fn authenticator_data(rp_id: Seq<char>, user_present: bool, sign_count: u32) -> Seq<
    u8,
> {
    crate::sha256::sha256_digest(vstd::utf8::encode_utf8(rp_id)) + seq![
        if user_present {
            1u8
        } else {
            0u8
        },
    ] + crate::bytes::be32(sign_count)
}

/// The signature counter after one more signature. It stops at its maximum.
pub open spec fn next_sign_count(sign_count: u32) -> u32 {
    if sign_count == u32::MAX {
        u32::MAX
    } else {
        (sign_count + 1) as u32
    }
}

impl<B: CredentialBackend> ServiceView<B> {
    /// Whether the credential `id` exists and belongs to `rp_id`.
    pub open spec fn matches_rp(self, rp_id: Seq<char>, id: Seq<u8>) -> bool {
        self.records.contains_key(id) && self.records[id].rp_id == rp_id
    }

    /// The first credential ID of the list that belongs to `rp_id`.
    pub open spec fn selected(self, rp_id: Seq<char>, allow_list: Seq<Seq<u8>>) -> Option<Seq<u8>>
        decreases allow_list.len(),
    {
        if allow_list.len() == 0 {
            None
        } else if self.matches_rp(rp_id, allow_list[0]) {
            Some(allow_list[0])
        } else {
            self.selected(rp_id, allow_list.skip(1))
        }
    }

    /// Whether registering for `rp_id` and `user_id` can give `registered` and
    /// leave `after`: what the backend creates is recorded under its handle with
    /// a counter of zero; where the backend fails nothing is recorded.
    pub open spec fn registers(
        self,
        rp_id: Seq<char>,
        user_id: Seq<u8>,
        registered: Result<RegistrationView, AuthenticatorErrorView>,
        after: Self,
    ) -> bool {
        match registered {
            Ok(registration) => {
                let created = crate::backend::CreatedView {
                    handle: registration.credential_id,
                    public_key: registration.public_key,
                };
                &&& self.backend.creates(rp_id, user_id, Ok(created), after.backend)
                &&& after.records == self.records.insert(
                    created.handle,
                    RecordView { rp_id, sign_count: 0 },
                )
            },
            Err(AuthenticatorErrorView::Backend(error)) => {
                &&& self.backend.creates(rp_id, user_id, Err(error), after.backend)
                &&& after.records == self.records
            },
            Err(AuthenticatorErrorView::NoCredentials) => false,
        }
    }

    /// What the backend is asked to sign for a request with the credential `id`.
    pub open spec fn signed_data(self, request: AssertionRequestView, id: Seq<u8>) -> Seq<u8> {
        authenticator_data(
            request.rp_id,
            request.user_present,
            next_sign_count(self.records[id].sign_count),
        ) + request.client_data_hash
    }

    /// Whether the request can be answered with `asserted` and leave `after`:
    /// the backend signs the authenticator data and the client data hash with the
    /// first matching credential, whose counter goes up; where none matches, or
    /// the backend fails, no counter changes.
    pub open spec fn asserts(
        self,
        request: AssertionRequestView,
        asserted: Result<AssertionView, AuthenticatorErrorView>,
        after: Self,
    ) -> bool {
        match self.selected(request.rp_id, request.allow_list) {
            None => {
                &&& asserted == Err::<AssertionView, _>(AuthenticatorErrorView::NoCredentials)
                &&& after.backend == self.backend
                &&& after.records == self.records
            },
            Some(id) => {
                let record = self.records[id];
                let sign_count = next_sign_count(record.sign_count);
                match asserted {
                    Ok(assertion) => {
                        &&& self.backend.signs(
                            id,
                            self.signed_data(request, id),
                            Ok(assertion.signature),
                            after.backend,
                        )
                        &&& assertion.credential_id == id
                        &&& assertion.authenticator_data == authenticator_data(
                            request.rp_id,
                            request.user_present,
                            sign_count,
                        )
                        &&& assertion.authenticator_data.len() == AUTHENTICATOR_DATA_SIZE
                        &&& assertion.sign_count == sign_count
                        &&& after.records == self.records.insert(
                            id,
                            RecordView { rp_id: record.rp_id, sign_count },
                        )
                    },
                    Err(AuthenticatorErrorView::Backend(error)) => {
                        &&& self.backend.signs(
                            id,
                            self.signed_data(request, id),
                            Err(error),
                            after.backend,
                        )
                        &&& after.records == self.records
                    },
                    Err(AuthenticatorErrorView::NoCredentials) => false,
                }
            },
        }
    }
}

/// The contents of what registering gives.
pub open spec fn registered_view(registered: Result<Registration, AuthenticatorError>) -> Result<
    RegistrationView,
    AuthenticatorErrorView,
> {
    match registered {
        Ok(registration) => Ok(registration@),
        Err(error) => Err(error@),
    }
}

/// The contents of what an assertion request gives.
pub open spec fn asserted_view(asserted: Result<Assertion, AuthenticatorError>) -> Result<
    AssertionView,
    AuthenticatorErrorView,
> {
    match asserted {
        Ok(assertion) => Ok(assertion@),
        Err(error) => Err(error@),
    }
}

/// An assertion that only lacks its signature.
pub struct PreparedAssertion {
    pub credential_id: Vec<u8>,
    pub backend_handle: CredentialHandle,
    pub authenticator_data: Vec<u8>,
    pub signed_data: Vec<u8>,
    pub sign_count: u32,
}

impl<B: CredentialBackend> AuthenticatorService<B> {
    pub fn new(backend: B) -> (service: Self)
        ensures
            service@.backend == backend,
            service@.records == Map::<Seq<u8>, RecordView>::empty(),
    {
        AuthenticatorService { backend, credentials: CredentialTable::new() }
    }

    /// Records a credential that the backend created.
    pub fn record_created(&mut self, rp_id: &str, created: CreatedCredential) -> (registration:
        Registration)
        ensures
            registration@ == (RegistrationView {
                credential_id: created@.handle,
                public_key: created@.public_key,
            }),
            final(self)@.backend == old(self)@.backend,
            final(self)@.records == old(self)@.records.insert(
                created@.handle,
                RecordView { rp_id: rp_id@, sign_count: 0 },
            ),
    {
        let credential_id: Vec<u8> = copy_bytes(created.handle.as_bytes());
        let record = CredentialRecord {
            rp_id: rp_id.to_owned(),
            backend_handle: created.handle,
            sign_count: 0,
        };
        self.credentials.insert(record);
        Registration { credential_id, public_key: created.public_key }
    }

    pub fn register(&mut self, request: RegistrationRequest<'_>) -> (registered: Result<
        Registration,
        AuthenticatorError,
    >)
        ensures
            old(self)@.registers(
                request.rp_id@,
                request.user_id@,
                registered_view(registered),
                final(self)@,
            ),
    {
        match self.backend.create_credential(
            CreateCredentialRequest { rp_id: request.rp_id, user_id: request.user_id },
        ) {
            Ok(created) => Ok(self.record_created(request.rp_id, created)),
            Err(error) => Err(AuthenticatorError::from(error)),
        }
    }

    pub fn has_matching_credential(&self, rp_id: &str, allow_list: &[Vec<u8>]) -> (has: bool)
        ensures
            has == (self@.selected(rp_id@, ids_view(allow_list@)) is Some),
    {
        self.select_credential(rp_id, allow_list).is_some()
    }

    /// Selects the credential that answers a request, and what it has to sign.
    pub fn prepare_assertion(&self, request: &AssertionRequest<'_>) -> (prepared: Option<
        PreparedAssertion,
    >)
        ensures
            match prepared {
                Some(p) => {
                    let id = p.credential_id@;
                    &&& self@.selected(request@.rp_id, request@.allow_list) == Some(id)
                    &&& self@.records.contains_key(id)
                    &&& p.backend_handle@ == id
                    &&& p.sign_count == next_sign_count(self@.records[id].sign_count)
                    &&& p.authenticator_data@ == authenticator_data(
                        request@.rp_id,
                        request@.user_present,
                        p.sign_count,
                    )
                    &&& p.authenticator_data@.len() == AUTHENTICATOR_DATA_SIZE
                    &&& laws::is_assertion_data(
                        p.authenticator_data@,
                        request@.rp_id,
                        request@.user_present,
                        p.sign_count as int,
                    )
                    &&& p.signed_data@ == self@.signed_data(request@, id)
                    &&& p.signed_data@ == p.authenticator_data@ + request@.client_data_hash
                },
                None => self@.selected(request@.rp_id, request@.allow_list) is None,
            },
    {
        let credential_id: Vec<u8> = match self.select_credential(
            request.rp_id,
            request.allow_list,
        ) {
            Some(credential_id) => copy_bytes(credential_id),
            None => return None,
        };
        let record = match self.credentials.get(&credential_id) {
            Some(record) => record,
            None => return None,
        };
        let sign_count: u32 = record.sign_count.saturating_add(1);
        let mut authenticator_data: Vec<u8> = Vec::new();
        push_all(&mut authenticator_data, &sha256(request.rp_id.as_bytes()));
        authenticator_data.push(if request.user_present { 1 } else { 0 });
        push_be32(&mut authenticator_data, sign_count);
        assert(authenticator_data@ =~= self::authenticator_data(
            request@.rp_id,
            request@.user_present,
            sign_count,
        ));
        proof {
            laws::lemma_assertion_data(request@.rp_id, request@.user_present, sign_count);
        }
        let mut signed_data: Vec<u8> = copy_bytes(&authenticator_data);
        push_all(&mut signed_data, request.client_data_hash);
        Some(
            PreparedAssertion {
                credential_id,
                backend_handle: record.backend_handle.clone(),
                authenticator_data,
                signed_data,
                sign_count,
            },
        )
    }

    /// Completes an assertion with its signature and moves the counter of its
    /// credential.
    pub fn complete_assertion(&mut self, prepared: PreparedAssertion, signature: [u8; 64]) -> (
    assertion: Assertion)
        requires
            old(self)@.records.contains_key(prepared.credential_id@),
        ensures
            assertion@ == (AssertionView {
                credential_id: prepared.credential_id@,
                authenticator_data: prepared.authenticator_data@,
                signature: signature@,
                sign_count: prepared.sign_count,
            }),
            final(self)@.backend == old(self)@.backend,
            final(self)@.records == old(self)@.records.insert(
                prepared.credential_id@,
                RecordView {
                    sign_count: prepared.sign_count,
                    ..old(self)@.records[prepared.credential_id@]
                },
            ),
    {
        self.credentials.set_sign_count(&prepared.credential_id, prepared.sign_count);
        Assertion {
            credential_id: prepared.credential_id,
            authenticator_data: prepared.authenticator_data,
            signature,
            sign_count: prepared.sign_count,
        }
    }

    /// Answers an assertion request with the first credential of its allow list
    /// that belongs to its relying party.
    pub fn get_assertion(&mut self, request: AssertionRequest<'_>) -> (asserted: Result<
        Assertion,
        AuthenticatorError,
    >)
        ensures
            old(self)@.asserts(request@, asserted_view(asserted), final(self)@),
    {
        let prepared = match self.prepare_assertion(&request) {
            Some(prepared) => prepared,
            None => return Err(AuthenticatorError::NoCredentials),
        };
        match self.backend.sign(
            SignRequest { handle: &prepared.backend_handle, message: &prepared.signed_data },
        ) {
            Ok(signature) => Ok(self.complete_assertion(prepared, signature)),
            Err(error) => Err(AuthenticatorError::from(error)),
        }
    }

    fn select_credential<'a>(&self, rp_id: &str, allow_list: &'a [Vec<u8>]) -> (selected: Option<
        &'a Vec<u8>,
    >)
        ensures
            match selected {
                Some(id) => self@.selected(rp_id@, ids_view(allow_list@)) == Some(id@)
                    && self@.matches_rp(rp_id@, id@),
                None => self@.selected(rp_id@, ids_view(allow_list@)) is None,
            },
    {
        let ghost ids = ids_view(allow_list@);
        let mut i: usize = 0;
        assert(ids.skip(0) =~= ids);
        while i < allow_list.len()
            invariant
                i <= allow_list@.len(),
                ids == ids_view(allow_list@),
                self@.selected(rp_id@, ids) == self@.selected(rp_id@, ids.skip(i as int)),
            decreases allow_list@.len() - i,
        {
            assert(ids.skip(i as int).skip(1) =~= ids.skip(i + 1));
            assert(ids.skip(i as int)[0] == allow_list@[i as int]@);
            match self.credentials.get(&allow_list[i]) {
                Some(record) => {
                    if text_equal(record.rp_id.as_str(), rp_id) {
                        return Some(&allow_list[i]);
                    }
                },
                None => {},
            }
            i = i + 1;
        }
        None
    }
}

} // verus!
