//! A virtual FIDO2 authenticator over Linux UHID.
//!
//! The authenticator here decides: it takes in what the host sends and says what
//! to answer, or what to ask the user first. Opening the device, reading and
//! writing its events, and asking the user are up to its caller.

use crate::authenticator::{
    AssertionRequest, AssertionRequestView, AuthenticatorError, AuthenticatorErrorView,
    AuthenticatorService, RegistrationRequest, ServiceView,
};
use crate::backend::{CredentialBackend, LocalEd25519Backend};
use crate::bytes::{copy_range, push_all};
use crate::cbor::{DecodeError, DecodeErrorView};
use crate::ctap_hid::{
    command, CtapHidMessage, CtapHidPacket, CtapHidReassembler, MessageView, PacketView, PartialView,
};
use crate::random::random_bytes;
use crate::text::text_equal;
use vstd::prelude::*;
use vstd::string::StringExecFns;

pub mod ctap2_command;
pub mod events;
pub mod laws;
pub mod message_laws;
pub mod presence;
pub mod request_laws;
pub mod requests;
pub mod responses;
pub mod run;
pub mod session;
pub mod u2f;

use events::{input_event, report_of_event, ByteOrder};
use requests::{
    algorithms_of, assertion_request_of, decode_request, rp_id_of, user_id_of, GetAssertionRequest,
    GetAssertionView,
};
use responses::{get_assertion_response, get_info_payload, make_credential_response};
use u2f::{confirmed_u2f_response, handle_u2f_compatibility_message, U2fStep};

verus! {

/// CTAP HID capability bit: authenticator supports CTAP2 CBOR commands.
pub const CTAP_HID_CAPABILITY_CBOR: u8 = 0x04;

/// CTAP HID capability bit: authenticator does not support legacy CTAP1/U2F
/// messages over CTAPHID_MSG.
pub const CTAP_HID_CAPABILITY_NMSG: u8 = 0x08;

/// Firefox/authenticator-rs uses this synthetic RP for CTAP 2.0 device
/// selection because CTAP 2.0 has no authenticatorSelection command.
pub const FIREFOX_SELECTION_RP_ID: &'static str = "make.me.blink";

/// A request that waits for the user's word.
pub enum Pending {
    /// A U2F compatibility registration.
    U2fRegistration { cid: u32 },
    /// Firefox's device selection.
    FirefoxSelection { cid: u32 },
    /// A registration.
    Registration { cid: u32, rp_id: String, user_id: Vec<u8> },
    /// An authentication.
    Authentication { cid: u32, request: GetAssertionRequest },
    /// A device selection.
    Selection { cid: u32 },
}

/// The contents of a [`Pending`].
#[verifier::ext_equal]
pub enum PendingView {
    U2fRegistration { cid: u32 },
    FirefoxSelection { cid: u32 },
    Registration { cid: u32, rp_id: Seq<char>, user_id: Seq<u8> },
    Authentication { cid: u32, request: GetAssertionView },
    Selection { cid: u32 },
}

impl View for Pending {
    type V = PendingView;

    open spec fn view(&self) -> PendingView {
        match self {
            Pending::U2fRegistration { cid } => PendingView::U2fRegistration { cid: *cid },
            Pending::FirefoxSelection { cid } => PendingView::FirefoxSelection { cid: *cid },
            Pending::Registration { cid, rp_id, user_id } => PendingView::Registration {
                cid: *cid,
                rp_id: rp_id@,
                user_id: user_id@,
            },
            Pending::Authentication { cid, request } => PendingView::Authentication {
                cid: *cid,
                request: request@,
            },
            Pending::Selection { cid } => PendingView::Selection { cid: *cid },
        }
    }
}

impl PendingView {
    /// The channel that waits.
    pub open spec fn cid(self) -> u32 {
        match self {
            PendingView::U2fRegistration { cid } => cid,
            PendingView::FirefoxSelection { cid } => cid,
            PendingView::Registration { cid, .. } => cid,
            PendingView::Authentication { cid, .. } => cid,
            PendingView::Selection { cid } => cid,
        }
    }

    /// What the user is asked.
    pub open spec fn prompt(self) -> Seq<char> {
        match self {
            PendingView::U2fRegistration { .. } => "Allow Chromium's compatibility request?"@,
            PendingView::FirefoxSelection { .. } => "Use this authenticator for Firefox?"@,
            PendingView::Registration { .. } => "Register this passkey?"@,
            PendingView::Authentication { .. } => "Authenticate this passkey?"@,
            PendingView::Selection { .. } => "Use this authenticator?"@,
        }
    }
}

impl Pending {
    /// What to ask the user.
    pub fn prompt(&self) -> (prompt: String)
        ensures
            prompt@ == self@.prompt(),
    {
        match self {
            Pending::U2fRegistration { .. } => String::from_str(
                "Allow Chromium's compatibility request?",
            ),
            Pending::FirefoxSelection { .. } => String::from_str(
                "Use this authenticator for Firefox?",
            ),
            Pending::Registration { .. } => String::from_str("Register this passkey?"),
            Pending::Authentication { .. } => String::from_str("Authenticate this passkey?"),
            Pending::Selection { .. } => String::from_str("Use this authenticator?"),
        }
    }
}

/// What to do about something the host sent.
pub enum Action {
    /// Nothing.
    Ignore,
    /// Send this message.
    Send(CtapHidMessage),
    /// Ask the user, and resume with the answer.
    Confirm(Pending),
}

/// The contents of an [`Action`].
#[verifier::ext_equal]
pub enum ActionView {
    Ignore,
    Send(MessageView),
    Confirm(PendingView),
}

impl View for Action {
    type V = ActionView;

    open spec fn view(&self) -> ActionView {
        match self {
            Action::Ignore => ActionView::Ignore,
            Action::Send(message) => ActionView::Send(message@),
            Action::Confirm(pending) => ActionView::Confirm(pending@),
        }
    }
}

/// Why a request could not be answered.
#[derive(Debug)]
pub enum UhidError {
    /// The request is no CBOR.
    Decode(DecodeError),
    /// The authenticator failed.
    Authenticator(AuthenticatorError),
    /// The credential ID does not fit the response.
    CredentialIdTooLong,
}

/// The contents of a [`UhidError`].
#[verifier::ext_equal]
pub enum UhidErrorView {
    Decode(DecodeErrorView),
    Authenticator(AuthenticatorErrorView),
    CredentialIdTooLong,
}

impl View for UhidError {
    type V = UhidErrorView;

    open spec fn view(&self) -> UhidErrorView {
        match self {
            UhidError::Decode(error) => UhidErrorView::Decode(error@),
            UhidError::Authenticator(error) => UhidErrorView::Authenticator(error@),
            UhidError::CredentialIdTooLong => UhidErrorView::CredentialIdTooLong,
        }
    }
}

/// A virtual FIDO2 authenticator over UHID.
pub struct UhidAuthenticator<B: CredentialBackend> {
    reassembler: CtapHidReassembler,
    authenticator: AuthenticatorService<B>,
}

/// The contents of a [`UhidAuthenticator`]: the unfinished messages, by channel,
/// and the credential service.
#[verifier::reject_recursive_types(B)]
pub struct UhidView<B: CredentialBackend> {
    pub channels: Map<u32, PartialView>,
    pub service: ServiceView<B>,
}

impl<B: CredentialBackend> View for UhidAuthenticator<B> {
    type V = UhidView<B>;

    closed spec fn view(&self) -> UhidView<B> {
        UhidView { channels: self.reassembler@, service: self.authenticator@ }
    }
}

/// A message that answers a CBOR request.
pub open spec fn cbor_message(cid: u32, payload: Seq<u8>) -> MessageView {
    MessageView { cid, cmd: command::CBOR, payload }
}

/// A CBOR response that is no more than a status.
pub open spec fn status_message(cid: u32, status: u8) -> MessageView {
    cbor_message(cid, seq![status])
}

/// The answer to CTAPHID_INIT: the nonce, the channel it allocates, the protocol
/// and device versions, and the capabilities.
pub open spec fn init_response(request: MessageView, new_cid: Seq<u8>) -> MessageView {
    MessageView {
        cid: request.cid,
        cmd: command::INIT,
        payload: request.payload.take(8) + new_cid + seq![
            0x02u8,
            0x01u8,
            0x00u8,
            0x00u8,
            CTAP_HID_CAPABILITY_CBOR | CTAP_HID_CAPABILITY_NMSG,
        ],
    }
}

/// What a U2F message calls for.
pub open spec fn u2f_action(message: MessageView) -> ActionView {
    match u2f::u2f_step(message.payload) {
        u2f::U2fStepView::Reply(payload) => ActionView::Send(
            MessageView { cid: message.cid, cmd: command::MSG, payload },
        ),
        u2f::U2fStepView::Confirm => ActionView::Confirm(
            PendingView::U2fRegistration { cid: message.cid },
        ),
    }
}

/// What the parameters of an authenticatorMakeCredential request call for.
/// Firefox's selection is recognized before the algorithms are looked at.
pub open spec fn registration_action(
    cid: u32,
    rp_id: Option<Seq<char>>,
    user_id: Option<Seq<u8>>,
    algorithms: Seq<i64>,
) -> ActionView {
    if rp_id is None || user_id is None {
        ActionView::Send(status_message(cid, responses::CTAP2_STATUS_MISSING_PARAMETER))
    } else if rp_id->0 == FIREFOX_SELECTION_RP_ID@ {
        ActionView::Confirm(PendingView::FirefoxSelection { cid })
    } else if !algorithms.contains(responses::COSE_ALGORITHM_EDDSA) {
        ActionView::Send(status_message(cid, responses::CTAP2_STATUS_UNSUPPORTED_ALGORITHM))
    } else {
        ActionView::Confirm(
            PendingView::Registration { cid, rp_id: rp_id->0, user_id: user_id->0 },
        )
    }
}

/// What an authenticatorMakeCredential request calls for.
pub open spec fn make_credential_action(message: MessageView) -> Result<ActionView, UhidErrorView> {
    match requests::request_item(message.payload) {
        Err(error) => Err(UhidErrorView::Decode(error)),
        Ok(None) => Ok(registration_action(message.cid, None, None, Seq::empty())),
        Ok(Some(item)) => Ok(
            registration_action(
                message.cid,
                requests::requested_rp_id(item),
                requests::requested_user_id(item),
                requests::requested_algorithms(item),
            ),
        ),
    }
}

/// What the authenticator service is asked for an authenticatorGetAssertion
/// request.
pub open spec fn service_request(request: GetAssertionView) -> AssertionRequestView {
    AssertionRequestView {
        rp_id: request.rp_id,
        client_data_hash: request.client_data_hash,
        allow_list: request.allow_list,
        user_present: request.user_presence,
    }
}

impl<B: CredentialBackend> UhidView<B> {
    /// Whether nothing differs from `after`.
    pub open spec fn unchanged(self, after: Self) -> bool {
        &&& after.channels == self.channels
        &&& after.service.backend == self.service.backend
        &&& after.service.records == self.service.records
    }

    /// Whether registering can give `answer` and leave `after`: the attestation
    /// of the new credential, or the service's error.
    pub open spec fn registers(
        self,
        cid: u32,
        rp_id: Seq<char>,
        user_id: Seq<u8>,
        answer: Result<MessageView, UhidErrorView>,
        after: Self,
    ) -> bool {
        &&& after.channels == self.channels
        &&& match answer {
            Ok(message) => exists|registration: crate::authenticator::RegistrationView| {
                &&& #[trigger] self.service.registers(
                    rp_id,
                    user_id,
                    Ok(registration),
                    after.service,
                )
                &&& registration.credential_id.len() <= u16::MAX
                &&& responses::attested_layout(
                    responses::attested_data(
                        rp_id,
                        registration.credential_id,
                        registration.public_key,
                    ),
                    rp_id,
                    registration.credential_id,
                    registration.public_key,
                )
                &&& message == cbor_message(
                    cid,
                    responses::success_payload(
                        responses::attestation_item(
                            rp_id,
                            registration.credential_id,
                            registration.public_key,
                        ),
                    ),
                )
            },
            Err(UhidErrorView::Authenticator(error)) => self.service.registers(
                rp_id,
                user_id,
                Err(error),
                after.service,
            ),
            Err(UhidErrorView::CredentialIdTooLong) => exists|
                registration: crate::authenticator::RegistrationView,
            | {
                &&& #[trigger] self.service.registers(
                    rp_id,
                    user_id,
                    Ok(registration),
                    after.service,
                )
                &&& registration.credential_id.len() > u16::MAX
            },
            Err(UhidErrorView::Decode(_)) => false,
        }
    }

    /// Whether authenticating can give `answer` and leave `after`: the
    /// assertion, or the service's error.
    pub open spec fn authenticates(
        self,
        cid: u32,
        request: GetAssertionView,
        answer: Result<MessageView, UhidErrorView>,
        after: Self,
    ) -> bool {
        &&& after.channels == self.channels
        &&& match answer {
            Ok(message) => exists|assertion: crate::authenticator::AssertionView| {
                &&& #[trigger] self.service.asserts(
                    service_request(request),
                    Ok(assertion),
                    after.service,
                )
                &&& message == cbor_message(
                    cid,
                    responses::success_payload(responses::assertion_item(assertion)),
                )
            },
            Err(UhidErrorView::Authenticator(error)) => self.service.asserts(
                service_request(request),
                Err(error),
                after.service,
            ),
            Err(_) => false,
        }
    }

    /// Whether an authenticatorGetAssertion request can be handled with `result`
    /// and leave `after`. Only a request that does without user presence is
    /// answered at once.
    pub open spec fn handles_get_assertion(
        self,
        message: MessageView,
        result: Result<ActionView, UhidErrorView>,
        after: Self,
    ) -> bool {
        match requests::request_item(message.payload) {
            Err(error) => self.unchanged(after) && result == Err::<ActionView, _>(
                UhidErrorView::Decode(error),
            ),
            Ok(item) => {
                let request = match item {
                    Some(i) => requests::requested_assertion(i),
                    None => None,
                };
                match request {
                    None => self.unchanged(after) && result == Ok::<_, UhidErrorView>(
                        ActionView::Send(
                            status_message(message.cid, responses::CTAP2_STATUS_MISSING_PARAMETER),
                        ),
                    ),
                    Some(r) => {
                        if self.service.selected(r.rp_id, r.allow_list) is None {
                            self.unchanged(after) && result == Ok::<_, UhidErrorView>(
                                ActionView::Send(
                                    status_message(
                                        message.cid,
                                        responses::CTAP2_STATUS_NO_CREDENTIALS,
                                    ),
                                ),
                            )
                        } else if r.user_presence {
                            self.unchanged(after) && result == Ok::<_, UhidErrorView>(
                                ActionView::Confirm(
                                    PendingView::Authentication { cid: message.cid, request: r },
                                ),
                            )
                        } else {
                            match result {
                                Ok(ActionView::Send(answer)) => self.authenticates(
                                    message.cid,
                                    r,
                                    Ok(answer),
                                    after,
                                ),
                                Ok(_) => false,
                                Err(error) => self.authenticates(
                                    message.cid,
                                    r,
                                    Err(error),
                                    after,
                                ),
                            }
                        }
                    },
                }
            },
        }
    }

    /// Whether a CBOR message can be handled with `result` and leave `after`.
    pub open spec fn handles_cbor(
        self,
        message: MessageView,
        result: Result<ActionView, UhidErrorView>,
        after: Self,
    ) -> bool {
        if message.payload.len() > 0 && message.payload[0] == ctap2_command::GET_ASSERTION {
            self.handles_get_assertion(message, result, after)
        } else {
            &&& self.unchanged(after)
            &&& result == (if message.payload.len() == 0 {
                Ok(ActionView::Ignore)
            } else if message.payload[0] == ctap2_command::GET_INFO {
                Ok(
                    ActionView::Send(
                        cbor_message(
                            message.cid,
                            responses::success_payload(responses::get_info_item()),
                        ),
                    ),
                )
            } else if message.payload[0] == ctap2_command::MAKE_CREDENTIAL {
                make_credential_action(message)
            } else if message.payload[0] == ctap2_command::SELECTION {
                Ok(ActionView::Confirm(PendingView::Selection { cid: message.cid }))
            } else {
                Ok(ActionView::Ignore)
            })
        }
    }

    /// Whether a message can be handled with `result` and leave `after`.
    pub open spec fn handles(
        self,
        message: MessageView,
        result: Result<ActionView, UhidErrorView>,
        after: Self,
    ) -> bool {
        if message.cmd == command::PING {
            self.unchanged(after) && result == Ok::<_, UhidErrorView>(ActionView::Send(message))
        } else if message.cmd == command::INIT {
            &&& self.unchanged(after)
            &&& if message.payload.len() < 8 {
                result == Ok::<_, UhidErrorView>(ActionView::Ignore)
            } else {
                exists|new_cid: Seq<u8>|
                    new_cid.len() == 4 && result == Ok::<_, UhidErrorView>(
                        ActionView::Send(#[trigger] init_response(message, new_cid)),
                    )
            }
        } else if message.cmd == command::MSG {
            self.unchanged(after) && result == Ok::<_, UhidErrorView>(u2f_action(message))
        } else if message.cmd == command::CBOR {
            self.handles_cbor(message, result, after)
        } else {
            self.unchanged(after) && result == Ok::<_, UhidErrorView>(ActionView::Ignore)
        }
    }

    /// Whether the user's word on a pending request can be answered with
    /// `answer` and leave `after`.
    pub open spec fn resumes(
        self,
        pending: PendingView,
        confirmed: bool,
        answer: Result<MessageView, UhidErrorView>,
        after: Self,
    ) -> bool {
        match pending {
            PendingView::U2fRegistration { cid } => self.unchanged(after) && answer == Ok::<
                _,
                UhidErrorView,
            >(
                MessageView {
                    cid,
                    cmd: command::MSG,
                    payload: u2f::confirmed_response(confirmed),
                },
            ),
            PendingView::FirefoxSelection { cid } => self.unchanged(after) && answer == Ok::<
                _,
                UhidErrorView,
            >(
                status_message(
                    cid,
                    if confirmed {
                        responses::CTAP2_STATUS_PIN_NOT_SET
                    } else {
                        responses::CTAP2_STATUS_OPERATION_DENIED
                    },
                ),
            ),
            PendingView::Registration { cid, rp_id, user_id } => {
                if confirmed {
                    self.registers(cid, rp_id, user_id, answer, after)
                } else {
                    self.unchanged(after) && answer == Ok::<_, UhidErrorView>(
                        status_message(cid, responses::CTAP2_STATUS_OPERATION_DENIED),
                    )
                }
            },
            PendingView::Authentication { cid, request } => {
                if confirmed {
                    self.authenticates(cid, request, answer, after)
                } else {
                    self.unchanged(after) && answer == Ok::<_, UhidErrorView>(
                        status_message(cid, responses::CTAP2_STATUS_OPERATION_DENIED),
                    )
                }
            },
            PendingView::Selection { cid } => self.unchanged(after) && answer == Ok::<
                _,
                UhidErrorView,
            >(
                status_message(
                    cid,
                    if confirmed {
                        responses::CTAP2_STATUS_OK
                    } else {
                        responses::CTAP2_STATUS_OPERATION_DENIED
                    },
                ),
            ),
        }
    }
}

/// The contents of what handling gives.
pub open spec fn action_view(result: Result<Action, UhidError>) -> Result<
    ActionView,
    UhidErrorView,
> {
    match result {
        Ok(action) => Ok(action@),
        Err(error) => Err(error@),
    }
}

/// The contents of what resuming gives.
pub open spec fn answer_view(answer: Result<CtapHidMessage, UhidError>) -> Result<
    MessageView,
    UhidErrorView,
> {
    match answer {
        Ok(message) => Ok(message@),
        Err(error) => Err(error@),
    }
}

fn cbor_response(cid: u32, payload: Vec<u8>) -> (message: CtapHidMessage)
    ensures
        message@ == cbor_message(cid, payload@),
{
    CtapHidMessage { cid, cmd: command::CBOR, payload }
}

/// A CBOR response that is no more than a status.
pub fn cbor_status(cid: u32, status: u8) -> (message: CtapHidMessage)
    ensures
        message@ == status_message(cid, status),
{
    let mut payload: Vec<u8> = Vec::new();
    payload.push(status);
    assert(payload@ =~= seq![status]);
    cbor_response(cid, payload)
}

/// The answer to CTAPHID_INIT with the channel that it allocates.
pub fn init_message(request: &CtapHidMessage, new_cid: &[u8]) -> (response: CtapHidMessage)
    requires
        request.payload@.len() >= 8,
    ensures
        response@ == init_response(request@, new_cid@),
{
    let mut payload: Vec<u8> = copy_range(&request.payload, 0, 8);
    assert(payload@ =~= request.payload@.take(8));
    push_all(&mut payload, new_cid);
    // Protocol version, then the device's major, minor and build version.
    payload.push(0x02);
    payload.push(0x01);
    payload.push(0x00);
    payload.push(0x00);
    // Only CTAP2 is implemented. Without NMSG, clients assume CTAP1/U2F is also
    // available and send legacy APDU probes that cannot be answered correctly.
    payload.push(CTAP_HID_CAPABILITY_CBOR | CTAP_HID_CAPABILITY_NMSG);
    let response = CtapHidMessage { cid: request.cid, cmd: command::INIT, payload };
    assert(response@.payload =~= init_response(request@, new_cid@).payload);
    response
}

fn offers_eddsa(algorithms: &Vec<i64>) -> (offers: bool)
    ensures
        offers == algorithms@.contains(responses::COSE_ALGORITHM_EDDSA),
{
    let mut i: usize = 0;
    while i < algorithms.len()
        invariant
            i <= algorithms@.len(),
            forall|k: int| 0 <= k < i ==> algorithms@[k] != responses::COSE_ALGORITHM_EDDSA,
        decreases algorithms@.len() - i,
    {
        if algorithms[i] == responses::COSE_ALGORITHM_EDDSA {
            assert(algorithms@[i as int] == responses::COSE_ALGORITHM_EDDSA);
            return true;
        }
        i = i + 1;
    }
    false
}

/// Decides what the parameters of an authenticatorMakeCredential request call
/// for.
pub fn decide_registration(
    cid: u32,
    rp_id: Option<String>,
    user_id: Option<Vec<u8>>,
    algorithms: &Vec<i64>,
) -> (action: Action)
    ensures
        action@ == registration_action(
            cid,
            match rp_id {
                Some(id) => Some(id@),
                None => None,
            },
            match user_id {
                Some(id) => Some(id@),
                None => None,
            },
            algorithms@,
        ),
{
    let rp_id: String = match rp_id {
        Some(rp_id) => rp_id,
        None => return Action::Send(cbor_status(cid, responses::CTAP2_STATUS_MISSING_PARAMETER)),
    };
    let user_id: Vec<u8> = match user_id {
        Some(user_id) => user_id,
        None => return Action::Send(cbor_status(cid, responses::CTAP2_STATUS_MISSING_PARAMETER)),
    };
    // Firefox's authenticator-rs sends a dummy ES256 MakeCredential request to
    // every connected CTAP 2.0 authenticator when the user must choose a device.
    // It considers PIN_NOT_SET after presence a successful selection and then
    // sends the real request. No credential is created for this probe.
    if text_equal(rp_id.as_str(), FIREFOX_SELECTION_RP_ID) {
        return Action::Confirm(Pending::FirefoxSelection { cid });
    }
    if !offers_eddsa(algorithms) {
        return Action::Send(cbor_status(cid, responses::CTAP2_STATUS_UNSUPPORTED_ALGORITHM));
    }
    Action::Confirm(Pending::Registration { cid, rp_id, user_id })
}

fn handle_make_credential(message: &CtapHidMessage) -> (result: Result<Action, UhidError>)
    ensures
        action_view(result) == make_credential_action(message@),
{
    match decode_request(&message.payload) {
        Ok(Some(request)) => Ok(
            decide_registration(
                message.cid,
                rp_id_of(&request),
                user_id_of(&request),
                &algorithms_of(&request),
            ),
        ),
        Ok(None) => Ok(decide_registration(message.cid, None, None, &Vec::new())),
        Err(error) => Err(UhidError::Decode(error)),
    }
}

impl UhidAuthenticator<LocalEd25519Backend> {
    /// An authenticator with local keys and no credentials.
    pub fn new() -> (authenticator: Self)
        ensures
            authenticator@.channels == Map::<u32, PartialView>::empty(),
            authenticator@.service.backend@ == Map::<Seq<u8>, Seq<u8>>::empty(),
            authenticator@.service.records == Map::<
                Seq<u8>,
                crate::authenticator::RecordView,
            >::empty(),
    {
        Self::with_backend(LocalEd25519Backend::default())
    }
}

impl<B: CredentialBackend> UhidAuthenticator<B> {
    /// An authenticator backed by an injected credential implementation. The
    /// UHID and CTAP layers never access private keys.
    pub fn with_backend(backend: B) -> (authenticator: Self)
        ensures
            authenticator@.channels == Map::<u32, PartialView>::empty(),
            authenticator@.service.backend == backend,
            authenticator@.service.records == Map::<
                Seq<u8>,
                crate::authenticator::RecordView,
            >::empty(),
    {
        UhidAuthenticator {
            reassembler: CtapHidReassembler::new(),
            authenticator: AuthenticatorService::new(backend),
        }
    }

    fn register(&mut self, cid: u32, rp_id: &str, user_id: &[u8]) -> (answer: Result<
        CtapHidMessage,
        UhidError,
    >)
        ensures
            old(self)@.registers(cid, rp_id@, user_id@, answer_view(answer), final(self)@),
    {
        let registration = match self.authenticator.register(
            RegistrationRequest { rp_id, user_id },
        ) {
            Ok(registration) => registration,
            Err(error) => return Err(UhidError::Authenticator(error)),
        };
        assert(old(self)@.service.registers(
            rp_id@,
            user_id@,
            Ok(registration@),
            self@.service,
        ));
        match make_credential_response(
            rp_id,
            &registration.credential_id,
            registration.public_key,
        ) {
            Ok(payload) => Ok(cbor_response(cid, payload)),
            Err(_) => Err(UhidError::CredentialIdTooLong),
        }
    }

    fn authenticate(&mut self, cid: u32, request: &GetAssertionRequest) -> (answer: Result<
        CtapHidMessage,
        UhidError,
    >)
        ensures
            old(self)@.authenticates(cid, request@, answer_view(answer), final(self)@),
    {
        let asked = AssertionRequest {
            rp_id: request.rp_id.as_str(),
            client_data_hash: &request.client_data_hash,
            allow_list: request.allow_list.as_slice(),
            user_present: request.user_presence,
        };
        assert(asked@ =~= service_request(request@));
        let assertion = match self.authenticator.get_assertion(asked) {
            Ok(assertion) => assertion,
            Err(error) => return Err(UhidError::Authenticator(error)),
        };
        assert(old(self)@.service.asserts(
            service_request(request@),
            Ok(assertion@),
            self@.service,
        ));
        Ok(cbor_response(cid, get_assertion_response(&assertion)))
    }

    fn handle_get_assertion(&mut self, message: &CtapHidMessage) -> (result: Result<
        Action,
        UhidError,
    >)
        ensures
            old(self)@.handles_get_assertion(message@, action_view(result), final(self)@),
    {
        let item = match decode_request(&message.payload) {
            Ok(Some(item)) => item,
            Ok(None) => return Ok(
                Action::Send(cbor_status(message.cid, responses::CTAP2_STATUS_MISSING_PARAMETER)),
            ),
            Err(error) => return Err(UhidError::Decode(error)),
        };
        let request = match assertion_request_of(&item) {
            Some(request) => request,
            None => return Ok(
                Action::Send(cbor_status(message.cid, responses::CTAP2_STATUS_MISSING_PARAMETER)),
            ),
        };
        assert(crate::authenticator::ids_view(request.allow_list@) =~= request@.allow_list);
        if !self.authenticator.has_matching_credential(
            request.rp_id.as_str(),
            request.allow_list.as_slice(),
        ) {
            return Ok(
                Action::Send(cbor_status(message.cid, responses::CTAP2_STATUS_NO_CREDENTIALS)),
            );
        }
        if request.user_presence {
            return Ok(Action::Confirm(Pending::Authentication { cid: message.cid, request }));
        }
        match self.authenticate(message.cid, &request) {
            Ok(answer) => Ok(Action::Send(answer)),
            Err(error) => Err(error),
        }
    }

    /// Decides what a complete message calls for.
    pub fn handle_message(&mut self, message: CtapHidMessage) -> (result: Result<Action, UhidError>)
        ensures
            old(self)@.handles(message@, action_view(result), final(self)@),
    {
        if message.cmd == command::PING {
            // CTAPHID_WINK has the same code and is answered as a ping.
            return Ok(Action::Send(message));
        }
        if message.cmd == command::INIT {
            if message.payload.len() < 8 {
                return Ok(Action::Ignore);
            }
            let new_cid: Vec<u8> = random_bytes(4);
            return Ok(Action::Send(init_message(&message, &new_cid)));
        }
        if message.cmd == command::MSG {
            // Chromium may still issue U2F compatibility probes after observing
            // NMSG. They are answered so that one probe does not abort discovery
            // of the CTAP2 authenticator.
            return Ok(
                match handle_u2f_compatibility_message(&message.payload) {
                    U2fStep::Reply(payload) => Action::Send(
                        CtapHidMessage { cid: message.cid, cmd: command::MSG, payload },
                    ),
                    U2fStep::Confirm => Action::Confirm(
                        Pending::U2fRegistration { cid: message.cid },
                    ),
                },
            );
        }
        if message.cmd == command::CBOR {
            if message.payload.len() == 0 {
                return Ok(Action::Ignore);
            }
            let ctap_cmd: u8 = message.payload[0];
            if ctap_cmd == ctap2_command::GET_INFO {
                return Ok(Action::Send(cbor_response(message.cid, get_info_payload())));
            }
            if ctap_cmd == ctap2_command::MAKE_CREDENTIAL {
                return handle_make_credential(&message);
            }
            if ctap_cmd == ctap2_command::GET_ASSERTION {
                return self.handle_get_assertion(&message);
            }
            if ctap_cmd == ctap2_command::SELECTION {
                return Ok(Action::Confirm(Pending::Selection { cid: message.cid }));
            }
        }
        Ok(Action::Ignore)
    }

    /// Answers a pending request with the user's word.
    pub fn resume(&mut self, pending: Pending, confirmed: bool) -> (answer: Result<
        CtapHidMessage,
        UhidError,
    >)
        ensures
            old(self)@.resumes(pending@, confirmed, answer_view(answer), final(self)@),
    {
        match pending {
            Pending::U2fRegistration { cid } => Ok(
                CtapHidMessage {
                    cid,
                    cmd: command::MSG,
                    payload: confirmed_u2f_response(confirmed),
                },
            ),
            Pending::FirefoxSelection { cid } => Ok(
                cbor_status(
                    cid,
                    if confirmed {
                        responses::CTAP2_STATUS_PIN_NOT_SET
                    } else {
                        responses::CTAP2_STATUS_OPERATION_DENIED
                    },
                ),
            ),
            Pending::Registration { cid, rp_id, user_id } => {
                if confirmed {
                    self.register(cid, rp_id.as_str(), &user_id)
                } else {
                    Ok(cbor_status(cid, responses::CTAP2_STATUS_OPERATION_DENIED))
                }
            },
            Pending::Authentication { cid, request } => {
                if confirmed {
                    self.authenticate(cid, &request)
                } else {
                    Ok(cbor_status(cid, responses::CTAP2_STATUS_OPERATION_DENIED))
                }
            },
            Pending::Selection { cid } => Ok(
                cbor_status(
                    cid,
                    if confirmed {
                        responses::CTAP2_STATUS_OK
                    } else {
                        responses::CTAP2_STATUS_OPERATION_DENIED
                    },
                ),
            ),
        }
    }
}

impl<B: CredentialBackend> UhidView<B> {
    /// Whether a packet from the host can be handled with `result` and leave
    /// `after`: a packet that completes a message is handled as the message.
    pub open spec fn handles_packet(
        self,
        packet: PacketView,
        result: Result<ActionView, UhidErrorView>,
        after: Self,
    ) -> bool {
        let step = crate::ctap_hid::reassembly_step(self.channels, packet);
        let between = UhidView { channels: step.0, service: self.service };
        match step.1 {
            None => between.unchanged(after) && result == Ok::<_, UhidErrorView>(
                ActionView::Ignore,
            ),
            Some(message) => between.handles(message, result, after),
        }
    }

    /// Whether a report from the host can be handled with `result` and leave
    /// `after`: only a packet matters.
    pub open spec fn handles_report(
        self,
        report: Seq<u8>,
        result: Result<ActionView, UhidErrorView>,
        after: Self,
    ) -> bool {
        match PacketView::parsed(report) {
            None => self.unchanged(after) && result == Ok::<_, UhidErrorView>(ActionView::Ignore),
            Some(packet) => self.handles_packet(packet, result, after),
        }
    }

    /// Whether an event from the device can be handled with `result` and leave
    /// `after`: only a report from the host matters.
    pub open spec fn handles_event(
        self,
        order: ByteOrder,
        event: Seq<u8>,
        result: Result<ActionView, UhidErrorView>,
        after: Self,
    ) -> bool {
        match events::output_report(order, event) {
            None => self.unchanged(after) && result == Ok::<_, UhidErrorView>(ActionView::Ignore),
            Some(report) => self.handles_report(report, result, after),
        }
    }
}

/// The events that carry a message to the host, one for each packet.
pub open spec fn message_events(order: ByteOrder, message: MessageView) -> Seq<Seq<u8>> {
    message.packets().map_values(
        |packet: PacketView|
            events::event(
                order,
                events::UHID_INPUT2,
                events::input_request(order, packet.serialized()),
            ),
    )
}

/// The events that carry a message to the host, one for each packet.
pub fn events_of_message(order: ByteOrder, message: &CtapHidMessage) -> (events: Vec<Vec<u8>>)
    requires
        message.payload@.len() <= crate::ctap_hid::MAX_PAYLOAD_SIZE,
    ensures
        events@.map_values(|event: Vec<u8>| event@) == message_events(order, message@),
{
    let packets: Vec<CtapHidPacket> = message.to_packets();
    let ghost views = packets@.map_values(|p: CtapHidPacket| p@);
    let ghost expected = message_events(order, message@);
    let mut events: Vec<Vec<u8>> = Vec::new();
    let mut i: usize = 0;
    while i < packets.len()
        invariant
            i <= packets@.len(),
            views == packets@.map_values(|p: CtapHidPacket| p@),
            views == message@.packets(),
            expected == message_events(order, message@),
            events@.len() == i,
            forall|k: int| 0 <= k < i ==> (#[trigger] events@[k])@ == expected[k],
        decreases packets@.len() - i,
    {
        assert(views[i as int] == packets@[i as int]@);
        events.push(input_event(order, &packets[i].serialize()));
        i = i + 1;
    }
    assert(events@.map_values(|event: Vec<u8>| event@) =~= expected);
    events
}

impl<B: CredentialBackend> UhidAuthenticator<B> {
    /// Takes in a report from the host.
    pub fn handle_report(&mut self, report: &[u8]) -> (result: Result<Action, UhidError>)
        ensures
            old(self)@.handles_report(report@, action_view(result), final(self)@),
    {
        let packet = match CtapHidPacket::parse(report) {
            Some(packet) => packet,
            None => return Ok(Action::Ignore),
        };
        match self.reassembler.handle_packet(packet) {
            Some(message) => self.handle_message(message),
            None => Ok(Action::Ignore),
        }
    }

    /// Takes in an event that was read from the device.
    pub fn handle_event(&mut self, order: ByteOrder, event: &[u8]) -> (result: Result<
        Action,
        UhidError,
    >)
        ensures
            old(self)@.handles_event(order, event@, action_view(result), final(self)@),
    {
        match report_of_event(order, event) {
            Some(report) => self.handle_report(&report),
            None => Ok(Action::Ignore),
        }
    }
}

} // verus!
