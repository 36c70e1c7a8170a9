//! Answers to the U2F messages that some clients send although the device does
//! not announce them.

use crate::bytes::{copy_bytes, push_all};
use vstd::prelude::*;

verus! {

pub const U2F_APDU_REGISTER: u8 = 0x01;

pub const U2F_APDU_AUTHENTICATE: u8 = 0x02;

pub const U2F_APDU_VERSION: u8 = 0x03;

pub const U2F_REGISTER_P1_USER_PRESENCE: u8 = 0x03;

pub const APDU_SW_NO_ERROR: [u8; 2] = [0x90, 0x00];

pub const APDU_SW_CONDITIONS_NOT_SATISFIED: [u8; 2] = [0x69, 0x85];

pub const APDU_SW_INS_NOT_SUPPORTED: [u8; 2] = [0x6d, 0x00];

pub const APDU_SW_WRONG_DATA: [u8; 2] = [0x6a, 0x80];

pub const U2F_REGISTER_RESPONSE_RESERVED: u8 = 0x05;

/// The version text `U2F_V2`.
pub const U2F_VERSION: [u8; 6] = [0x55, 0x32, 0x46, 0x5f, 0x56, 0x32];

/// The key handle `chrome-presence-probe`.
pub const U2F_DUMMY_KEY_HANDLE: [u8; 21] = [
    0x63, 0x68, 0x72, 0x6f, 0x6d, 0x65, 0x2d, 0x70, 0x72, 0x65, 0x73, 0x65, 0x6e, 0x63, 0x65,
    0x2d, 0x70, 0x72, 0x6f, 0x62, 0x65,
];

pub const U2F_DUMMY_ATTESTATION_CERT_DER: [u8; 5] = [0x30, 0x03, 0x02, 0x01, 0x00];

pub const U2F_DUMMY_SIGNATURE_DER: [u8; 8] = [0x30, 0x06, 0x02, 0x01, 0x01, 0x02, 0x01, 0x01];

/// What a U2F message calls for.
pub enum U2fStep {
    /// This answer.
    Reply(Vec<u8>),
    /// The user's word on a registration.
    Confirm,
}

/// The contents of a [`U2fStep`].
#[verifier::ext_equal]
pub enum U2fStepView {
    Reply(Seq<u8>),
    Confirm,
}

impl View for U2fStep {
    type V = U2fStepView;

    open spec fn view(&self) -> U2fStepView {
        match self {
            U2fStep::Reply(payload) => U2fStepView::Reply(payload@),
            U2fStep::Confirm => U2fStepView::Confirm,
        }
    }
}

/// What a U2F message calls for: its version is told, no key handle is known,
/// and a registration that asks for user presence waits for the user.
pub open spec fn u2f_step(message: Seq<u8>) -> U2fStepView {
    if message.len() > 1 && message[1] == U2F_APDU_VERSION {
        U2fStepView::Reply(U2F_VERSION@ + APDU_SW_NO_ERROR@)
    } else if message.len() > 1 && message[1] == U2F_APDU_AUTHENTICATE {
        U2fStepView::Reply(APDU_SW_WRONG_DATA@)
    } else if message.len() > 2 && message[1] == U2F_APDU_REGISTER && message[2]
        == U2F_REGISTER_P1_USER_PRESENCE {
        U2fStepView::Confirm
    } else {
        U2fStepView::Reply(APDU_SW_INS_NOT_SUPPORTED@)
    }
}

/// The public key of the dummy registration: an uncompressed point marker and
/// filler bytes.
pub open spec fn dummy_public_key() -> Seq<u8> {
    Seq::new(65, |i: int| if i == 0 { 0x04u8 } else { 0x42u8 })
}

/// The answer to a confirmed registration. It registers nothing.
pub open spec fn dummy_register_response() -> Seq<u8> {
    seq![U2F_REGISTER_RESPONSE_RESERVED] + dummy_public_key() + seq![21u8]
        + U2F_DUMMY_KEY_HANDLE@ + U2F_DUMMY_ATTESTATION_CERT_DER@ + U2F_DUMMY_SIGNATURE_DER@
        + APDU_SW_NO_ERROR@
}

/// The answer to the user's word on a registration.
pub open spec fn confirmed_response(confirmed: bool) -> Seq<u8> {
    if confirmed {
        dummy_register_response()
    } else {
        APDU_SW_CONDITIONS_NOT_SATISFIED@
    }
}

/// Decides what a U2F message calls for.
pub fn handle_u2f_compatibility_message(message: &[u8]) -> (step: U2fStep)
    ensures
        step@ == u2f_step(message@),
{
    if message.len() > 1 {
        let instruction: u8 = message[1];
        if instruction == U2F_APDU_VERSION {
            let mut payload: Vec<u8> = copy_bytes(&U2F_VERSION);
            push_all(&mut payload, &APDU_SW_NO_ERROR);
            return U2fStep::Reply(payload);
        }
        if instruction == U2F_APDU_AUTHENTICATE {
            return U2fStep::Reply(copy_bytes(&APDU_SW_WRONG_DATA));
        }
        if instruction == U2F_APDU_REGISTER && message.len() > 2 && message[2]
            == U2F_REGISTER_P1_USER_PRESENCE {
            return U2fStep::Confirm;
        }
    }
    U2fStep::Reply(copy_bytes(&APDU_SW_INS_NOT_SUPPORTED))
}

/// The answer to a confirmed registration. It registers nothing.
pub fn dummy_u2f_register_response() -> (response: Vec<u8>)
    ensures
        response@ == dummy_register_response(),
{
    let mut response: Vec<u8> = Vec::new();
    response.push(U2F_REGISTER_RESPONSE_RESERVED);
    let mut public_key: Vec<u8> = Vec::new();
    public_key.push(0x04);
    let mut filler: Vec<u8> = Vec::new();
    filler.resize(64, 0x42);
    push_all(&mut public_key, &filler);
    assert(public_key@ =~= dummy_public_key());
    push_all(&mut response, &public_key);
    response.push(21);
    push_all(&mut response, &U2F_DUMMY_KEY_HANDLE);
    push_all(&mut response, &U2F_DUMMY_ATTESTATION_CERT_DER);
    push_all(&mut response, &U2F_DUMMY_SIGNATURE_DER);
    push_all(&mut response, &APDU_SW_NO_ERROR);
    assert(response@ =~= dummy_register_response());
    response
}

/// Answers the user's word on a registration.
pub fn confirmed_u2f_response(confirmed: bool) -> (response: Vec<u8>)
    ensures
        response@ == confirmed_response(confirmed),
{
    if confirmed {
        dummy_u2f_register_response()
    } else {
        copy_bytes(&APDU_SW_CONDITIONS_NOT_SATISFIED)
    }
}

} // verus!
