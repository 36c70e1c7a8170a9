use ciborium::Value;
use ed25519_dalek::{Signature, Verifier, VerifyingKey};
use passkeys::authenticator::AuthenticatorError;
use passkeys::backend::{BackendError, FrostBackend, LocalEd25519Backend};
use passkeys::cbor::{decode, encode, Cbor, DecodeError};
use passkeys::ctap_hid::{command, CtapHidMessage, CtapHidPacket, CtapHidReassembler};
use passkeys::linux_uhid::ctap2_command;
use passkeys::linux_uhid::events::{
    create_event, input_event, report_of_event, ByteOrder, FIDO_REPORT_DESC, UHID_EVENT_SIZE,
};
use passkeys::linux_uhid::presence::understand_answer;
use passkeys::linux_uhid::requests::{
    credential_descriptor_id, make_credential_algorithms, make_credential_rp_id,
    make_credential_user_id, parse_get_assertion_request, CTAP2_GET_ASSERTION_ALLOW_LIST,
    CTAP2_GET_ASSERTION_CLIENT_DATA_HASH, CTAP2_GET_ASSERTION_OPTIONS, CTAP2_GET_ASSERTION_RP_ID,
    CTAP2_MAKE_CREDENTIAL_PUB_KEY_CRED_PARAMS, CTAP2_MAKE_CREDENTIAL_RP,
    CTAP2_MAKE_CREDENTIAL_USER,
};
use passkeys::linux_uhid::responses::{
    get_info_payload, make_credential_response, CredentialIdTooLong, COSE_ALGORITHM_EDDSA,
    COSE_CURVE_ED25519, COSE_KEY_ALGORITHM, COSE_KEY_CURVE, COSE_KEY_TYPE, COSE_KEY_TYPE_OKP,
    COSE_KEY_X_COORDINATE, CTAP2_MAKE_CREDENTIAL_RESPONSE_ATT_STMT,
    CTAP2_MAKE_CREDENTIAL_RESPONSE_AUTH_DATA, CTAP2_MAKE_CREDENTIAL_RESPONSE_FMT,
    CTAP2_STATUS_OK, CTAP2_STATUS_PIN_NOT_SET,
};
use passkeys::linux_uhid::session::{Happening, NextStep, Session};
use passkeys::linux_uhid::u2f::{
    dummy_u2f_register_response, APDU_SW_NO_ERROR, U2F_REGISTER_RESPONSE_RESERVED,
};
use passkeys::linux_uhid::{
    events_of_message, init_message, Action, Pending, UhidAuthenticator, UhidError,
    CTAP_HID_CAPABILITY_CBOR, CTAP_HID_CAPABILITY_NMSG, FIREFOX_SELECTION_RP_ID,
};
use sha2::{Digest, Sha256};

fn map_value<'a>(map: &'a [(Value, Value)], key: i64) -> &'a Value {
    map.iter()
        .find_map(|(candidate, value)| (candidate == &Value::Integer(key.into())).then_some(value))
        .expect("GetInfo key should be present")
}

fn entries_of(payload: &[u8]) -> Vec<(Value, Value)> {
    match ciborium::from_reader(payload).expect("CBOR should decode") {
        Value::Map(entries) => entries,
        _ => panic!("the item should be a map"),
    }
}

fn cbor_message(cid: u32, command_byte: u8, request: &Value) -> CtapHidMessage {
    let mut payload = vec![command_byte];
    ciborium::into_writer(request, &mut payload).expect("request should encode");
    CtapHidMessage {
        cid,
        cmd: command::CBOR,
        payload,
    }
}

fn registration_request(rp_id: &str, algorithm: i64) -> Value {
    Value::Map(vec![
        (
            Value::Integer(CTAP2_MAKE_CREDENTIAL_RP.into()),
            Value::Map(vec![(Value::Text("id".into()), Value::Text(rp_id.into()))]),
        ),
        (
            Value::Integer(CTAP2_MAKE_CREDENTIAL_USER.into()),
            Value::Map(vec![(
                Value::Text("id".into()),
                Value::Bytes(b"user-id".to_vec()),
            )]),
        ),
        (
            Value::Integer(CTAP2_MAKE_CREDENTIAL_PUB_KEY_CRED_PARAMS.into()),
            Value::Array(vec![Value::Map(vec![(
                Value::Text("alg".into()),
                Value::Integer(algorithm.into()),
            )])]),
        ),
    ])
}

fn assertion_request(rp_id: &str, id: &[u8], up: Option<bool>) -> Value {
    let mut entries = vec![
        (
            Value::Integer(CTAP2_GET_ASSERTION_RP_ID.into()),
            Value::Text(rp_id.into()),
        ),
        (
            Value::Integer(CTAP2_GET_ASSERTION_CLIENT_DATA_HASH.into()),
            Value::Bytes(vec![0xa5; 32]),
        ),
        (
            Value::Integer(CTAP2_GET_ASSERTION_ALLOW_LIST.into()),
            Value::Array(vec![Value::Map(vec![(
                Value::Text("id".into()),
                Value::Bytes(id.to_vec()),
            )])]),
        ),
    ];
    if let Some(up) = up {
        entries.push((
            Value::Integer(CTAP2_GET_ASSERTION_OPTIONS.into()),
            Value::Map(vec![(Value::Text("up".into()), Value::Bool(up))]),
        ));
    }
    Value::Map(entries)
}

fn sent(action: Result<Action, UhidError>) -> CtapHidMessage {
    match action {
        Ok(Action::Send(message)) => message,
        _ => panic!("a message should be sent"),
    }
}

fn asked(action: Result<Action, UhidError>) -> Pending {
    match action {
        Ok(Action::Confirm(pending)) => pending,
        _ => panic!("the user should be asked"),
    }
}

fn ignored(action: Result<Action, UhidError>) -> bool {
    matches!(action, Ok(Action::Ignore))
}

/// Registers a passkey and gives its credential ID and public key.
fn register(authenticator: &mut UhidAuthenticator<LocalEd25519Backend>) -> (Vec<u8>, [u8; 32]) {
    let request = registration_request("example.com", COSE_ALGORITHM_EDDSA);
    let pending = asked(authenticator.handle_message(cbor_message(
        7,
        ctap2_command::MAKE_CREDENTIAL,
        &request,
    )));
    assert_eq!(pending.prompt(), "Register this passkey?");
    let answer = authenticator.resume(pending, true).unwrap();
    assert_eq!(answer.cid, 7);
    assert_eq!(answer.cmd, command::CBOR);
    assert_eq!(answer.payload[0], CTAP2_STATUS_OK);
    let response = entries_of(&answer.payload[1..]);
    let Value::Bytes(auth_data) = map_value(&response, CTAP2_MAKE_CREDENTIAL_RESPONSE_AUTH_DATA)
    else {
        panic!("authData should be a byte string");
    };
    let cose_key = entries_of(&auth_data[87..]);
    let Value::Bytes(key) = map_value(&cose_key, COSE_KEY_X_COORDINATE) else {
        panic!("the key should be a byte string");
    };
    (
        auth_data[55..87].to_vec(),
        key.as_slice().try_into().unwrap(),
    )
}

fn check_assertion(answer: &CtapHidMessage, id: &[u8], key: &[u8; 32], flags: u8, count: u32) {
    assert_eq!(answer.cmd, command::CBOR);
    assert_eq!(answer.payload[0], CTAP2_STATUS_OK);
    let response = entries_of(&answer.payload[1..]);
    assert_eq!(
        map_value(&response, 1),
        &Value::Map(vec![
            (Value::Text("id".into()), Value::Bytes(id.to_vec())),
            (Value::Text("type".into()), Value::Text("public-key".into())),
        ])
    );
    let (Value::Bytes(auth_data), Value::Bytes(signature)) =
        (map_value(&response, 2), map_value(&response, 3))
    else {
        panic!("data and signature should be byte strings");
    };
    assert_eq!(auth_data[32], flags);
    assert_eq!(auth_data[33..], count.to_be_bytes());
    let mut signed = auth_data.clone();
    signed.extend_from_slice(&[0xa5; 32]);
    VerifyingKey::from_bytes(key)
        .unwrap()
        .verify(
            &signed,
            &Signature::from_bytes(signature.as_slice().try_into().unwrap()),
        )
        .unwrap();
}

#[test]
fn get_info_omits_optional_algorithm_prefilter() {
    let payload = get_info_payload();
    assert_eq!(payload[0], CTAP2_STATUS_OK);

    let value: Value = ciborium::from_reader(&payload[1..]).expect("GetInfo CBOR should decode");
    let Value::Map(map) = value else {
        panic!("GetInfo response should be a map");
    };
    assert_eq!(map.len(), 3);
    assert!(map.iter().all(|(key, _)| key != &Value::Integer(10.into())));
}

#[test]
fn get_info_tells_version_aaguid_and_options() {
    let map = entries_of(&get_info_payload()[1..]);
    assert_eq!(
        map_value(&map, 1),
        &Value::Array(vec![Value::Text("FIDO_2_0".into())])
    );
    assert_eq!(map_value(&map, 3), &Value::Bytes(vec![0; 16]));
    assert_eq!(
        map_value(&map, 4),
        &Value::Map(vec![
            (Value::Text("rk".into()), Value::Bool(false)),
            (Value::Text("up".into()), Value::Bool(true)),
        ])
    );
}

#[test]
fn parses_make_credential_algorithm_list() {
    let request = Value::Map(vec![(
        Value::Integer(CTAP2_MAKE_CREDENTIAL_PUB_KEY_CRED_PARAMS.into()),
        Value::Array(vec![
            Value::Map(vec![
                (Value::Text("type".into()), Value::Text("public-key".into())),
                (Value::Text("alg".into()), Value::Integer((-7).into())),
            ]),
            Value::Map(vec![
                (Value::Text("type".into()), Value::Text("public-key".into())),
                (
                    Value::Text("alg".into()),
                    Value::Integer(COSE_ALGORITHM_EDDSA.into()),
                ),
            ]),
        ]),
    )]);
    let mut payload = vec![ctap2_command::MAKE_CREDENTIAL];
    ciborium::into_writer(&request, &mut payload).expect("request should encode");

    let algorithms = make_credential_algorithms(&payload).expect("algorithm list should parse");
    assert_eq!(algorithms, vec![-7, COSE_ALGORITHM_EDDSA]);
}

#[test]
fn parses_make_credential_user_id() {
    let request = Value::Map(vec![(
        Value::Integer(CTAP2_MAKE_CREDENTIAL_USER.into()),
        Value::Map(vec![(
            Value::Text("id".into()),
            Value::Bytes(b"user-id".to_vec()),
        )]),
    )]);
    let mut payload = vec![ctap2_command::MAKE_CREDENTIAL];
    ciborium::into_writer(&request, &mut payload).expect("request should encode");

    assert_eq!(
        make_credential_user_id(&payload)
            .expect("user should parse")
            .as_deref(),
        Some(b"user-id".as_slice())
    );
}

#[test]
fn recognizes_firefox_device_selection_request_before_algorithm_filtering() {
    let request = Value::Map(vec![
        (
            Value::Integer(CTAP2_MAKE_CREDENTIAL_RP.into()),
            Value::Map(vec![(
                Value::Text("id".into()),
                Value::Text(FIREFOX_SELECTION_RP_ID.into()),
            )]),
        ),
        (
            Value::Integer(CTAP2_MAKE_CREDENTIAL_PUB_KEY_CRED_PARAMS.into()),
            Value::Array(vec![Value::Map(vec![(
                Value::Text("alg".into()),
                Value::Integer((-7).into()),
            )])]),
        ),
    ]);
    let mut payload = vec![ctap2_command::MAKE_CREDENTIAL];
    ciborium::into_writer(&request, &mut payload).expect("request should encode");

    assert_eq!(
        make_credential_rp_id(&payload)
            .expect("RP should parse")
            .as_deref(),
        Some(FIREFOX_SELECTION_RP_ID)
    );
    assert_eq!(
        make_credential_algorithms(&payload).expect("algorithms should parse"),
        vec![-7]
    );
    assert_eq!(CTAP2_STATUS_PIN_NOT_SET, 0x35);
}

#[test]
fn make_credential_response_contains_valid_ed25519_attested_data() {
    let credential_id = [0x5a; 32];
    let public_key = [0xa5; 32];
    let payload = make_credential_response("example.com", &credential_id, public_key)
        .expect("response should encode");
    assert_eq!(payload[0], CTAP2_STATUS_OK);

    let response: Value =
        ciborium::from_reader(&payload[1..]).expect("response CBOR should decode");
    let Value::Map(response) = response else {
        panic!("response should be a map");
    };
    assert_eq!(
        map_value(&response, CTAP2_MAKE_CREDENTIAL_RESPONSE_FMT),
        &Value::Text("none".into())
    );
    assert_eq!(
        map_value(&response, CTAP2_MAKE_CREDENTIAL_RESPONSE_ATT_STMT),
        &Value::Map(vec![])
    );

    let Value::Bytes(auth_data) = map_value(&response, CTAP2_MAKE_CREDENTIAL_RESPONSE_AUTH_DATA)
    else {
        panic!("authData should be a byte string");
    };
    assert_eq!(&auth_data[..32], Sha256::digest(b"example.com").as_slice());
    assert_eq!(auth_data[32], 0x41);
    assert_eq!(&auth_data[33..37], &[0; 4]);
    assert_eq!(&auth_data[37..53], &[0; 16]);
    assert_eq!(u16::from_be_bytes([auth_data[53], auth_data[54]]), 32);
    assert_eq!(&auth_data[55..87], &credential_id);

    let cose_key: Value =
        ciborium::from_reader(&auth_data[87..]).expect("COSE key should decode");
    let Value::Map(cose_key) = cose_key else {
        panic!("COSE key should be a map");
    };
    assert_eq!(
        map_value(&cose_key, COSE_KEY_TYPE),
        &Value::Integer(COSE_KEY_TYPE_OKP.into())
    );
    assert_eq!(
        map_value(&cose_key, COSE_KEY_ALGORITHM),
        &Value::Integer(COSE_ALGORITHM_EDDSA.into())
    );
    assert_eq!(
        map_value(&cose_key, COSE_KEY_CURVE),
        &Value::Integer(COSE_CURVE_ED25519.into())
    );
    assert_eq!(
        map_value(&cose_key, COSE_KEY_X_COORDINATE),
        &Value::Bytes(public_key.to_vec())
    );
}

#[test]
fn long_credential_ids_are_refused() {
    assert_eq!(
        make_credential_response("example.com", &vec![1; 65536], [0; 32]),
        Err(CredentialIdTooLong)
    );
    assert!(make_credential_response("example.com", &vec![1; 65535], [0; 32]).is_ok());
}

#[test]
fn parses_get_assertion_allow_list_and_silent_probe() {
    let credential_id = vec![0x5a; 32];
    let request = Value::Map(vec![
        (
            Value::Integer(CTAP2_GET_ASSERTION_RP_ID.into()),
            Value::Text("example.com".into()),
        ),
        (
            Value::Integer(CTAP2_GET_ASSERTION_CLIENT_DATA_HASH.into()),
            Value::Bytes(vec![0xa5; 32]),
        ),
        (
            Value::Integer(CTAP2_GET_ASSERTION_ALLOW_LIST.into()),
            Value::Array(vec![Value::Map(vec![
                (
                    Value::Text("id".into()),
                    Value::Bytes(credential_id.clone()),
                ),
                (Value::Text("type".into()), Value::Text("public-key".into())),
            ])]),
        ),
        (
            Value::Integer(CTAP2_GET_ASSERTION_OPTIONS.into()),
            Value::Map(vec![(Value::Text("up".into()), Value::Bool(false))]),
        ),
    ]);
    let mut payload = vec![ctap2_command::GET_ASSERTION];
    ciborium::into_writer(&request, &mut payload).expect("request should encode");

    let parsed = parse_get_assertion_request(&payload)
        .expect("request should parse")
        .expect("required parameters should be present");
    assert_eq!(parsed.rp_id, "example.com");
    assert_eq!(parsed.client_data_hash, [0xa5; 32]);
    assert_eq!(parsed.allow_list, vec![credential_id]);
    assert!(!parsed.user_presence);
}

#[test]
fn odd_make_credential_parameters() {
    let rp = |fields: Value| {
        let request = Value::Map(vec![
            (Value::Integer(9.into()), Value::Null),
            (Value::Integer(CTAP2_MAKE_CREDENTIAL_RP.into()), fields),
            (
                Value::Integer(CTAP2_MAKE_CREDENTIAL_RP.into()),
                Value::Map(vec![(Value::Text("id".into()), Value::Text("late".into()))]),
            ),
        ]);
        let message = cbor_message(1, ctap2_command::MAKE_CREDENTIAL, &request);
        make_credential_rp_id(&message.payload).unwrap()
    };
    assert_eq!(rp(Value::Bool(true)), None);
    assert_eq!(
        rp(Value::Map(vec![(
            Value::Text("id".into()),
            Value::Integer(1.into())
        )])),
        None
    );
    assert_eq!(rp(Value::Map(vec![])).as_deref(), Some("late"));

    let user = cbor_message(
        1,
        ctap2_command::MAKE_CREDENTIAL,
        &Value::Map(vec![(
            Value::Integer(CTAP2_MAKE_CREDENTIAL_USER.into()),
            Value::Map(vec![
                (Value::Text("id".into()), Value::Text("no bytes".into())),
                (Value::Text("id".into()), Value::Bytes(vec![3])),
            ]),
        )]),
    );
    assert_eq!(make_credential_user_id(&user.payload).unwrap(), Some(vec![3]));

    let algorithms = cbor_message(
        1,
        ctap2_command::MAKE_CREDENTIAL,
        &Value::Map(vec![(
            Value::Integer(CTAP2_MAKE_CREDENTIAL_PUB_KEY_CRED_PARAMS.into()),
            Value::Array(vec![
                Value::Bool(false),
                Value::Map(vec![(
                    Value::Text("alg".into()),
                    Value::Integer(u64::MAX.into()),
                )]),
                Value::Map(vec![
                    (Value::Text("alg".into()), Value::Text("none".into())),
                    (Value::Text("alg".into()), Value::Integer((-257).into())),
                ]),
            ]),
        )]),
    );
    assert_eq!(
        make_credential_algorithms(&algorithms.payload).unwrap(),
        vec![-257]
    );
}

#[test]
fn odd_get_assertion_parameters() {
    let parse = |entries: Vec<(Value, Value)>| {
        let message = cbor_message(1, ctap2_command::GET_ASSERTION, &Value::Map(entries));
        parse_get_assertion_request(&message.payload).unwrap()
    };
    let rp = |text: &str| (Value::Integer(1.into()), Value::Text(text.into()));
    let hash = |len: usize| (Value::Integer(2.into()), Value::Bytes(vec![7; len]));
    assert!(parse(vec![rp("a")]).is_none());
    assert!(parse(vec![hash(32)]).is_none());
    assert!(parse(vec![rp("a"), hash(31)]).is_none());
    assert!(parse(vec![rp("a"), hash(32), hash(33)]).is_none());
    let parsed = parse(vec![
        rp("a"),
        (Value::Integer(1.into()), Value::Null),
        hash(1),
        hash(32),
        rp("b"),
    ])
    .unwrap();
    assert_eq!(parsed.rp_id, "b");
    assert!(parsed.allow_list.is_empty());
    assert!(parsed.user_presence);
    assert!(parse_get_assertion_request(&[2]).unwrap().is_none());
    assert!(parse_get_assertion_request(&[2, 0x01]).unwrap().is_none());
    assert!(matches!(
        parse_get_assertion_request(&[2, 0xa1, 0x01]),
        Err(DecodeError::Io)
    ));
}

#[test]
fn unknown_parameters_do_not_matter() {
    let Value::Map(mut entries) = assertion_request("example.com", &[4, 5], Some(false)) else {
        panic!("the request should be a map");
    };
    for (at, key) in [(0, Value::Integer(4.into())), (3, Value::Text("up".into()))] {
        entries.insert(at, (key, Value::Bool(true)));
    }
    let message = cbor_message(1, ctap2_command::GET_ASSERTION, &Value::Map(entries));
    let parsed = parse_get_assertion_request(&message.payload).unwrap().unwrap();
    assert_eq!(parsed.rp_id, "example.com");
    assert_eq!(parsed.allow_list, vec![vec![4, 5]]);
    assert!(!parsed.user_presence);

    let Value::Map(mut entries) = registration_request("example.com", -8) else {
        panic!("the request should be a map");
    };
    entries.insert(1, (Value::Integer(1.into()), Value::Bytes(vec![0; 32])));
    let message = cbor_message(1, ctap2_command::MAKE_CREDENTIAL, &Value::Map(entries));
    assert_eq!(
        make_credential_rp_id(&message.payload).unwrap().as_deref(),
        Some("example.com")
    );
    assert_eq!(
        make_credential_user_id(&message.payload).unwrap(),
        Some(b"user-id".to_vec())
    );
    assert_eq!(make_credential_algorithms(&message.payload).unwrap(), vec![-8]);
}

#[test]
fn passkeys_are_kept() {
    let mut authenticator = UhidAuthenticator::new();
    let (id, key) = register(&mut authenticator);
    let (other_id, other_key) = register(&mut authenticator);
    assert_ne!(id, other_id);
    for count in 1..4 {
        for (id, key) in [(&id, &key), (&other_id, &other_key)] {
            let request = assertion_request("example.com", id, Some(true));
            let message = cbor_message(8, ctap2_command::GET_ASSERTION, &request);
            let pending = asked(authenticator.handle_message(message));
            let answer = authenticator.resume(pending, true).unwrap();
            check_assertion(&answer, id, key, 1, count);
        }
        register(&mut authenticator);
    }
}

#[test]
fn descriptors_without_bytes_have_no_id() {
    let text = |t: &str| Cbor::Text(t.to_string());
    assert_eq!(credential_descriptor_id(&Cbor::Bool(true)), None);
    assert_eq!(
        credential_descriptor_id(&Cbor::Entries(vec![(text("id"), text("x"))])),
        None
    );
    assert_eq!(
        credential_descriptor_id(&Cbor::Entries(vec![
            (text("type"), Cbor::Bytes(vec![0])),
            (text("id"), Cbor::Bytes(vec![1, 2])),
        ])),
        Some(vec![1, 2])
    );
}

#[test]
fn advertised_hid_capabilities_are_cbor_without_msg() {
    let capabilities = CTAP_HID_CAPABILITY_CBOR | CTAP_HID_CAPABILITY_NMSG;
    assert_eq!(capabilities, 0x0c);
    assert_ne!(capabilities & CTAP_HID_CAPABILITY_CBOR, 0);
    assert_ne!(capabilities & CTAP_HID_CAPABILITY_NMSG, 0);
}

#[test]
fn dummy_u2f_compatibility_response_has_success_status() {
    let response = dummy_u2f_register_response();
    assert_eq!(response[0], U2F_REGISTER_RESPONSE_RESERVED);
    assert_eq!(&response[response.len() - 2..], &APDU_SW_NO_ERROR);
}

#[test]
fn dummy_u2f_compatibility_response_layout() {
    let response = dummy_u2f_register_response();
    assert_eq!(response.len(), 1 + 65 + 1 + 21 + 5 + 8 + 2);
    assert_eq!(response[1], 0x04);
    assert!(response[2..66].iter().all(|byte| *byte == 0x42));
    assert_eq!(response[66], 21);
    assert_eq!(&response[67..88], b"chrome-presence-probe");
}

#[test]
fn pings_are_echoed() {
    let mut authenticator = UhidAuthenticator::new();
    let ping = CtapHidMessage {
        cid: 3,
        cmd: command::PING,
        payload: vec![1, 2, 3],
    };
    assert_eq!(sent(authenticator.handle_message(ping.clone())), ping);
}

#[test]
fn init_answers_with_the_nonce_a_channel_and_capabilities() {
    let mut authenticator = UhidAuthenticator::new();
    let init = CtapHidMessage {
        cid: 0xffffffff,
        cmd: command::INIT,
        payload: vec![1, 2, 3, 4, 5, 6, 7, 8],
    };
    let answer = sent(authenticator.handle_message(init.clone()));
    assert_eq!(answer.cid, 0xffffffff);
    assert_eq!(answer.cmd, command::INIT);
    assert_eq!(answer.payload.len(), 17);
    assert_eq!(answer.payload[..8], [1, 2, 3, 4, 5, 6, 7, 8]);
    assert_eq!(answer.payload[12..], [0x02, 0x01, 0x00, 0x00, 0x0c]);
    assert_eq!(
        init_message(&init, &[9, 8, 7, 6]).payload,
        vec![1, 2, 3, 4, 5, 6, 7, 8, 9, 8, 7, 6, 2, 1, 0, 0, 0x0c]
    );
    let again = sent(authenticator.handle_message(init.clone()));
    let third = sent(authenticator.handle_message(init));
    assert!(again.payload != answer.payload || third.payload != answer.payload);
    assert!(ignored(authenticator.handle_message(CtapHidMessage {
        cid: 1,
        cmd: command::INIT,
        payload: vec![0; 7],
    })));
}

#[test]
fn u2f_probes_are_answered() {
    let mut authenticator = UhidAuthenticator::new();
    let msg = |payload: &[u8]| CtapHidMessage {
        cid: 5,
        cmd: command::MSG,
        payload: payload.to_vec(),
    };
    assert_eq!(
        sent(authenticator.handle_message(msg(&[0, 3]))),
        msg(b"U2F_V2\x90\x00")
    );
    assert_eq!(
        sent(authenticator.handle_message(msg(&[0, 2, 3]))),
        msg(&[0x6a, 0x80])
    );
    assert_eq!(
        sent(authenticator.handle_message(msg(&[0, 1, 0]))),
        msg(&[0x6d, 0x00])
    );
    assert_eq!(
        sent(authenticator.handle_message(msg(&[]))),
        msg(&[0x6d, 0x00])
    );
    let pending = asked(authenticator.handle_message(msg(&[0, 1, 3])));
    assert_eq!(pending.prompt(), "Allow Chromium's compatibility request?");
    assert_eq!(
        authenticator.resume(pending, false).unwrap(),
        msg(&[0x69, 0x85])
    );
    let pending = asked(authenticator.handle_message(msg(&[0, 1, 3])));
    assert_eq!(
        authenticator.resume(pending, true).unwrap(),
        msg(&dummy_u2f_register_response())
    );
}

#[test]
fn unknown_commands_are_ignored() {
    let mut authenticator = UhidAuthenticator::new();
    let send = |cmd: u8, payload: &[u8]| CtapHidMessage {
        cid: 1,
        cmd,
        payload: payload.to_vec(),
    };
    assert!(ignored(authenticator.handle_message(send(command::CANCEL, &[]))));
    assert!(ignored(authenticator.handle_message(send(command::CBOR, &[]))));
    assert!(ignored(authenticator.handle_message(send(command::CBOR, &[0x06]))));
    assert!(ignored(authenticator.handle_message(send(command::CBOR, &[0x77]))));
    assert_eq!(
        sent(authenticator.handle_message(send(command::CBOR, &[0x04]))).payload,
        get_info_payload()
    );
}

#[test]
fn selection_waits_for_the_user() {
    let mut authenticator = UhidAuthenticator::new();
    for (confirmed, status) in [(true, 0x00), (false, 0x27)] {
        let pending = asked(authenticator.handle_message(CtapHidMessage {
            cid: 2,
            cmd: command::CBOR,
            payload: vec![ctap2_command::SELECTION],
        }));
        assert_eq!(pending.prompt(), "Use this authenticator?");
        assert_eq!(
            authenticator.resume(pending, confirmed).unwrap(),
            CtapHidMessage {
                cid: 2,
                cmd: command::CBOR,
                payload: vec![status],
            }
        );
    }
}

#[test]
fn firefox_selection_creates_no_credential() {
    let mut authenticator = UhidAuthenticator::new();
    let request = registration_request(FIREFOX_SELECTION_RP_ID, -7);
    for (confirmed, status) in [(true, 0x35), (false, 0x27)] {
        let pending = asked(authenticator.handle_message(cbor_message(
            4,
            ctap2_command::MAKE_CREDENTIAL,
            &request,
        )));
        assert_eq!(pending.prompt(), "Use this authenticator for Firefox?");
        let answer = authenticator.resume(pending, confirmed).unwrap();
        assert_eq!(answer.payload, vec![status]);
    }
}

#[test]
fn incomplete_or_unsupported_registrations_are_refused() {
    let mut authenticator = UhidAuthenticator::new();
    let make = |request: &Value| cbor_message(4, ctap2_command::MAKE_CREDENTIAL, request);
    let es256 = registration_request("example.com", -7);
    assert_eq!(
        sent(authenticator.handle_message(make(&es256))).payload,
        vec![0x26]
    );
    assert_eq!(
        sent(authenticator.handle_message(make(&Value::Map(vec![])))).payload,
        vec![0x14]
    );
    let Value::Map(mut entries) = registration_request("example.com", -8) else {
        panic!("the request should be a map");
    };
    entries.remove(1);
    assert_eq!(
        sent(authenticator.handle_message(make(&Value::Map(entries)))).payload,
        vec![0x14]
    );
    assert!(matches!(
        authenticator.handle_message(CtapHidMessage {
            cid: 4,
            cmd: command::CBOR,
            payload: vec![ctap2_command::MAKE_CREDENTIAL, 0xff],
        }),
        Err(UhidError::Decode(_))
    ));
    assert_eq!(
        sent(authenticator.handle_message(CtapHidMessage {
            cid: 4,
            cmd: command::CBOR,
            payload: vec![ctap2_command::MAKE_CREDENTIAL],
        }))
        .payload,
        vec![0x14]
    );
}

#[test]
fn registered_passkeys_authenticate() {
    let mut authenticator = UhidAuthenticator::new();
    let (id, key) = register(&mut authenticator);
    let request = assertion_request("example.com", &id, None);
    let pending = asked(authenticator.handle_message(cbor_message(
        8,
        ctap2_command::GET_ASSERTION,
        &request,
    )));
    assert_eq!(pending.prompt(), "Authenticate this passkey?");
    let answer = authenticator.resume(pending, true).unwrap();
    assert_eq!(answer.cid, 8);
    check_assertion(&answer, &id, &key, 1, 1);
}

#[test]
fn denied_requests_change_nothing() {
    let mut authenticator = UhidAuthenticator::new();
    let (id, key) = register(&mut authenticator);
    let request = assertion_request("example.com", &id, Some(true));
    let message = || cbor_message(8, ctap2_command::GET_ASSERTION, &request);
    let pending = asked(authenticator.handle_message(message()));
    assert_eq!(
        authenticator.resume(pending, false).unwrap().payload,
        vec![0x27]
    );
    let pending = asked(authenticator.handle_message(message()));
    check_assertion(&authenticator.resume(pending, true).unwrap(), &id, &key, 1, 1);

    let registration = registration_request("example.com", -8);
    let pending = asked(authenticator.handle_message(cbor_message(
        8,
        ctap2_command::MAKE_CREDENTIAL,
        &registration,
    )));
    assert_eq!(
        authenticator.resume(pending, false).unwrap().payload,
        vec![0x27]
    );
}

#[test]
fn silent_requests_are_answered_at_once() {
    let mut authenticator = UhidAuthenticator::new();
    let (id, key) = register(&mut authenticator);
    let request = assertion_request("example.com", &id, Some(false));
    let message = cbor_message(8, ctap2_command::GET_ASSERTION, &request);
    let first = sent(authenticator.handle_message(message.clone()));
    check_assertion(&first, &id, &key, 0, 1);
    let second = sent(authenticator.handle_message(message));
    check_assertion(&second, &id, &key, 0, 2);
}

#[test]
fn requests_without_a_credential_are_told_so() {
    let mut authenticator = UhidAuthenticator::new();
    let (id, _) = register(&mut authenticator);
    for request in [
        assertion_request("other.example", &id, None),
        assertion_request("example.com", &[1, 2, 3], None),
    ] {
        let message = cbor_message(8, ctap2_command::GET_ASSERTION, &request);
        assert_eq!(
            sent(authenticator.handle_message(message)).payload,
            vec![0x2e]
        );
    }
    let missing = cbor_message(8, ctap2_command::GET_ASSERTION, &Value::Map(vec![]));
    assert_eq!(
        sent(authenticator.handle_message(missing)).payload,
        vec![0x14]
    );
    assert!(matches!(
        authenticator.handle_message(CtapHidMessage {
            cid: 8,
            cmd: command::CBOR,
            payload: vec![ctap2_command::GET_ASSERTION, 0x5a],
        }),
        Err(UhidError::Decode(DecodeError::Io))
    ));
}

#[test]
fn shared_passkeys_authenticate_and_report_failures() {
    let mut authenticator = UhidAuthenticator::with_backend(FrostBackend::new());
    let pending = Pending::Registration {
        cid: 1,
        rp_id: String::new(),
        user_id: vec![1],
    };
    assert!(matches!(
        authenticator.resume(pending, true),
        Err(UhidError::Authenticator(AuthenticatorError::Backend(
            BackendError::InvalidInput("rp.id must not be empty")
        )))
    ));
    let pending = Pending::Registration {
        cid: 1,
        rp_id: "example.com".to_string(),
        user_id: vec![1],
    };
    let answer = authenticator.resume(pending, true).unwrap();
    assert_eq!(answer.payload[0], CTAP2_STATUS_OK);
}

#[test]
fn a_whole_exchange_over_events() {
    let order = ByteOrder::LittleEndian;
    let mut authenticator = UhidAuthenticator::new();
    let request = registration_request("a-rather-long-name.relying-party.example.com", -8);
    let message = cbor_message(0x01020304, ctap2_command::MAKE_CREDENTIAL, &request);
    let packets = message.to_packets();
    assert!(packets.len() > 1);
    let last = packets.len() - 1;
    let mut pending = None;
    for (i, packet) in packets.into_iter().enumerate() {
        let mut event = vec![6, 0, 0, 0];
        event.extend_from_slice(&packet.serialize());
        event.resize(UHID_EVENT_SIZE, 0);
        let action = authenticator.handle_event(order, &event);
        if i == last {
            pending = Some(asked(action));
        } else {
            assert!(ignored(action));
        }
    }
    let answer = authenticator.resume(pending.unwrap(), true).unwrap();
    let mut host = CtapHidReassembler::new();
    let mut received = Vec::new();
    for event in events_of_message(order, &answer) {
        assert_eq!(event.len(), UHID_EVENT_SIZE);
        assert_eq!(event[..6], [12, 0, 0, 0, 64, 0]);
        let packet = CtapHidPacket::parse(&event[6..70]).unwrap();
        received.extend(host.handle_packet(packet));
    }
    assert_eq!(received, vec![answer]);
}

#[test]
fn a_session_reads_asks_and_sends() {
    let order = ByteOrder::LittleEndian;
    let mut session = Session::new(UhidAuthenticator::new());
    assert!(matches!(session.start(), NextStep::Read));
    for event in [vec![], vec![6, 0, 0], vec![2, 0, 0, 0, 1], vec![6, 0, 0, 0, 1]] {
        assert!(matches!(
            session.advance(order, Happening::Event(event)),
            NextStep::Read
        ));
    }
    let event_of = |message: CtapHidMessage| {
        let packets = message.to_packets();
        assert_eq!(packets.len(), 1);
        let mut event = vec![6, 0, 0, 0];
        event.extend_from_slice(&packets[0].serialize());
        event
    };
    let selection = CtapHidMessage {
        cid: 7,
        cmd: command::CBOR,
        payload: vec![ctap2_command::SELECTION],
    };
    match session.advance(order, Happening::Event(event_of(selection.clone()))) {
        NextStep::Ask(prompt) => assert_eq!(prompt, "Use this authenticator?"),
        _ => panic!("the user should be asked"),
    }
    match session.advance(order, Happening::Word(true)) {
        NextStep::Send(message) => assert_eq!(
            message,
            CtapHidMessage {
                cid: 7,
                cmd: command::CBOR,
                payload: vec![CTAP2_STATUS_OK],
            }
        ),
        _ => panic!("the answer should be sent"),
    }
    assert!(matches!(
        session.advance(order, Happening::Sent),
        NextStep::Read
    ));
    let broken = CtapHidMessage {
        cid: 7,
        cmd: command::CBOR,
        payload: vec![ctap2_command::GET_ASSERTION, 0xff],
    };
    assert!(matches!(
        session.advance(order, Happening::Event(event_of(broken))),
        NextStep::Fail(UhidError::Decode(_))
    ));
    assert!(matches!(session.start(), NextStep::Read));
    session.advance(order, Happening::Event(event_of(selection)));
    assert!(matches!(
        session.advance(order, Happening::Failure),
        NextStep::GiveUp
    ));
}

#[test]
fn written_requests_are_read_back() {
    let item = Cbor::Entries(vec![
        (Cbor::Integer(1), Cbor::Text("example.com".to_owned())),
        (Cbor::Integer(2), Cbor::Bytes(vec![9; 32])),
    ]);
    let mut payload = vec![ctap2_command::GET_ASSERTION];
    payload.extend(encode(&item));
    let request = parse_get_assertion_request(&payload).unwrap().unwrap();
    assert_eq!(request.rp_id, "example.com");
    assert_eq!(request.client_data_hash, [9; 32]);
    assert!(!encode(&Cbor::Bool(false)).is_empty());
}

#[test]
fn other_events_are_ignored() {
    let mut authenticator = UhidAuthenticator::new();
    let order = ByteOrder::LittleEndian;
    assert!(ignored(authenticator.handle_event(order, &[])));
    assert!(ignored(authenticator.handle_event(order, &[6, 0, 0])));
    assert!(ignored(authenticator.handle_event(order, &[2, 0, 0, 0, 1])));
    assert!(ignored(authenticator.handle_event(order, &[6, 0, 0, 0, 1])));
    assert!(ignored(authenticator.handle_report(&[1, 2, 3])));
}

#[test]
fn reports_are_taken_from_output_events() {
    let mut event = vec![0, 0, 0, 6];
    event.extend(1..=70u8);
    assert_eq!(
        report_of_event(ByteOrder::BigEndian, &event),
        Some((1..=65u8).collect())
    );
    assert_eq!(report_of_event(ByteOrder::LittleEndian, &event), None);
    assert_eq!(
        report_of_event(ByteOrder::BigEndian, &event[..14]),
        Some((1..=10u8).collect())
    );
}

#[test]
fn the_create_event_describes_the_device() {
    let event = create_event(ByteOrder::LittleEndian);
    assert_eq!(event.len(), UHID_EVENT_SIZE);
    assert_eq!(event[..4], [11, 0, 0, 0]);
    assert_eq!(&event[4..32], b"MPC Passkey Pure-Rust Device");
    assert!(event[32..260].iter().all(|byte| *byte == 0));
    assert_eq!(event[260..264], [34, 0, 3, 0]);
    assert_eq!(event[264..272], [0x34, 0x12, 0, 0, 0x78, 0x56, 0, 0]);
    assert!(event[272..280].iter().all(|byte| *byte == 0));
    assert_eq!(event[280..314], FIDO_REPORT_DESC);
    assert!(event[314..].iter().all(|byte| *byte == 0));
    let big = create_event(ByteOrder::BigEndian);
    assert_eq!(big[..4], [0, 0, 0, 11]);
    assert_eq!(big[260..264], [0, 34, 0, 3]);
}

#[test]
fn input_events_carry_a_report() {
    let event = input_event(ByteOrder::BigEndian, &[0xee; 64]);
    assert_eq!(event.len(), UHID_EVENT_SIZE);
    assert_eq!(event[..6], [0, 0, 0, 12, 0, 64]);
    assert_eq!(event[6..70], [0xee; 64]);
    assert!(event[70..].iter().all(|byte| *byte == 0));
}

#[test]
fn answers_are_understood() {
    for yes in ["y", "Y", "yes", "YES\n", "  Yes \r\n", "\u{3000}yEs\u{a0}"] {
        assert_eq!(understand_answer(yes), Some(true));
    }
    for no in ["n", "N\n", "no", "\tNo", "\u{2028}nO"] {
        assert_eq!(understand_answer(no), Some(false));
    }
    for other in ["", " ", "ye", "yess", "y es", "nope", "да", "\u{200b}y", "\u{ff39}"] {
        assert_eq!(understand_answer(other), None);
    }
}

#[test]
fn answers_are_trimmed_as_std_trims() {
    for code in 0..=0x10ffffu32 {
        if let Some(c) = char::from_u32(code) {
            if c.is_whitespace() {
                assert_eq!(understand_answer(&format!("{c}y{c}")), Some(true));
            }
        }
    }
    for c in ['\u{8}', '\u{e}', '\u{1f}', '\u{84}', '\u{180e}', '\u{200b}', '\u{feff}'] {
        assert!(!c.is_whitespace());
        assert_eq!(understand_answer(&format!("{c}y")), None);
    }
}

#[test]
fn cbor_items_read_back_as_written() {
    let item = || {
        Cbor::Entries(vec![
            (Cbor::Integer(-18446744073709551616), Cbor::Text("é".repeat(5000))),
            (
                Cbor::Array(vec![Cbor::Bool(true), Cbor::Bytes(vec![9; 5000])]),
                Cbor::Integer(18446744073709551615),
            ),
        ])
    };
    let encoded = encode(&item());
    assert_eq!(decode(&encoded), Ok(item()));
    assert_eq!(encode(&Cbor::Integer(-8)), vec![0x27]);
    assert_eq!(encode(&Cbor::Entries(vec![])), vec![0xa0]);
}

#[test]
fn deeply_nested_items_read_back_up_to_the_limit() {
    let nested = |depth: usize| {
        let mut item = Cbor::Integer(7);
        for _ in 0..depth {
            item = Cbor::Array(vec![item]);
        }
        item
    };
    assert_eq!(decode(&encode(&nested(256))), Ok(nested(256)));
    let mut deeper = vec![0x81];
    deeper.extend(encode(&nested(256)));
    assert_eq!(decode(&deeper), Err(DecodeError::RecursionLimitExceeded));
}

#[test]
fn cbor_of_other_kinds_is_not_looked_into() {
    assert_eq!(decode(&[0xf6]), Ok(Cbor::Other));
    assert_eq!(decode(&[0xf9, 0x3c, 0x00]), Ok(Cbor::Other));
    assert_eq!(decode(&[0x82, 0x01, 0xf6, 0xff]), Ok(Cbor::Array(vec![
        Cbor::Integer(1),
        Cbor::Other
    ])));
}

#[test]
fn bytes_that_are_no_cbor_are_refused() {
    assert_eq!(decode(&[]), Err(DecodeError::Io));
    assert_eq!(decode(&[0x5a]), Err(DecodeError::Io));
    assert_eq!(decode(&[0x1c]), Err(DecodeError::Syntax(0)));
    assert!(matches!(decode(&[0x61, 0xff]), Err(DecodeError::Syntax(_))));
    assert_eq!(
        decode(&[0x81; 300]),
        Err(DecodeError::RecursionLimitExceeded)
    );
    assert!(matches!(decode(&[0xff]), Err(DecodeError::Semantic(_, _))));
}
