use ed25519_dalek::{Signature, Verifier, VerifyingKey};
use passkeys::authenticator::{
    AssertionRequest, AuthenticatorError, AuthenticatorService, RegistrationRequest,
};
use passkeys::backend::{BackendError, FrostBackend, LocalEd25519Backend};
use sha2::{Digest, Sha256};

#[test]
fn registration_and_assertion_are_transport_independent() {
    let mut service = AuthenticatorService::new(Box::new(LocalEd25519Backend::default()));
    let registration = service
        .register(RegistrationRequest {
            rp_id: "example.com",
            user_id: b"user-id",
        })
        .unwrap();
    let client_data_hash = [0xa5; 32];
    let assertion = service
        .get_assertion(AssertionRequest {
            rp_id: "example.com",
            client_data_hash: &client_data_hash,
            allow_list: std::slice::from_ref(&registration.credential_id),
            user_present: true,
        })
        .unwrap();

    let mut signed_data = assertion.authenticator_data.clone();
    signed_data.extend_from_slice(&client_data_hash);
    VerifyingKey::from_bytes(&registration.public_key)
        .unwrap()
        .verify(&signed_data, &Signature::from_bytes(&assertion.signature))
        .unwrap();
    assert_eq!(assertion.sign_count, 1);
}

#[test]
fn credentials_are_bound_to_the_relying_party() {
    let mut service = AuthenticatorService::new(Box::new(LocalEd25519Backend::default()));
    let registration = service
        .register(RegistrationRequest {
            rp_id: "example.com",
            user_id: b"user-id",
        })
        .unwrap();

    assert!(!service.has_matching_credential("other.example", &[registration.credential_id]));
}

#[test]
fn authenticator_data_names_the_relying_party_the_presence_and_the_count() {
    let mut service = AuthenticatorService::new(LocalEd25519Backend::default());
    let registration = service
        .register(RegistrationRequest {
            rp_id: "example.com",
            user_id: b"user-id",
        })
        .unwrap();
    for (count, user_present) in [(1u32, false), (2, true), (3, false)] {
        let assertion = service
            .get_assertion(AssertionRequest {
                rp_id: "example.com",
                client_data_hash: &[1; 32],
                allow_list: &[vec![0], registration.credential_id.clone()],
                user_present,
            })
            .unwrap();
        let data = assertion.authenticator_data;
        assert_eq!(assertion.credential_id, registration.credential_id);
        assert_eq!(assertion.sign_count, count);
        assert_eq!(data.len(), 37);
        assert_eq!(&data[..32], Sha256::digest(b"example.com").as_slice());
        assert_eq!(data[32], u8::from(user_present));
        assert_eq!(data[33..], count.to_be_bytes());
    }
}

#[test]
fn the_first_matching_credential_answers() {
    let mut service = AuthenticatorService::new(LocalEd25519Backend::default());
    let mut ids = Vec::new();
    for rp_id in ["example.com", "other.example", "example.com"] {
        let registration = service
            .register(RegistrationRequest {
                rp_id,
                user_id: b"user-id",
            })
            .unwrap();
        ids.push(registration.credential_id);
    }
    let assertion = service
        .get_assertion(AssertionRequest {
            rp_id: "example.com",
            client_data_hash: &[1; 32],
            allow_list: &[ids[1].clone(), ids[2].clone(), ids[0].clone()],
            user_present: true,
        })
        .unwrap();
    assert_eq!(assertion.credential_id, ids[2]);
    let other = service
        .get_assertion(AssertionRequest {
            rp_id: "example.com",
            client_data_hash: &[1; 32],
            allow_list: &[ids[0].clone()],
            user_present: true,
        })
        .unwrap();
    assert_eq!(other.sign_count, 1);
}

#[test]
fn without_a_match_there_is_no_assertion() {
    let mut service = AuthenticatorService::new(LocalEd25519Backend::default());
    assert!(!service.has_matching_credential("example.com", &[]));
    let result = service.get_assertion(AssertionRequest {
        rp_id: "example.com",
        client_data_hash: &[1; 32],
        allow_list: &[vec![1]],
        user_present: true,
    });
    match result {
        Err(error) => {
            assert_eq!(error.message(), "no matching credential");
            assert!(error.source().is_none());
        }
        Ok(_) => panic!("there is no credential"),
    }
}

#[test]
fn backend_errors_are_passed_on() {
    let mut service = AuthenticatorService::new(FrostBackend::new());
    match service.register(RegistrationRequest {
        rp_id: "",
        user_id: b"user-id",
    }) {
        Err(error) => {
            assert_eq!(error.message(), "invalid backend input: rp.id must not be empty");
            assert!(matches!(
                error.source(),
                Some(BackendError::InvalidInput("rp.id must not be empty"))
            ));
        }
        Ok(_) => panic!("a relying party is needed"),
    }
    assert!(matches!(
        AuthenticatorError::from(BackendError::CredentialNotFound),
        AuthenticatorError::Backend(BackendError::CredentialNotFound)
    ));
}

#[test]
fn shared_credentials_assert_verifiably() {
    let mut service = AuthenticatorService::new(FrostBackend::new());
    let registration = service
        .register(RegistrationRequest {
            rp_id: "example.com",
            user_id: b"user-id",
        })
        .unwrap();
    let assertion = service
        .get_assertion(AssertionRequest {
            rp_id: "example.com",
            client_data_hash: &[9; 32],
            allow_list: std::slice::from_ref(&registration.credential_id),
            user_present: true,
        })
        .unwrap();
    let mut signed_data = assertion.authenticator_data.clone();
    signed_data.extend_from_slice(&[9; 32]);
    VerifyingKey::from_bytes(&registration.public_key)
        .unwrap()
        .verify(&signed_data, &Signature::from_bytes(&assertion.signature))
        .unwrap();
    assert_eq!(assertion.sign_count, 1);
}

#[test]
fn counters_and_matches_follow_the_history() {
    let mut service = AuthenticatorService::new(LocalEd25519Backend::default());
    assert!(!service.has_matching_credential("a.example", &[vec![1]]));
    let register = |service: &mut AuthenticatorService<LocalEd25519Backend>, rp_id: &str| {
        service
            .register(RegistrationRequest {
                rp_id,
                user_id: b"user-id",
            })
            .unwrap()
            .credential_id
    };
    let a = register(&mut service, "a.example");
    let b = register(&mut service, "b.example");
    assert_eq!(a.len(), 32);
    for count in 1..=3 {
        for (rp_id, id) in [("a.example", &a), ("b.example", &b)] {
            let ask = |rp_id| AssertionRequest {
                rp_id,
                client_data_hash: &[1; 32],
                allow_list: std::slice::from_ref(id),
                user_present: true,
            };
            assert!(service.get_assertion(ask("c.example")).is_err());
            assert_eq!(service.get_assertion(ask(rp_id)).unwrap().sign_count, count);
        }
    }
    assert!(service.has_matching_credential("a.example", &[b.clone(), a.clone()]));
    assert!(!service.has_matching_credential("a.example", &[b.clone()]));
    assert!(service.has_matching_credential("b.example", &[a, b]));
    assert!(!service.has_matching_credential("b.example", &[]));
}
