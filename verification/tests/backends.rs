use ed25519_dalek::{Signature, Verifier, VerifyingKey};
use passkeys::backend::handle_map::HandleMap;
use passkeys::backend::{
    BackendError, CreateCredentialRequest, CredentialBackend, CredentialHandle, FrostBackend,
    LocalEd25519Backend, SignRequest,
};

fn request() -> CreateCredentialRequest<'static> {
    CreateCredentialRequest {
        rp_id: "example.com",
        user_id: b"user",
    }
}

#[test]
fn created_credentials_sign_standard_ed25519_messages() {
    let mut backend = LocalEd25519Backend::default();
    let credential = backend
        .create_credential(CreateCredentialRequest {
            rp_id: "example.com",
            user_id: b"user",
        })
        .unwrap();
    let message = b"authenticator data and client data hash";
    let signature = backend
        .sign(SignRequest {
            handle: &credential.handle,
            message,
        })
        .unwrap();

    VerifyingKey::from_bytes(&credential.public_key)
        .unwrap()
        .verify(message, &Signature::from_bytes(&signature))
        .unwrap();
}

#[test]
fn deleted_and_unknown_credentials_cannot_sign() {
    let mut backend = LocalEd25519Backend::default();
    let credential = backend
        .create_credential(CreateCredentialRequest {
            rp_id: "example.com",
            user_id: b"user",
        })
        .unwrap();
    backend.delete_credential(&credential.handle).unwrap();

    assert!(matches!(
        backend.sign(SignRequest {
            handle: &credential.handle,
            message: b"message",
        }),
        Err(BackendError::CredentialNotFound)
    ));
}

#[test]
fn deleting_an_unknown_credential_is_refused() {
    let mut backend = LocalEd25519Backend::default();
    let credential = backend.create_credential(request()).unwrap();
    backend.delete_credential(&credential.handle).unwrap();
    assert!(matches!(
        backend.delete_credential(&credential.handle),
        Err(BackendError::CredentialNotFound)
    ));
    let mut shared = FrostBackend::new();
    assert!(matches!(
        shared.delete_credential(&credential.handle),
        Err(BackendError::CredentialNotFound)
    ));
}

#[test]
fn a_relying_party_is_needed() {
    let empty = || CreateCredentialRequest {
        rp_id: "",
        user_id: b"user",
    };
    let mut local = LocalEd25519Backend::default();
    assert!(matches!(
        local.create_credential(empty()),
        Err(BackendError::InvalidInput("rp.id must not be empty"))
    ));
    let mut shared = FrostBackend::default();
    assert!(matches!(
        shared.create_credential(empty()),
        Err(BackendError::InvalidInput("rp.id must not be empty"))
    ));
}

#[test]
fn handles_are_fresh_and_have_32_bytes() {
    let mut backend = LocalEd25519Backend::default();
    let first = backend.create_credential(request()).unwrap();
    let second = backend.create_credential(request()).unwrap();
    assert_eq!(first.handle.as_bytes().len(), 32);
    assert_ne!(first.handle, second.handle);
    assert_ne!(first.public_key, second.public_key);
    assert_ne!(first.handle.as_bytes(), [0u8; 32]);
    assert_ne!(first.public_key, [0u8; 32]);
}

#[test]
fn other_credentials_are_kept() {
    let mut backend = LocalEd25519Backend::default();
    let kept = backend.create_credential(request()).unwrap();
    let dropped = backend.create_credential(request()).unwrap();
    backend.delete_credential(&dropped.handle).unwrap();
    let signature = backend
        .sign(SignRequest {
            handle: &kept.handle,
            message: b"message",
        })
        .unwrap();
    VerifyingKey::from_bytes(&kept.public_key)
        .unwrap()
        .verify(b"message", &Signature::from_bytes(&signature))
        .unwrap();
}

#[test]
fn stores_a_key_under_a_handle() {
    let mut backend = LocalEd25519Backend::default();
    let secret = [
        0x9d, 0x61, 0xb1, 0x9d, 0xef, 0xfd, 0x5a, 0x60, 0xba, 0x84, 0x4a, 0xf4, 0x92, 0xec, 0x2c,
        0xc4, 0x44, 0x49, 0xc5, 0x69, 0x7b, 0x32, 0x69, 0x19, 0x70, 0x3b, 0xac, 0x03, 0x1c, 0xae,
        0x7f, 0x60,
    ];
    let created = backend.store_key(CredentialHandle::new(vec![1, 2, 3]).unwrap(), secret);
    assert_eq!(created.handle.as_bytes(), [1, 2, 3]);
    assert_eq!(
        created.public_key,
        [
            0xd7, 0x5a, 0x98, 0x01, 0x82, 0xb1, 0x0a, 0xb7, 0xd5, 0x4b, 0xfe, 0xd3, 0xc9, 0x64,
            0x07, 0x3a, 0x0e, 0xe1, 0x72, 0xf3, 0xda, 0xa6, 0x23, 0x25, 0xaf, 0x02, 0x1a, 0x68,
            0xf7, 0x07, 0x51, 0x1a,
        ]
    );
    let signature = backend
        .sign(SignRequest {
            handle: &created.handle,
            message: b"",
        })
        .unwrap();
    assert_eq!(signature[..4], [0xe5, 0x56, 0x43, 0x00]);
    assert_eq!(signature[60..], [0x8e, 0x7a, 0x10, 0x0b]);
}

#[test]
fn handles_must_not_be_empty() {
    assert!(matches!(
        CredentialHandle::new(Vec::new()),
        Err(BackendError::InvalidInput("credential handles must not be empty"))
    ));
    let handle = CredentialHandle::new(vec![9]).unwrap();
    assert_eq!(handle.as_bytes(), [9]);
    assert_eq!(handle.clone(), handle);
}

#[test]
fn backend_errors_have_messages() {
    assert_eq!(
        BackendError::InvalidInput("rp.id must not be empty").message(),
        "invalid backend input: rp.id must not be empty"
    );
    assert_eq!(
        BackendError::CredentialNotFound.message(),
        "credential not found in backend"
    );
    assert_eq!(
        BackendError::Internal("no luck".to_string()).message(),
        "credential backend failed: no luck"
    );
}

#[test]
fn all_two_of_three_pairs_produce_standard_ed25519_signatures() {
    for pair in [[1, 2], [1, 3], [2, 3]] {
        let mut backend = FrostBackend::with_signing_participants(pair).unwrap();
        let credential = backend
            .create_credential(CreateCredentialRequest {
                rp_id: "example.com",
                user_id: b"user",
            })
            .unwrap();
        let message = format!("assertion signed by {pair:?}");
        let signature = backend
            .sign(SignRequest {
                handle: &credential.handle,
                message: message.as_bytes(),
            })
            .unwrap();

        VerifyingKey::from_bytes(&credential.public_key)
            .unwrap()
            .verify(message.as_bytes(), &Signature::from_bytes(&signature))
            .unwrap();
    }
}

#[test]
fn the_order_of_a_pair_does_not_matter_to_verification() {
    let mut backend = FrostBackend::with_signing_participants([3, 1]).unwrap();
    assert_eq!(backend.signing_participants(), [3, 1]);
    assert_eq!(backend.selected_signers().unwrap(), [3, 1]);
    let credential = backend.create_credential(request()).unwrap();
    let signature = backend
        .sign(SignRequest {
            handle: &credential.handle,
            message: b"message",
        })
        .unwrap();
    VerifyingKey::from_bytes(&credential.public_key)
        .unwrap()
        .verify(b"message", &Signature::from_bytes(&signature))
        .unwrap();
}

#[test]
fn invalid_signer_sets_are_rejected() {
    assert!(FrostBackend::with_signing_participants([1, 1]).is_err());
    assert!(FrostBackend::with_signing_participants([1, 4]).is_err());
}

#[test]
fn signers_are_numbered_from_one_to_three() {
    for signers in [[0, 1], [1, 0], [2, 2], [4, 1]] {
        assert!(matches!(
            FrostBackend::with_signing_participants(signers),
            Err(BackendError::InvalidInput(
                "FROST requires two distinct participants numbered 1 through 3"
            ))
        ));
    }
    let mut backend = FrostBackend::new();
    for participant in [0, 4] {
        assert!(matches!(
            backend.set_participant_available(participant, false),
            Err(BackendError::InvalidInput(
                "FROST participant must be numbered 1 through 3"
            ))
        ));
    }
}

#[test]
fn backup_participant_is_selected_automatically() {
    let mut backend = FrostBackend::new();
    assert_eq!(backend.selected_signers().unwrap(), [1, 2]);

    backend.set_participant_available(2, false).unwrap();
    assert_eq!(backend.selected_signers().unwrap(), [1, 3]);

    backend.set_participant_available(2, true).unwrap();
    backend.set_participant_available(1, false).unwrap();
    assert_eq!(backend.selected_signers().unwrap(), [2, 3]);
}

#[test]
fn signing_fails_when_fewer_than_two_participants_are_available() {
    let mut backend = FrostBackend::new();
    backend.set_participant_available(1, false).unwrap();
    backend.set_participant_available(2, false).unwrap();
    assert!(backend.selected_signers().is_err());
}

#[test]
fn a_credential_outlives_a_change_of_signers() {
    let mut backend = FrostBackend::new();
    let credential = backend.create_credential(request()).unwrap();
    let key = VerifyingKey::from_bytes(&credential.public_key).unwrap();
    for unavailable in [3, 2, 1] {
        backend.set_participant_available(unavailable, false).unwrap();
        let signature = backend
            .sign(SignRequest {
                handle: &credential.handle,
                message: b"message",
            })
            .unwrap();
        key.verify(b"message", &Signature::from_bytes(&signature)).unwrap();
        backend.set_participant_available(unavailable, true).unwrap();
    }
    backend.set_participant_available(1, false).unwrap();
    backend.set_participant_available(3, false).unwrap();
    match backend.sign(SignRequest {
        handle: &credential.handle,
        message: b"message",
    }) {
        Err(BackendError::Internal(text)) => assert_eq!(
            text,
            "fewer than two FROST participants are available for signing"
        ),
        _ => panic!("one participant must not sign"),
    }
    backend.delete_credential(&credential.handle).unwrap();
    assert!(matches!(
        backend.sign(SignRequest {
            handle: &credential.handle,
            message: b"message",
        }),
        Err(BackendError::CredentialNotFound)
    ));
}

#[test]
fn ceremonies_check_their_signers_and_their_nonces() {
    let credential = FrostBackend::generate_credential().unwrap();
    assert!(matches!(
        FrostBackend::sign_with(&credential, [1, 1], b"message"),
        Err(BackendError::InvalidInput(_))
    ));
    let nothing = || (Vec::new(), Vec::new());
    match credential.sign_from([1, 2], nothing(), nothing(), b"message") {
        Err(BackendError::Internal(text)) => assert_eq!(text, "FROST error: DeserializationError"),
        _ => panic!("a ceremony without nonces must fail"),
    }
    let signature = FrostBackend::sign_with(&credential, [2, 3], b"message").unwrap();
    VerifyingKey::from_bytes(&credential.public_key().unwrap())
        .unwrap()
        .verify(b"message", &Signature::from_bytes(&signature))
        .unwrap();
}

#[test]
fn a_generated_credential_is_stored_under_a_handle() {
    let mut backend = FrostBackend::new();
    let first = FrostBackend::generate_credential().unwrap();
    let second = FrostBackend::generate_credential().unwrap();
    let public_key = second.public_key().unwrap();
    assert_ne!(public_key, first.public_key().unwrap());
    let handle = CredentialHandle::new(vec![5]).unwrap();
    backend.store_credential(&handle, first);
    backend.store_credential(&handle, second);
    let signature = backend
        .sign(SignRequest {
            handle: &handle,
            message: b"message",
        })
        .unwrap();
    VerifyingKey::from_bytes(&public_key)
        .unwrap()
        .verify(b"message", &Signature::from_bytes(&signature))
        .unwrap();
}

#[test]
fn unused_keys_are_found_and_drawn() {
    let mut map: HandleMap<u8> = HandleMap::new();
    assert_eq!(map.unused_key(), vec![0; 32]);
    map.insert(vec![0; 32], 1);
    let mut next = vec![0; 32];
    next[7] = 1;
    assert_eq!(map.unused_key(), next);
    let drawn = map.draw_unused_key();
    assert_eq!(drawn.len(), 32);
    assert_ne!(drawn, map.draw_unused_key());
    assert!(!map.contains_key(&drawn));
    map.insert(drawn.clone(), 2);
    map.insert(drawn.clone(), 3);
    assert_eq!(map.get(&drawn), Some(&3));
    assert_eq!(map.remove(&drawn), Some(3));
    assert_eq!(map.remove(&drawn), None);
    assert_eq!(map.get(&[0; 32]), Some(&1));
}
