//! The payloads of CTAP2 responses: a status byte, and a CBOR map on success.

use crate::authenticator::{Assertion, AssertionView};
use crate::bytes::{copy_bytes, push_all, push_be16, push_be32};
use crate::cbor::{encode, Cbor, CborView};
use crate::sha256::sha256;
use vstd::prelude::*;
use vstd::string::StringExecFns;

verus! {

/// CTAP2 authenticatorGetInfo response key: supported protocol versions.
pub const CTAP2_GET_INFO_VERSIONS: i64 = 1;

/// CTAP2 authenticatorGetInfo response key: authenticator AAGUID.
pub const CTAP2_GET_INFO_AAGUID: i64 = 3;

/// CTAP2 authenticatorGetInfo response key: supported authenticator options.
pub const CTAP2_GET_INFO_OPTIONS: i64 = 4;

/// CTAP2 authenticatorMakeCredential response key: attestation statement format.
pub const CTAP2_MAKE_CREDENTIAL_RESPONSE_FMT: i64 = 1;

/// CTAP2 authenticatorMakeCredential response key: authenticator data.
pub const CTAP2_MAKE_CREDENTIAL_RESPONSE_AUTH_DATA: i64 = 2;

/// CTAP2 authenticatorMakeCredential response key: attestation statement.
pub const CTAP2_MAKE_CREDENTIAL_RESPONSE_ATT_STMT: i64 = 3;

/// CTAP2 authenticatorGetAssertion response key: credential descriptor.
pub const CTAP2_GET_ASSERTION_RESPONSE_CREDENTIAL: i64 = 1;

/// CTAP2 authenticatorGetAssertion response key: authenticator data.
pub const CTAP2_GET_ASSERTION_RESPONSE_AUTH_DATA: i64 = 2;

/// CTAP2 authenticatorGetAssertion response key: signature.
pub const CTAP2_GET_ASSERTION_RESPONSE_SIGNATURE: i64 = 3;

pub const CTAP2_STATUS_OK: u8 = 0x00;

pub const CTAP2_STATUS_MISSING_PARAMETER: u8 = 0x14;

pub const CTAP2_STATUS_UNSUPPORTED_ALGORITHM: u8 = 0x26;

pub const CTAP2_STATUS_OPERATION_DENIED: u8 = 0x27;

pub const CTAP2_STATUS_NO_CREDENTIALS: u8 = 0x2e;

pub const CTAP2_STATUS_PIN_NOT_SET: u8 = 0x35;

/// COSE key parameter: key type (`kty`).
pub const COSE_KEY_TYPE: i64 = 1;

/// COSE key parameter: signing algorithm (`alg`).
pub const COSE_KEY_ALGORITHM: i64 = 3;

/// COSE key parameter: elliptic curve (`crv`).
pub const COSE_KEY_CURVE: i64 = -1;

/// COSE key parameter: public key x-coordinate.
pub const COSE_KEY_X_COORDINATE: i64 = -2;

/// COSE key type value for octet key pairs (`OKP`).
pub const COSE_KEY_TYPE_OKP: i64 = 1;

/// COSE algorithm value for EdDSA.
pub const COSE_ALGORITHM_EDDSA: i64 = -8;

/// COSE curve value for Ed25519.
pub const COSE_CURVE_ED25519: i64 = 6;

/// Flags of attested authenticator data: user present, attested data included.
pub const ATTESTED_DATA_FLAGS: u8 = 0x41;

/// A CBOR integer.
pub open spec fn integer(n: i64) -> CborView {
    CborView::Integer(n as int)
}

/// A CBOR text.
pub open spec fn text(t: Seq<char>) -> CborView {
    CborView::Text(t)
}

/// The AAGUID: sixteen zero bytes.
pub open spec fn aaguid() -> Seq<u8> {
    Seq::new(16, |i: int| 0u8)
}

/// What authenticatorGetInfo tells: CTAP 2.0, no AAGUID, no resident keys, user
/// presence.
pub open spec fn get_info_item() -> CborView {
    CborView::Entries(
        seq![
            (integer(CTAP2_GET_INFO_VERSIONS), CborView::Array(seq![text("FIDO_2_0"@)])),
            (integer(CTAP2_GET_INFO_AAGUID), CborView::Bytes(aaguid())),
            (
                integer(CTAP2_GET_INFO_OPTIONS),
                CborView::Entries(
                    seq![
                        (text("rk"@), CborView::Bool(false)),
                        (text("up"@), CborView::Bool(true)),
                    ],
                ),
            ),
        ],
    )
}

/// The COSE form of an Ed25519 public key.
pub open spec fn cose_key_item(public_key: Seq<u8>) -> CborView {
    CborView::Entries(
        seq![
            (integer(COSE_KEY_TYPE), integer(COSE_KEY_TYPE_OKP)),
            (integer(COSE_KEY_ALGORITHM), integer(COSE_ALGORITHM_EDDSA)),
            (integer(COSE_KEY_CURVE), integer(COSE_CURVE_ED25519)),
            (integer(COSE_KEY_X_COORDINATE), CborView::Bytes(public_key)),
        ],
    )
}

/// The authenticator data of a new credential: the digest of the relying party
/// ID, the flags, a counter of zero, the AAGUID, the credential ID with its
/// length, and the COSE key.
pub open spec fn attested_data(
    rp_id: Seq<char>,
    credential_id: Seq<u8>,
    public_key: Seq<u8>,
) -> Seq<u8> {
    crate::sha256::sha256_digest(vstd::utf8::encode_utf8(rp_id)) + seq![ATTESTED_DATA_FLAGS]
        + crate::bytes::be32(0) + aaguid() + crate::bytes::be16(credential_id.len() as u16)
        + credential_id + crate::cbor::cbor_encoded(cose_key_item(public_key))
}

/// Where the parts of a new credential's authenticator data stand: the digest in
/// the first 32 bytes, then flags, counter and AAGUID, the length of the
/// credential ID at 53, the ID at 55, and the COSE key behind it.
pub open spec fn attested_layout(
    data: Seq<u8>,
    rp_id: Seq<char>,
    credential_id: Seq<u8>,
    public_key: Seq<u8>,
) -> bool {
    let key_at = 55 + credential_id.len();
    let key = crate::cbor::cbor_encoded(cose_key_item(public_key));
    &&& data.len() == key_at + key.len()
    &&& data.subrange(0, 32) == crate::sha256::sha256_digest(vstd::utf8::encode_utf8(rp_id))
    &&& data[32] == ATTESTED_DATA_FLAGS
    &&& data.subrange(33, 37) == crate::bytes::be32(0)
    &&& data.subrange(37, 53) == aaguid()
    &&& data.subrange(53, 55) == crate::bytes::be16(credential_id.len() as u16)
    &&& data.subrange(55, key_at as int) == credential_id
    &&& data.subrange(key_at as int, data.len() as int) == key
}

/// The attestation of a new credential, without an attestation statement.
pub open spec fn attestation_item(
    rp_id: Seq<char>,
    credential_id: Seq<u8>,
    public_key: Seq<u8>,
) -> CborView {
    CborView::Entries(
        seq![
            (integer(CTAP2_MAKE_CREDENTIAL_RESPONSE_FMT), text("none"@)),
            (
                integer(CTAP2_MAKE_CREDENTIAL_RESPONSE_AUTH_DATA),
                CborView::Bytes(attested_data(rp_id, credential_id, public_key)),
            ),
            (integer(CTAP2_MAKE_CREDENTIAL_RESPONSE_ATT_STMT), CborView::Entries(seq![])),
        ],
    )
}

/// The answer to an assertion request.
pub open spec fn assertion_item(assertion: AssertionView) -> CborView {
    CborView::Entries(
        seq![
            (
                integer(CTAP2_GET_ASSERTION_RESPONSE_CREDENTIAL),
                CborView::Entries(
                    seq![
                        (text("id"@), CborView::Bytes(assertion.credential_id)),
                        (text("type"@), text("public-key"@)),
                    ],
                ),
            ),
            (
                integer(CTAP2_GET_ASSERTION_RESPONSE_AUTH_DATA),
                CborView::Bytes(assertion.authenticator_data),
            ),
            (
                integer(CTAP2_GET_ASSERTION_RESPONSE_SIGNATURE),
                CborView::Bytes(assertion.signature),
            ),
        ],
    )
}

/// A successful response with a CBOR item.
pub open spec fn success_payload(item: CborView) -> Seq<u8> {
    seq![CTAP2_STATUS_OK] + crate::cbor::cbor_encoded(item)
}

fn text_item(t: &str) -> (item: Cbor)
    ensures
        item@ == text(t@),
{
    Cbor::Text(String::from_str(t))
}

fn entry(key: i64, value: Cbor) -> (pair: (Cbor, Cbor))
    ensures
        (pair.0@, pair.1@) == (integer(key), value@),
{
    (Cbor::Integer(key as i128), value)
}

fn zeros(count: usize) -> (bytes: Vec<u8>)
    ensures
        bytes@ == Seq::new(count as nat, |i: int| 0u8),
{
    let mut bytes: Vec<u8> = Vec::new();
    bytes.resize(count, 0);
    assert(bytes@ =~= Seq::new(count as nat, |i: int| 0u8));
    bytes
}

fn pair_entries(first: (Cbor, Cbor), second: (Cbor, Cbor)) -> (item: Cbor)
    ensures
        item@ == CborView::Entries(seq![(first.0@, first.1@), (second.0@, second.1@)]),
{
    let mut entries: Vec<(Cbor, Cbor)> = Vec::new();
    entries.push(first);
    entries.push(second);
    proof {
        crate::cbor::lemma_entries_view(entries);
        assert(crate::cbor::entries_view(entries@) =~= seq![
            (first.0@, first.1@),
            (second.0@, second.1@),
        ]);
    }
    Cbor::Entries(entries)
}

fn triple_entries(first: (Cbor, Cbor), second: (Cbor, Cbor), third: (Cbor, Cbor)) -> (item: Cbor)
    ensures
        item@ == CborView::Entries(
            seq![(first.0@, first.1@), (second.0@, second.1@), (third.0@, third.1@)],
        ),
{
    let mut entries: Vec<(Cbor, Cbor)> = Vec::new();
    entries.push(first);
    entries.push(second);
    entries.push(third);
    proof {
        crate::cbor::lemma_entries_view(entries);
        assert(crate::cbor::entries_view(entries@) =~= seq![
            (first.0@, first.1@),
            (second.0@, second.1@),
            (third.0@, third.1@),
        ]);
    }
    Cbor::Entries(entries)
}

fn success(item: &Cbor) -> (payload: Vec<u8>)
    requires
        item@.plain(256),
    ensures
        payload@ == success_payload(item@),
        crate::cbor::decodes_to(payload@.skip(1), item@),
{
    let encoded: Vec<u8> = encode(item);
    let mut payload: Vec<u8> = Vec::new();
    payload.push(CTAP2_STATUS_OK);
    push_all(&mut payload, &encoded);
    assert(payload@ =~= success_payload(item@));
    assert(payload@.skip(1) =~= encoded@);
    payload
}

proof fn lemma_entries_plain(item: CborView, depth: nat)
    requires
        item is Entries,
        depth < 256,
        forall|i: int|
            0 <= i < item->Entries_0.len() ==> (#[trigger] item->Entries_0[i]).0.plain(depth)
                && item->Entries_0[i].1.plain(depth),
    ensures
        item.plain(depth + 1),
        item.plain(256),
{
    assert(((depth + 1) - 1) as nat == depth);
    crate::cbor::lemma_plain_within_more(item, depth + 1, 256);
}

/// The response to authenticatorGetInfo.
pub fn get_info_payload() -> (payload: Vec<u8>)
    ensures
        payload@ == success_payload(get_info_item()),
        crate::cbor::decodes_to(payload@.skip(1), get_info_item()),
{
    let mut versions: Vec<Cbor> = Vec::new();
    versions.push(text_item("FIDO_2_0"));
    proof {
        crate::cbor::lemma_array_view(versions);
        assert(crate::cbor::items_view(versions@) =~= seq![text("FIDO_2_0"@)]);
    }
    let options: Cbor = pair_entries(
        (text_item("rk"), Cbor::Bool(false)),
        (text_item("up"), Cbor::Bool(true)),
    );
    let item: Cbor = triple_entries(
        entry(CTAP2_GET_INFO_VERSIONS, Cbor::Array(versions)),
        entry(CTAP2_GET_INFO_AAGUID, Cbor::Bytes(zeros(16))),
        entry(CTAP2_GET_INFO_OPTIONS, options),
    );
    assert(item@ == get_info_item());
    proof {
        reveal_with_fuel(CborView::plain, 2);
        assert(options@.plain(1));
        assert(CborView::Array(seq![text("FIDO_2_0"@)]).plain(1));
        lemma_entries_plain(item@, 1);
    }
    success(&item)
}

fn cose_key(public_key: &[u8; 32]) -> (encoded: Vec<u8>)
    ensures
        encoded@ == crate::cbor::cbor_encoded(cose_key_item(public_key@)),
        crate::cbor::decodes_to(encoded@, cose_key_item(public_key@)),
{
    let mut entries: Vec<(Cbor, Cbor)> = Vec::new();
    entries.push(entry(COSE_KEY_TYPE, Cbor::Integer(COSE_KEY_TYPE_OKP as i128)));
    entries.push(entry(COSE_KEY_ALGORITHM, Cbor::Integer(COSE_ALGORITHM_EDDSA as i128)));
    entries.push(entry(COSE_KEY_CURVE, Cbor::Integer(COSE_CURVE_ED25519 as i128)));
    entries.push(entry(COSE_KEY_X_COORDINATE, Cbor::Bytes(copy_bytes(public_key))));
    let ghost parts = crate::cbor::entries_view(entries@);
    proof {
        crate::cbor::lemma_entries_view(entries);
    }
    let item: Cbor = Cbor::Entries(entries);
    proof {
        assert(parts =~= cose_key_item(public_key@)->Entries_0);
        lemma_entries_plain(item@, 0);
    }
    encode(&item)
}

proof fn lemma_attested_layout(rp_id: Seq<char>, credential_id: Seq<u8>, public_key: Seq<u8>)
    requires
        crate::sha256::sha256_digest(vstd::utf8::encode_utf8(rp_id)).len() == 32,
    ensures
        attested_layout(
            attested_data(rp_id, credential_id, public_key),
            rp_id,
            credential_id,
            public_key,
        ),
{
    let data = attested_data(rp_id, credential_id, public_key);
    let key_at = 55 + credential_id.len();
    assert(data.subrange(0, 32) =~= crate::sha256::sha256_digest(
        vstd::utf8::encode_utf8(rp_id),
    ));
    assert(data.subrange(33, 37) =~= crate::bytes::be32(0));
    assert(data.subrange(37, 53) =~= aaguid());
    assert(data.subrange(53, 55) =~= crate::bytes::be16(credential_id.len() as u16));
    assert(data.subrange(55, key_at as int) =~= credential_id);
    assert(data.subrange(key_at as int, data.len() as int) =~= crate::cbor::cbor_encoded(
        cose_key_item(public_key),
    ));
}

/// A credential ID that does not fit the two bytes of its length.
#[derive(Debug, PartialEq, Eq)]
pub struct CredentialIdTooLong;

/// The response to authenticatorMakeCredential for a new credential.
pub fn make_credential_response(rp_id: &str, credential_id: &[u8], public_key: [u8; 32]) -> (
response: Result<Vec<u8>, CredentialIdTooLong>)
    ensures
        match response {
            Ok(payload) => {
                let item = attestation_item(rp_id@, credential_id@, public_key@);
                &&& credential_id@.len() <= u16::MAX
                &&& payload@ == success_payload(item)
                &&& crate::cbor::decodes_to(payload@.skip(1), item)
                &&& crate::cbor::decodes_to(
                    crate::cbor::cbor_encoded(cose_key_item(public_key@)),
                    cose_key_item(public_key@),
                )
                &&& attested_layout(
                    attested_data(rp_id@, credential_id@, public_key@),
                    rp_id@,
                    credential_id@,
                    public_key@,
                )
            },
            Err(_) => credential_id@.len() > u16::MAX,
        },
{
    let cose_buf: Vec<u8> = cose_key(&public_key);
    if credential_id.len() > 0xffff {
        return Err(CredentialIdTooLong);
    }
    let mut auth_data: Vec<u8> = Vec::new();
    push_all(&mut auth_data, &sha256(rp_id.as_bytes()));
    auth_data.push(ATTESTED_DATA_FLAGS);
    push_be32(&mut auth_data, 0);
    push_all(&mut auth_data, &zeros(16));
    push_be16(&mut auth_data, credential_id.len() as u16);
    push_all(&mut auth_data, credential_id);
    push_all(&mut auth_data, &cose_buf);
    assert(auth_data@ =~= attested_data(rp_id@, credential_id@, public_key@));
    proof {
        lemma_attested_layout(rp_id@, credential_id@, public_key@);
    }
    let statement: Vec<(Cbor, Cbor)> = Vec::new();
    proof {
        crate::cbor::lemma_entries_view(statement);
        assert(crate::cbor::entries_view(statement@) =~= seq![]);
    }
    let item: Cbor = triple_entries(
        entry(CTAP2_MAKE_CREDENTIAL_RESPONSE_FMT, text_item("none")),
        entry(CTAP2_MAKE_CREDENTIAL_RESPONSE_AUTH_DATA, Cbor::Bytes(auth_data)),
        entry(CTAP2_MAKE_CREDENTIAL_RESPONSE_ATT_STMT, Cbor::Entries(statement)),
    );
    proof {
        reveal_with_fuel(CborView::plain, 2);
        let none = CborView::Entries(seq![]);
        assert(none.plain(1));
        lemma_entries_plain(item@, 1);
    }
    Ok(success(&item))
}

/// The response to authenticatorGetAssertion.
pub fn get_assertion_response(assertion: &Assertion) -> (payload: Vec<u8>)
    ensures
        payload@ == success_payload(assertion_item(assertion@)),
        crate::cbor::decodes_to(payload@.skip(1), assertion_item(assertion@)),
{
    let credential: Cbor = pair_entries(
        (text_item("id"), Cbor::Bytes(copy_bytes(&assertion.credential_id))),
        (text_item("type"), text_item("public-key")),
    );
    let item: Cbor = triple_entries(
        entry(CTAP2_GET_ASSERTION_RESPONSE_CREDENTIAL, credential),
        entry(
            CTAP2_GET_ASSERTION_RESPONSE_AUTH_DATA,
            Cbor::Bytes(copy_bytes(&assertion.authenticator_data)),
        ),
        entry(
            CTAP2_GET_ASSERTION_RESPONSE_SIGNATURE,
            Cbor::Bytes(copy_bytes(&assertion.signature)),
        ),
    );
    proof {
        reveal_with_fuel(CborView::plain, 2);
        assert(credential@.plain(1));
        lemma_entries_plain(item@, 1);
    }
    success(&item)
}

} // verus!
