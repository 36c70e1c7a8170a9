//! The parameters of CTAP2 requests.
//!
//! A request is one command byte followed by a CBOR map. Each parameter is read
//! on its own; what else the map holds does not matter.

use crate::bytes::{copy_range, padded_array};
use crate::cbor::{decode, Cbor, CborView, DecodeError, DecodeErrorView};
use crate::text::text_equal;
use vstd::prelude::*;

verus! {

/// CTAP2 authenticatorMakeCredential request key: relying party entity.
pub const CTAP2_MAKE_CREDENTIAL_RP: i64 = 2;

/// CTAP2 authenticatorMakeCredential request key: user entity.
pub const CTAP2_MAKE_CREDENTIAL_USER: i64 = 3;

/// CTAP2 authenticatorMakeCredential request key: accepted credential parameters.
pub const CTAP2_MAKE_CREDENTIAL_PUB_KEY_CRED_PARAMS: i64 = 4;

/// CTAP2 authenticatorGetAssertion request key: relying party ID.
pub const CTAP2_GET_ASSERTION_RP_ID: i64 = 1;

/// CTAP2 authenticatorGetAssertion request key: hash of the client data.
pub const CTAP2_GET_ASSERTION_CLIENT_DATA_HASH: i64 = 2;

/// CTAP2 authenticatorGetAssertion request key: accepted credentials.
pub const CTAP2_GET_ASSERTION_ALLOW_LIST: i64 = 3;

/// CTAP2 authenticatorGetAssertion request key: options.
pub const CTAP2_GET_ASSERTION_OPTIONS: i64 = 5;

/// An authenticatorGetAssertion request.
pub struct GetAssertionRequest {
    pub rp_id: String,
    pub client_data_hash: [u8; 32],
    pub allow_list: Vec<Vec<u8>>,
    pub user_presence: bool,
}

/// The contents of a [`GetAssertionRequest`].
#[verifier::ext_equal]
pub struct GetAssertionView {
    pub rp_id: Seq<char>,
    pub client_data_hash: Seq<u8>,
    pub allow_list: Seq<Seq<u8>>,
    pub user_presence: bool,
}

impl View for GetAssertionRequest {
    type V = GetAssertionView;

    open spec fn view(&self) -> GetAssertionView {
        GetAssertionView {
            rp_id: self.rp_id@,
            client_data_hash: self.client_data_hash@,
            allow_list: self.allow_list@.map_values(|id: Vec<u8>| id@),
            user_presence: self.user_presence,
        }
    }
}

/// The entries of a CBOR map, in order.
pub type EntriesView = Seq<(CborView, CborView)>;

/// The value of the first entry with the key `key`.
pub open spec fn first_value(entries: EntriesView, key: CborView) -> Option<CborView>
    decreases entries.len(),
{
    if entries.len() == 0 {
        None
    } else if entries[0].0 == key {
        Some(entries[0].1)
    } else {
        first_value(entries.skip(1), key)
    }
}

/// The value of the first entry whose key is `key` and whose value is a byte
/// string.
pub open spec fn first_bytes(entries: EntriesView, key: CborView) -> Option<Seq<u8>>
    decreases entries.len(),
{
    if entries.len() == 0 {
        None
    } else if entries[0].0 == key && entries[0].1 is Bytes {
        Some(entries[0].1->Bytes_0)
    } else {
        first_bytes(entries.skip(1), key)
    }
}

/// The value of the first entry whose key is `key` and whose value is an
/// integer of 64 bits.
pub open spec fn first_integer(entries: EntriesView, key: CborView) -> Option<i64>
    decreases entries.len(),
{
    if entries.len() == 0 {
        None
    } else if entries[0].0 == key && entries[0].1 is Integer && i64::MIN
        <= entries[0].1->Integer_0 <= i64::MAX {
        Some(entries[0].1->Integer_0 as i64)
    } else {
        first_integer(entries.skip(1), key)
    }
}

/// The relying party ID in the entries of an authenticatorMakeCredential
/// request: the `id` of the first relying party entity that has one. An entity
/// that is no map, or an `id` that is no text, ends the search.
pub open spec fn rp_id_in(entries: EntriesView) -> Option<Seq<char>>
    decreases entries.len(),
{
    if entries.len() == 0 {
        None
    } else if entries[0].0 != CborView::Integer(CTAP2_MAKE_CREDENTIAL_RP as int) {
        rp_id_in(entries.skip(1))
    } else {
        match entries[0].1 {
            CborView::Entries(fields) => match first_value(fields, CborView::Text("id"@)) {
                Some(CborView::Text(id)) => Some(id),
                Some(_) => None,
                None => rp_id_in(entries.skip(1)),
            },
            _ => None,
        }
    }
}

/// The relying party ID of an authenticatorMakeCredential request.
pub open spec fn requested_rp_id(request: CborView) -> Option<Seq<char>> {
    match request {
        CborView::Entries(entries) => rp_id_in(entries),
        _ => None,
    }
}

/// The user ID of an authenticatorMakeCredential request.
pub open spec fn requested_user_id(request: CborView) -> Option<Seq<u8>> {
    match request {
        CborView::Entries(entries) => {
            match first_value(entries, CborView::Integer(CTAP2_MAKE_CREDENTIAL_USER as int)) {
                Some(CborView::Entries(user)) => first_bytes(user, CborView::Text("id"@)),
                _ => None,
            }
        },
        _ => None,
    }
}

/// The algorithm of one credential parameter.
pub open spec fn parameter_algorithm(parameter: CborView) -> Option<i64> {
    match parameter {
        CborView::Entries(fields) => first_integer(fields, CborView::Text("alg"@)),
        _ => None,
    }
}

/// The algorithms of credential parameters, in order.
pub open spec fn parameter_algorithms(parameters: Seq<CborView>) -> Seq<i64>
    decreases parameters.len(),
{
    if parameters.len() == 0 {
        Seq::empty()
    } else {
        let before = parameter_algorithms(parameters.drop_last());
        match parameter_algorithm(parameters.last()) {
            Some(algorithm) => before.push(algorithm),
            None => before,
        }
    }
}

/// The algorithms that an authenticatorMakeCredential request accepts.
pub open spec fn requested_algorithms(request: CborView) -> Seq<i64> {
    match request {
        CborView::Entries(entries) => {
            match first_value(
                entries,
                CborView::Integer(CTAP2_MAKE_CREDENTIAL_PUB_KEY_CRED_PARAMS as int),
            ) {
                Some(CborView::Array(parameters)) => parameter_algorithms(parameters),
                _ => Seq::empty(),
            }
        },
        _ => Seq::empty(),
    }
}

/// The credential ID of a credential descriptor.
pub open spec fn descriptor_id(descriptor: CborView) -> Option<Seq<u8>> {
    match descriptor {
        CborView::Entries(fields) => first_bytes(fields, CborView::Text("id"@)),
        _ => None,
    }
}

/// The credential IDs of credential descriptors, in order.
pub open spec fn descriptor_ids(descriptors: Seq<CborView>) -> Seq<Seq<u8>>
    decreases descriptors.len(),
{
    if descriptors.len() == 0 {
        Seq::empty()
    } else {
        let before = descriptor_ids(descriptors.drop_last());
        match descriptor_id(descriptors.last()) {
            Some(id) => before.push(id),
            None => before,
        }
    }
}

/// The text of the last relying party ID that is a text.
pub open spec fn last_rp_id(entries: EntriesView) -> Option<Seq<char>>
    decreases entries.len(),
{
    if entries.len() == 0 {
        None
    } else if entries.last().0 == CborView::Integer(CTAP2_GET_ASSERTION_RP_ID as int)
        && entries.last().1 is Text {
        Some(entries.last().1->Text_0)
    } else {
        last_rp_id(entries.drop_last())
    }
}

/// The last client data hash that is a byte string, if it has 32 bytes.
pub open spec fn last_client_data_hash(entries: EntriesView) -> Option<Seq<u8>>
    decreases entries.len(),
{
    if entries.len() == 0 {
        None
    } else if entries.last().0 == CborView::Integer(CTAP2_GET_ASSERTION_CLIENT_DATA_HASH as int)
        && entries.last().1 is Bytes {
        if entries.last().1->Bytes_0.len() == 32 {
            Some(entries.last().1->Bytes_0)
        } else {
            None
        }
    } else {
        last_client_data_hash(entries.drop_last())
    }
}

/// The credential IDs of the last allow list that is an array.
pub open spec fn last_allow_list(entries: EntriesView) -> Seq<Seq<u8>>
    decreases entries.len(),
{
    if entries.len() == 0 {
        Seq::empty()
    } else if entries.last().0 == CborView::Integer(CTAP2_GET_ASSERTION_ALLOW_LIST as int)
        && entries.last().1 is Array {
        descriptor_ids(entries.last().1->Array_0)
    } else {
        last_allow_list(entries.drop_last())
    }
}

/// The last `up` option that is a boolean, or `default` where there is none.
pub open spec fn last_up_option(options: EntriesView, default: bool) -> bool
    decreases options.len(),
{
    if options.len() == 0 {
        default
    } else if options.last().0 == CborView::Text("up"@) && options.last().1 is Bool {
        options.last().1->Bool_0
    } else {
        last_up_option(options.drop_last(), default)
    }
}

/// Whether the entries ask for user presence: unless an `up` option says
/// otherwise they do.
pub open spec fn wants_user_presence(entries: EntriesView) -> bool
    decreases entries.len(),
{
    if entries.len() == 0 {
        true
    } else if entries.last().0 == CborView::Integer(CTAP2_GET_ASSERTION_OPTIONS as int)
        && entries.last().1 is Entries {
        last_up_option(entries.last().1->Entries_0, wants_user_presence(entries.drop_last()))
    } else {
        wants_user_presence(entries.drop_last())
    }
}

/// The authenticatorGetAssertion request that a CBOR item states, if it names
/// a relying party and a client data hash.
pub open spec fn requested_assertion(request: CborView) -> Option<GetAssertionView> {
    match request {
        CborView::Entries(entries) => {
            match (last_rp_id(entries), last_client_data_hash(entries)) {
                (Some(rp_id), Some(client_data_hash)) => Some(
                    GetAssertionView {
                        rp_id,
                        client_data_hash,
                        allow_list: last_allow_list(entries),
                        user_presence: wants_user_presence(entries),
                    },
                ),
                _ => None,
            }
        },
        _ => None,
    }
}

/// The CBOR item of a request payload: none where the payload holds no more
/// than the command byte.
pub open spec fn request_item(payload: Seq<u8>) -> Result<Option<CborView>, DecodeErrorView> {
    if payload.len() < 2 {
        Ok(None)
    } else {
        match crate::cbor::cbor_decoded(payload.skip(1)) {
            Ok(item) => Ok(Some(item)),
            Err(error) => Err(error),
        }
    }
}

/// A key of a CBOR map.
enum Key<'a> {
    Integer(i64),
    Text(&'a str),
}

impl<'a> Key<'a> {
    spec fn item(self) -> CborView {
        match self {
            Key::Integer(n) => CborView::Integer(n as int),
            Key::Text(text) => CborView::Text(text@),
        }
    }

    fn is(&self, item: &Cbor) -> (same: bool)
        ensures
            same == (item@ == self.item()),
    {
        match (self, item) {
            (Key::Integer(n), Cbor::Integer(k)) => *k == *n as i128,
            (Key::Text(text), Cbor::Text(t)) => text_equal(t.as_str(), text),
            _ => false,
        }
    }
}

fn find_value<'a>(entries: &'a Vec<(Cbor, Cbor)>, key: Key<'_>) -> (value: Option<&'a Cbor>)
    ensures
        match value {
            Some(v) => first_value(crate::cbor::entries_view(entries@), key.item()) == Some(v@),
            None => first_value(crate::cbor::entries_view(entries@), key.item()) is None,
        },
{
    let ghost all = crate::cbor::entries_view(entries@);
    let mut i: usize = 0;
    assert(all.skip(0) =~= all);
    while i < entries.len()
        invariant
            i <= entries@.len(),
            all == crate::cbor::entries_view(entries@),
            first_value(all, key.item()) == first_value(all.skip(i as int), key.item()),
        decreases entries@.len() - i,
    {
        assert(all.skip(i as int).skip(1) =~= all.skip(i + 1));
        if key.is(&entries[i].0) {
            return Some(&entries[i].1);
        }
        i = i + 1;
    }
    None
}

fn find_bytes(entries: &Vec<(Cbor, Cbor)>, key: Key<'_>) -> (value: Option<Vec<u8>>)
    ensures
        match value {
            Some(v) => first_bytes(crate::cbor::entries_view(entries@), key.item()) == Some(v@),
            None => first_bytes(crate::cbor::entries_view(entries@), key.item()) is None,
        },
{
    let ghost all = crate::cbor::entries_view(entries@);
    let mut i: usize = 0;
    assert(all.skip(0) =~= all);
    while i < entries.len()
        invariant
            i <= entries@.len(),
            all == crate::cbor::entries_view(entries@),
            first_bytes(all, key.item()) == first_bytes(all.skip(i as int), key.item()),
        decreases entries@.len() - i,
    {
        assert(all.skip(i as int).skip(1) =~= all.skip(i + 1));
        if key.is(&entries[i].0) {
            if let Cbor::Bytes(bytes) = &entries[i].1 {
                return Some(bytes.clone());
            }
        }
        i = i + 1;
    }
    None
}

fn find_integer(entries: &Vec<(Cbor, Cbor)>, key: Key<'_>) -> (value: Option<i64>)
    ensures
        value == first_integer(crate::cbor::entries_view(entries@), key.item()),
{
    let ghost all = crate::cbor::entries_view(entries@);
    let mut i: usize = 0;
    assert(all.skip(0) =~= all);
    while i < entries.len()
        invariant
            i <= entries@.len(),
            all == crate::cbor::entries_view(entries@),
            first_integer(all, key.item()) == first_integer(all.skip(i as int), key.item()),
        decreases entries@.len() - i,
    {
        assert(all.skip(i as int).skip(1) =~= all.skip(i + 1));
        if key.is(&entries[i].0) {
            if let Cbor::Integer(n) = &entries[i].1 {
                if i64::MIN as i128 <= *n && *n <= i64::MAX as i128 {
                    return Some(*n as i64);
                }
            }
        }
        i = i + 1;
    }
    None
}

/// Reads the relying party ID of an authenticatorMakeCredential request.
pub fn rp_id_of(request: &Cbor) -> (rp_id: Option<String>)
    ensures
        match rp_id {
            Some(id) => requested_rp_id(request@) == Some(id@),
            None => requested_rp_id(request@) is None,
        },
{
    let entries = match request {
        Cbor::Entries(entries) => entries,
        _ => return None,
    };
    proof {
        crate::cbor::lemma_entries_view(*entries);
    }
    let ghost all = crate::cbor::entries_view(entries@);
    let mut i: usize = 0;
    assert(all.skip(0) =~= all);
    while i < entries.len()
        invariant
            i <= entries@.len(),
            all == crate::cbor::entries_view(entries@),
            requested_rp_id(request@) == rp_id_in(all),
            rp_id_in(all) == rp_id_in(all.skip(i as int)),
        decreases entries@.len() - i,
    {
        assert(all.skip(i as int).skip(1) =~= all.skip(i + 1));
        if Key::Integer(CTAP2_MAKE_CREDENTIAL_RP).is(&entries[i].0) {
            match &entries[i].1 {
                Cbor::Entries(fields) => {
                    proof {
                        crate::cbor::lemma_entries_view(*fields);
                    }
                    match find_value(fields, Key::Text("id")) {
                        Some(Cbor::Text(id)) => return Some(id.clone()),
                        Some(_) => return None,
                        None => {},
                    }
                },
                _ => return None,
            }
        }
        i = i + 1;
    }
    None
}

/// Reads the user ID of an authenticatorMakeCredential request.
pub fn user_id_of(request: &Cbor) -> (user_id: Option<Vec<u8>>)
    ensures
        match user_id {
            Some(id) => requested_user_id(request@) == Some(id@),
            None => requested_user_id(request@) is None,
        },
{
    match request {
        Cbor::Entries(entries) => {
            proof {
                crate::cbor::lemma_entries_view(*entries);
            }
            match find_value(entries, Key::Integer(CTAP2_MAKE_CREDENTIAL_USER)) {
                Some(Cbor::Entries(user)) => {
                    proof {
                        crate::cbor::lemma_entries_view(*user);
                    }
                    find_bytes(user, Key::Text("id"))
                },
                _ => None,
            }
        },
        _ => None,
    }
}

/// Reads the algorithms that an authenticatorMakeCredential request accepts.
pub fn algorithms_of(request: &Cbor) -> (algorithms: Vec<i64>)
    ensures
        algorithms@ == requested_algorithms(request@),
{
    let mut algorithms: Vec<i64> = Vec::new();
    let entries = match request {
        Cbor::Entries(entries) => entries,
        _ => return algorithms,
    };
    proof {
        crate::cbor::lemma_entries_view(*entries);
    }
    let parameters = match find_value(
        entries,
        Key::Integer(CTAP2_MAKE_CREDENTIAL_PUB_KEY_CRED_PARAMS),
    ) {
        Some(Cbor::Array(parameters)) => parameters,
        _ => return algorithms,
    };
    proof {
        crate::cbor::lemma_array_view(*parameters);
    }
    let ghost all = crate::cbor::items_view(parameters@);
    let mut i: usize = 0;
    while i < parameters.len()
        invariant
            i <= parameters@.len(),
            all == crate::cbor::items_view(parameters@),
            algorithms@ == parameter_algorithms(all.take(i as int)),
        decreases parameters@.len() - i,
    {
        assert(all.take(i + 1).drop_last() =~= all.take(i as int));
        match &parameters[i] {
            Cbor::Entries(fields) => {
                proof {
                    crate::cbor::lemma_entries_view(*fields);
                }
                match find_integer(fields, Key::Text("alg")) {
                    Some(algorithm) => algorithms.push(algorithm),
                    None => {},
                }
            },
            _ => {},
        }
        i = i + 1;
    }
    assert(all.take(i as int) =~= all);
    algorithms
}

/// Reads the credential ID of a credential descriptor.
pub fn credential_descriptor_id(value: &Cbor) -> (id: Option<Vec<u8>>)
    ensures
        match id {
            Some(v) => descriptor_id(value@) == Some(v@),
            None => descriptor_id(value@) is None,
        },
{
    match value {
        Cbor::Entries(fields) => {
            proof {
                crate::cbor::lemma_entries_view(*fields);
            }
            find_bytes(fields, Key::Text("id"))
        },
        _ => None,
    }
}

fn descriptor_ids_of(descriptors: &Vec<Cbor>) -> (ids: Vec<Vec<u8>>)
    ensures
        ids@.map_values(|id: Vec<u8>| id@) == descriptor_ids(
            crate::cbor::items_view(descriptors@),
        ),
{
    let ghost all = crate::cbor::items_view(descriptors@);
    let mut ids: Vec<Vec<u8>> = Vec::new();
    let mut i: usize = 0;
    assert(ids@.map_values(|id: Vec<u8>| id@) =~= Seq::empty());
    while i < descriptors.len()
        invariant
            i <= descriptors@.len(),
            all == crate::cbor::items_view(descriptors@),
            ids@.map_values(|id: Vec<u8>| id@) == descriptor_ids(all.take(i as int)),
        decreases descriptors@.len() - i,
    {
        assert(all.take(i + 1).drop_last() =~= all.take(i as int));
        match credential_descriptor_id(&descriptors[i]) {
            Some(id) => {
                let ghost before = ids@;
                ids.push(id);
                assert(ids@.map_values(|id: Vec<u8>| id@) =~= before.map_values(
                    |id: Vec<u8>| id@,
                ).push(id@));
            },
            None => {},
        }
        i = i + 1;
    }
    assert(all.take(i as int) =~= all);
    ids
}

fn up_option_of(options: &Vec<(Cbor, Cbor)>, default: bool) -> (up: bool)
    ensures
        up == last_up_option(crate::cbor::entries_view(options@), default),
{
    let ghost all = crate::cbor::entries_view(options@);
    let mut up = default;
    let mut i: usize = 0;
    while i < options.len()
        invariant
            i <= options@.len(),
            all == crate::cbor::entries_view(options@),
            up == last_up_option(all.take(i as int), default),
        decreases options@.len() - i,
    {
        assert(all.take(i + 1).drop_last() =~= all.take(i as int));
        if Key::Text("up").is(&options[i].0) {
            if let Cbor::Bool(value) = &options[i].1 {
                up = *value;
            }
        }
        i = i + 1;
    }
    assert(all.take(i as int) =~= all);
    up
}

fn hash_of(bytes: &Vec<u8>) -> (hash: Option<[u8; 32]>)
    ensures
        match hash {
            Some(h) => h@ == bytes@,
            None => bytes@.len() != 32,
        },
{
    if bytes.len() != 32 {
        return None;
    }
    let hash: [u8; 32] = padded_array(bytes, 0);
    assert(hash@ =~= bytes@);
    Some(hash)
}

/// Reads an authenticatorGetAssertion request.
pub fn assertion_request_of(request: &Cbor) -> (parsed: Option<GetAssertionRequest>)
    ensures
        match parsed {
            Some(p) => requested_assertion(request@) == Some(p@),
            None => requested_assertion(request@) is None,
        },
{
    let entries = match request {
        Cbor::Entries(entries) => entries,
        _ => return None,
    };
    proof {
        crate::cbor::lemma_entries_view(*entries);
    }
    let ghost all = crate::cbor::entries_view(entries@);
    let mut rp_id: Option<String> = None;
    let mut client_data_hash: Option<[u8; 32]> = None;
    let mut allow_list: Vec<Vec<u8>> = Vec::new();
    let mut user_presence = true;
    let mut i: usize = 0;
    assert(allow_list@.map_values(|id: Vec<u8>| id@) =~= Seq::empty());
    while i < entries.len()
        invariant
            i <= entries@.len(),
            all == crate::cbor::entries_view(entries@),
            match rp_id {
                Some(id) => last_rp_id(all.take(i as int)) == Some(id@),
                None => last_rp_id(all.take(i as int)) is None,
            },
            match client_data_hash {
                Some(hash) => last_client_data_hash(all.take(i as int)) == Some(hash@),
                None => last_client_data_hash(all.take(i as int)) is None,
            },
            allow_list@.map_values(|id: Vec<u8>| id@) == last_allow_list(all.take(i as int)),
            user_presence == wants_user_presence(all.take(i as int)),
        decreases entries@.len() - i,
    {
        assert(all.take(i + 1).drop_last() =~= all.take(i as int));
        assert(all.take(i + 1).last() == all[i as int]);
        let key = &entries[i].0;
        let value = &entries[i].1;
        if Key::Integer(CTAP2_GET_ASSERTION_RP_ID).is(key) {
            if let Cbor::Text(id) = value {
                rp_id = Some(id.clone());
            }
        } else if Key::Integer(CTAP2_GET_ASSERTION_CLIENT_DATA_HASH).is(key) {
            if let Cbor::Bytes(bytes) = value {
                client_data_hash = hash_of(bytes);
            }
        } else if Key::Integer(CTAP2_GET_ASSERTION_ALLOW_LIST).is(key) {
            if let Cbor::Array(descriptors) = value {
                proof {
                    crate::cbor::lemma_array_view(*descriptors);
                }
                allow_list = descriptor_ids_of(descriptors);
            }
        } else if Key::Integer(CTAP2_GET_ASSERTION_OPTIONS).is(key) {
            if let Cbor::Entries(options) = value {
                proof {
                    crate::cbor::lemma_entries_view(*options);
                }
                user_presence = up_option_of(options, user_presence);
            }
        }
        i = i + 1;
    }
    assert(all.take(i as int) =~= all);
    match (rp_id, client_data_hash) {
        (Some(rp_id), Some(client_data_hash)) => Some(
            GetAssertionRequest { rp_id, client_data_hash, allow_list, user_presence },
        ),
        _ => None,
    }
}

/// Reads the CBOR item of a request payload.
pub fn decode_request(payload: &[u8]) -> (request: Result<Option<Cbor>, DecodeError>)
    ensures
        match request {
            Ok(Some(item)) => request_item(payload@) == Ok::<_, DecodeErrorView>(Some(item@)),
            Ok(None) => request_item(payload@) == Ok::<_, DecodeErrorView>(None::<CborView>),
            Err(error) => request_item(payload@) == Err::<Option<CborView>, _>(error@),
        },
{
    if payload.len() < 2 {
        return Ok(None);
    }
    let body: Vec<u8> = copy_range(payload, 1, payload.len());
    assert(body@ =~= payload@.skip(1));
    match decode(&body) {
        Ok(item) => Ok(Some(item)),
        Err(error) => Err(error),
    }
}

/// Reads an authenticatorGetAssertion request from its payload.
pub fn parse_get_assertion_request(payload: &[u8]) -> (parsed: Result<
    Option<GetAssertionRequest>,
    DecodeError,
>)
    ensures
        match request_item(payload@) {
            Ok(Some(item)) => match requested_assertion(item) {
                Some(request) => parsed matches Ok(Some(p)) && p@ == request,
                None => parsed matches Ok(None),
            },
            Ok(None) => parsed matches Ok(None),
            Err(error) => parsed matches Err(e) && e@ == error,
        },
{
    match decode_request(payload) {
        Ok(Some(request)) => Ok(assertion_request_of(&request)),
        Ok(None) => Ok(None),
        Err(error) => Err(error),
    }
}

/// Reads the relying party ID of an authenticatorMakeCredential request from
/// its payload.
pub fn make_credential_rp_id(payload: &[u8]) -> (rp_id: Result<Option<String>, DecodeError>)
    ensures
        match request_item(payload@) {
            Ok(Some(item)) => match requested_rp_id(item) {
                Some(id) => rp_id matches Ok(Some(r)) && r@ == id,
                None => rp_id matches Ok(None),
            },
            Ok(None) => rp_id matches Ok(None),
            Err(error) => rp_id matches Err(e) && e@ == error,
        },
{
    match decode_request(payload) {
        Ok(Some(request)) => Ok(rp_id_of(&request)),
        Ok(None) => Ok(None),
        Err(error) => Err(error),
    }
}

/// Reads the user ID of an authenticatorMakeCredential request from its
/// payload.
pub fn make_credential_user_id(payload: &[u8]) -> (user_id: Result<Option<Vec<u8>>, DecodeError>)
    ensures
        match request_item(payload@) {
            Ok(Some(item)) => match requested_user_id(item) {
                Some(id) => user_id matches Ok(Some(u)) && u@ == id,
                None => user_id matches Ok(None),
            },
            Ok(None) => user_id matches Ok(None),
            Err(error) => user_id matches Err(e) && e@ == error,
        },
{
    match decode_request(payload) {
        Ok(Some(request)) => Ok(user_id_of(&request)),
        Ok(None) => Ok(None),
        Err(error) => Err(error),
    }
}

/// Reads the algorithms that an authenticatorMakeCredential request accepts
/// from its payload.
pub fn make_credential_algorithms(payload: &[u8]) -> (algorithms: Result<Vec<i64>, DecodeError>)
    ensures
        match request_item(payload@) {
            Ok(Some(item)) => algorithms matches Ok(a) && a@ == requested_algorithms(item),
            Ok(None) => algorithms matches Ok(a) && a@ == Seq::<i64>::empty(),
            Err(error) => algorithms matches Err(e) && e@ == error,
        },
{
    match decode_request(payload) {
        Ok(Some(request)) => Ok(algorithms_of(&request)),
        Ok(None) => Ok(Vec::new()),
        Err(error) => Err(error),
    }
}

/// A command byte followed by what writing out an item gives is read as that
/// item.
pub proof fn law_written_requests_are_read_back(command: u8, item: CborView, encoded: Seq<u8>)
    requires
        encoded.len() > 0,
        crate::cbor::decodes_to(encoded, item),
    ensures
        request_item(seq![command] + encoded) == Ok::<_, DecodeErrorView>(Some(item)),
{
    assert((seq![command] + encoded).skip(1) =~= encoded);
}

/// An entry that the authenticatorMakeCredential command does not know does not
/// matter, wherever it stands.
pub proof fn law_unknown_registration_parameters_do_not_matter(
    before: EntriesView,
    extra: (CborView, CborView),
    after: EntriesView,
)
    requires
        extra.0 != CborView::Integer(CTAP2_MAKE_CREDENTIAL_RP as int),
        extra.0 != CborView::Integer(CTAP2_MAKE_CREDENTIAL_USER as int),
        extra.0 != CborView::Integer(CTAP2_MAKE_CREDENTIAL_PUB_KEY_CRED_PARAMS as int),
    ensures
        ({
            let with = CborView::Entries(before.push(extra) + after);
            let without = CborView::Entries(before + after);
            &&& requested_rp_id(with) == requested_rp_id(without)
            &&& requested_user_id(with) == requested_user_id(without)
            &&& requested_algorithms(with) == requested_algorithms(without)
        }),
{
    lemma_rp_id_without_extra(before, extra, after);
    lemma_first_value_without_extra(
        before,
        extra,
        after,
        CborView::Integer(CTAP2_MAKE_CREDENTIAL_USER as int),
    );
    lemma_first_value_without_extra(
        before,
        extra,
        after,
        CborView::Integer(CTAP2_MAKE_CREDENTIAL_PUB_KEY_CRED_PARAMS as int),
    );
}

proof fn lemma_first_value_without_extra(
    before: EntriesView,
    extra: (CborView, CborView),
    after: EntriesView,
    key: CborView,
)
    requires
        extra.0 != key,
    ensures
        first_value(before.push(extra) + after, key) == first_value(before + after, key),
    decreases before.len(),
{
    let with = before.push(extra) + after;
    let without = before + after;
    if before.len() == 0 {
        assert(with[0] == extra);
        assert(with.skip(1) =~= after);
        assert(without =~= after);
    } else {
        assert(with[0] == before[0] && without[0] == before[0]);
        assert(with.skip(1) =~= before.skip(1).push(extra) + after);
        assert(without.skip(1) =~= before.skip(1) + after);
        lemma_first_value_without_extra(before.skip(1), extra, after, key);
    }
}

proof fn lemma_rp_id_without_extra(
    before: EntriesView,
    extra: (CborView, CborView),
    after: EntriesView,
)
    requires
        extra.0 != CborView::Integer(CTAP2_MAKE_CREDENTIAL_RP as int),
    ensures
        rp_id_in(before.push(extra) + after) == rp_id_in(before + after),
    decreases before.len(),
{
    let with = before.push(extra) + after;
    let without = before + after;
    if before.len() == 0 {
        assert(with[0] == extra);
        assert(with.skip(1) =~= after);
        assert(without =~= after);
    } else {
        assert(with[0] == before[0] && without[0] == before[0]);
        assert(with.skip(1) =~= before.skip(1).push(extra) + after);
        assert(without.skip(1) =~= before.skip(1) + after);
        lemma_rp_id_without_extra(before.skip(1), extra, after);
    }
}

/// An entry that the authenticatorGetAssertion command does not know does not
/// matter, wherever it stands.
pub proof fn law_unknown_assertion_parameters_do_not_matter(
    before: EntriesView,
    extra: (CborView, CborView),
    after: EntriesView,
)
    requires
        extra.0 != CborView::Integer(CTAP2_GET_ASSERTION_RP_ID as int),
        extra.0 != CborView::Integer(CTAP2_GET_ASSERTION_CLIENT_DATA_HASH as int),
        extra.0 != CborView::Integer(CTAP2_GET_ASSERTION_ALLOW_LIST as int),
        extra.0 != CborView::Integer(CTAP2_GET_ASSERTION_OPTIONS as int),
    ensures
        requested_assertion(CborView::Entries(before.push(extra) + after)) == requested_assertion(
            CborView::Entries(before + after),
        ),
{
    lemma_last_values_without_extra(before, extra, after);
}

proof fn lemma_last_values_without_extra(
    before: EntriesView,
    extra: (CborView, CborView),
    after: EntriesView,
)
    requires
        extra.0 != CborView::Integer(CTAP2_GET_ASSERTION_RP_ID as int),
        extra.0 != CborView::Integer(CTAP2_GET_ASSERTION_CLIENT_DATA_HASH as int),
        extra.0 != CborView::Integer(CTAP2_GET_ASSERTION_ALLOW_LIST as int),
        extra.0 != CborView::Integer(CTAP2_GET_ASSERTION_OPTIONS as int),
    ensures
        ({
            let with = before.push(extra) + after;
            let without = before + after;
            &&& last_rp_id(with) == last_rp_id(without)
            &&& last_client_data_hash(with) == last_client_data_hash(without)
            &&& last_allow_list(with) == last_allow_list(without)
            &&& wants_user_presence(with) == wants_user_presence(without)
        }),
    decreases after.len(),
{
    let with = before.push(extra) + after;
    let without = before + after;
    if after.len() == 0 {
        assert(with.last() == extra);
        assert(with.drop_last() =~= before);
        assert(without =~= before);
    } else {
        assert(with.last() == after.last() && without.last() == after.last());
        assert(with.drop_last() =~= before.push(extra) + after.drop_last());
        assert(without.drop_last() =~= before + after.drop_last());
        lemma_last_values_without_extra(before, extra, after.drop_last());
    }
}

} // verus!
