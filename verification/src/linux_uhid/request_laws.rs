//! What the parameters of a request are, by where they stand in it.

use super::requests::{EntriesView, GetAssertionView};
use crate::cbor::CborView;
use vstd::prelude::*;

verus! {

proof fn lemma_first_value_at(entries: EntriesView, key: CborView, at: int)
    requires
        0 <= at < entries.len(),
        entries[at].0 == key,
        forall|k: int| 0 <= k < at ==> (#[trigger] entries[k]).0 != key,
    ensures
        super::requests::first_value(entries, key) == Some(entries[at].1),
    decreases at,
{
    if at > 0 {
        let rest = entries.skip(1);
        assert(entries[0].0 != key);
        assert forall|k: int| 0 <= k < at - 1 implies (#[trigger] rest[k]).0 != key by {
            assert(rest[k] == entries[k + 1]);
        }
        lemma_first_value_at(rest, key, at - 1);
    }
}

proof fn lemma_no_first_value(entries: EntriesView, key: CborView)
    requires
        forall|k: int| 0 <= k < entries.len() ==> (#[trigger] entries[k]).0 != key,
    ensures
        super::requests::first_value(entries, key) is None,
    decreases entries.len(),
{
    if entries.len() > 0 {
        let rest = entries.skip(1);
        assert forall|k: int| 0 <= k < rest.len() implies (#[trigger] rest[k]).0 != key by {
            assert(rest[k] == entries[k + 1]);
        }
        lemma_no_first_value(rest, key);
    }
}

/// Where the first entry with a key stands.
proof fn lemma_first_value_stands(entries: EntriesView, key: CborView) -> (at: int)
    requires
        super::requests::first_value(entries, key) is Some,
    ensures
        0 <= at < entries.len(),
        entries[at].0 == key,
        Some(entries[at].1) == super::requests::first_value(entries, key),
        forall|k: int| 0 <= k < at ==> (#[trigger] entries[k]).0 != key,
    decreases entries.len(),
{
    if entries[0].0 == key {
        0
    } else {
        let rest = entries.skip(1);
        let at = lemma_first_value_stands(rest, key);
        assert(rest[at] == entries[at + 1]);
        assert forall|k: int| 0 <= k < at + 1 implies (#[trigger] entries[k]).0 != key by {
            if k > 0 {
                assert(rest[k - 1] == entries[k]);
            }
        }
        at + 1
    }
}

proof fn lemma_first_bytes_at(entries: EntriesView, key: CborView, at: int)
    requires
        0 <= at < entries.len(),
        entries[at].0 == key,
        entries[at].1 is Bytes,
        forall|k: int|
            0 <= k < at ==> !((#[trigger] entries[k]).0 == key && entries[k].1 is Bytes),
    ensures
        super::requests::first_bytes(entries, key) == Some(entries[at].1->Bytes_0),
    decreases at,
{
    if at > 0 {
        let rest = entries.skip(1);
        assert(!(entries[0].0 == key && entries[0].1 is Bytes));
        assert forall|k: int| 0 <= k < at - 1 implies !((#[trigger] rest[k]).0 == key
            && rest[k].1 is Bytes) by {
            assert(rest[k] == entries[k + 1]);
        }
        lemma_first_bytes_at(rest, key, at - 1);
    }
}

proof fn lemma_no_first_bytes(entries: EntriesView, key: CborView)
    requires
        forall|k: int|
            0 <= k < entries.len() ==> !((#[trigger] entries[k]).0 == key && entries[k].1 is Bytes),
    ensures
        super::requests::first_bytes(entries, key) is None,
    decreases entries.len(),
{
    if entries.len() > 0 {
        let rest = entries.skip(1);
        assert forall|k: int| 0 <= k < rest.len() implies !((#[trigger] rest[k]).0 == key
            && rest[k].1 is Bytes) by {
            assert(rest[k] == entries[k + 1]);
        }
        lemma_no_first_bytes(rest, key);
    }
}

spec fn is_i64(item: CborView) -> bool {
    item is Integer && i64::MIN <= item->Integer_0 <= i64::MAX
}

proof fn lemma_first_integer_at(entries: EntriesView, key: CborView, at: int)
    requires
        0 <= at < entries.len(),
        entries[at].0 == key,
        is_i64(entries[at].1),
        forall|k: int|
            0 <= k < at ==> !((#[trigger] entries[k]).0 == key && is_i64(entries[k].1)),
    ensures
        super::requests::first_integer(entries, key) == Some(entries[at].1->Integer_0 as i64),
    decreases at,
{
    if at > 0 {
        let rest = entries.skip(1);
        assert(!(entries[0].0 == key && is_i64(entries[0].1)));
        assert forall|k: int| 0 <= k < at - 1 implies !((#[trigger] rest[k]).0 == key && is_i64(
            rest[k].1,
        )) by {
            assert(rest[k] == entries[k + 1]);
        }
        lemma_first_integer_at(rest, key, at - 1);
    }
}

proof fn lemma_no_first_integer(entries: EntriesView, key: CborView)
    requires
        forall|k: int|
            0 <= k < entries.len() ==> !((#[trigger] entries[k]).0 == key && is_i64(
                entries[k].1,
            )),
    ensures
        super::requests::first_integer(entries, key) is None,
    decreases entries.len(),
{
    if entries.len() > 0 {
        let rest = entries.skip(1);
        assert forall|k: int| 0 <= k < rest.len() implies !((#[trigger] rest[k]).0 == key
            && is_i64(rest[k].1)) by {
            assert(rest[k] == entries[k + 1]);
        }
        lemma_no_first_integer(rest, key);
    }
}

/// The relying party ID of a registration request is the text under the key
/// `id` of its relying party entity, which is the map under the key 2, wherever
/// the two stand and whatever else the request and the entity hold. An entity
/// without the key `id` is passed over.
pub proof fn law_relying_party_id_is_the_text_under_id(
    entries: EntriesView,
    at: int,
    entity: EntriesView,
    id_at: int,
    id: Seq<char>,
)
    requires
        0 <= at < entries.len(),
        entries[at] == (CborView::Integer(2), CborView::Entries(entity)),
        forall|k: int|
            0 <= k < at && (#[trigger] entries[k]).0 == CborView::Integer(2) ==> {
                &&& entries[k].1 is Entries
                &&& forall|j: int|
                    0 <= j < entries[k].1->Entries_0.len() ==> (
                    #[trigger] entries[k].1->Entries_0[j]).0 != CborView::Text("id"@)
            },
        0 <= id_at < entity.len(),
        entity[id_at] == (CborView::Text("id"@), CborView::Text(id)),
        forall|j: int| 0 <= j < id_at ==> (#[trigger] entity[j]).0 != CborView::Text("id"@),
    ensures
        super::requests::requested_rp_id(CborView::Entries(entries)) == Some(id),
    decreases at,
{
    let key = CborView::Text("id"@);
    if at == 0 {
        lemma_first_value_at(entity, key, id_at);
    } else {
        let rest = entries.skip(1);
        if entries[0].0 == CborView::Integer(2) {
            lemma_no_first_value(entries[0].1->Entries_0, key);
        }
        assert(rest[at - 1] == entries[at]);
        assert forall|k: int|
            0 <= k < at - 1 && (#[trigger] rest[k]).0 == CborView::Integer(2) implies {
            &&& rest[k].1 is Entries
            &&& forall|j: int|
                0 <= j < rest[k].1->Entries_0.len() ==> (#[trigger] rest[k].1->Entries_0[j]).0
                    != CborView::Text("id"@)
        } by {
            assert(rest[k] == entries[k + 1]);
        }
        law_relying_party_id_is_the_text_under_id(rest, at - 1, entity, id_at, id);
    }
}

/// A registration request has no relying party ID but a text under the key `id`
/// of a map under the key 2.
pub proof fn law_relying_party_id_stands_in_the_request(request: CborView, id: Seq<char>)
    requires
        super::requests::requested_rp_id(request) == Some(id),
    ensures
        request is Entries,
        exists|at: int, id_at: int|
            #![trigger request->Entries_0[at], request->Entries_0[at].1->Entries_0[id_at]]
            {
                let entries = request->Entries_0;
                &&& 0 <= at < entries.len()
                &&& entries[at].0 == CborView::Integer(2)
                &&& entries[at].1 is Entries
                &&& 0 <= id_at < entries[at].1->Entries_0.len()
                &&& entries[at].1->Entries_0[id_at] == (
                    CborView::Text("id"@),
                    CborView::Text(id),
                )
            },
    decreases request->Entries_0.len(),
{
    let entries = request->Entries_0;
    let key = CborView::Text("id"@);
    if entries[0].0 == CborView::Integer(2) && super::requests::first_value(
        entries[0].1->Entries_0,
        key,
    ) is Some {
        let id_at = lemma_first_value_stands(entries[0].1->Entries_0, key);
        assert(entries[0].1->Entries_0[id_at] == (key, CborView::Text(id)));
    } else {
        let rest = entries.skip(1);
        law_relying_party_id_stands_in_the_request(CborView::Entries(rest), id);
        let (at, id_at) = choose|at: int, id_at: int|
            #![trigger rest[at], rest[at].1->Entries_0[id_at]]
            {
                &&& 0 <= at < rest.len()
                &&& rest[at].0 == CborView::Integer(2)
                &&& rest[at].1 is Entries
                &&& 0 <= id_at < rest[at].1->Entries_0.len()
                &&& rest[at].1->Entries_0[id_at] == (CborView::Text("id"@), CborView::Text(id))
            };
        assert(rest[at] == entries[at + 1]);
        assert(entries[at + 1].1->Entries_0[id_at] == (key, CborView::Text(id)));
    }
}

/// The user ID of a registration request is the first byte string under the key
/// `id` of its user entity, which is the map under the key 3, wherever the two
/// stand and whatever else the request and the entity hold.
pub proof fn law_user_id_is_the_byte_string_under_id(
    entries: EntriesView,
    at: int,
    entity: EntriesView,
    id_at: int,
    id: Seq<u8>,
)
    requires
        0 <= at < entries.len(),
        entries[at] == (CborView::Integer(3), CborView::Entries(entity)),
        forall|k: int| 0 <= k < at ==> (#[trigger] entries[k]).0 != CborView::Integer(3),
        0 <= id_at < entity.len(),
        entity[id_at] == (CborView::Text("id"@), CborView::Bytes(id)),
        forall|j: int|
            0 <= j < id_at ==> !((#[trigger] entity[j]).0 == CborView::Text("id"@)
                && entity[j].1 is Bytes),
    ensures
        super::requests::requested_user_id(CborView::Entries(entries)) == Some(id),
{
    lemma_first_value_at(entries, CborView::Integer(3), at);
    lemma_first_bytes_at(entity, CborView::Text("id"@), id_at);
}

/// A user entity without a byte string under the key `id` gives no user ID.
pub proof fn law_without_a_byte_string_there_is_no_user_id(
    entries: EntriesView,
    at: int,
    entity: EntriesView,
)
    requires
        0 <= at < entries.len(),
        entries[at] == (CborView::Integer(3), CborView::Entries(entity)),
        forall|k: int| 0 <= k < at ==> (#[trigger] entries[k]).0 != CborView::Integer(3),
        forall|j: int|
            0 <= j < entity.len() ==> !((#[trigger] entity[j]).0 == CborView::Text("id"@)
                && entity[j].1 is Bytes),
    ensures
        super::requests::requested_user_id(CborView::Entries(entries)) is None,
{
    lemma_first_value_at(entries, CborView::Integer(3), at);
    lemma_no_first_bytes(entity, CborView::Text("id"@));
}

/// A request without a user entity, or whose first one is no map, has no user ID.
pub proof fn law_without_a_user_entity_there_is_no_user_id(request: CborView)
    requires
        request matches CborView::Entries(entries) ==> {
            ||| forall|k: int|
                0 <= k < entries.len() ==> (#[trigger] entries[k]).0 != CborView::Integer(3)
            ||| exists|at: int|
                0 <= at < entries.len() && (#[trigger] entries[at]).0 == CborView::Integer(3) && !(
                entries[at].1 is Entries) && forall|k: int|
                    0 <= k < at ==> (#[trigger] entries[k]).0 != CborView::Integer(3)
        },
    ensures
        super::requests::requested_user_id(request) is None,
{
    if let CborView::Entries(entries) = request {
        if forall|k: int|
            0 <= k < entries.len() ==> (#[trigger] entries[k]).0 != CborView::Integer(3) {
            lemma_no_first_value(entries, CborView::Integer(3));
        } else {
            let at = choose|at: int|
                0 <= at < entries.len() && (#[trigger] entries[at]).0 == CborView::Integer(3) && !(
                entries[at].1 is Entries) && forall|k: int|
                    0 <= k < at ==> (#[trigger] entries[k]).0 != CborView::Integer(3);
            lemma_first_value_at(entries, CborView::Integer(3), at);
        }
    }
}

proof fn lemma_algorithms_join(first: Seq<CborView>, second: Seq<CborView>)
    ensures
        super::requests::parameter_algorithms(first + second)
            == super::requests::parameter_algorithms(first)
            + super::requests::parameter_algorithms(second),
    decreases second.len(),
{
    let all = first + second;
    if second.len() == 0 {
        assert(all =~= first);
        assert(super::requests::parameter_algorithms(first)
            + super::requests::parameter_algorithms(second)
            =~= super::requests::parameter_algorithms(first));
    } else {
        assert(all.drop_last() =~= first + second.drop_last());
        assert(all.last() == second.last());
        lemma_algorithms_join(first, second.drop_last());
        assert(super::requests::parameter_algorithms(all)
            =~= super::requests::parameter_algorithms(first)
            + super::requests::parameter_algorithms(second));
    }
}

/// Whether the parameter list of a registration request, the first value under
/// the key 4, is `parameters`.
pub open spec fn offers_list(request: CborView, at: int, parameters: Seq<CborView>) -> bool {
    &&& request is Entries
    &&& 0 <= at < request->Entries_0.len()
    &&& request->Entries_0[at] == (CborView::Integer(4), CborView::Array(parameters))
    &&& forall|k: int|
        0 <= k < at ==> (#[trigger] request->Entries_0[k]).0 != CborView::Integer(4)
}

/// The algorithms of a parameter list that is two lists joined are those of the
/// first followed by those of the second, whatever else the three requests hold.
pub proof fn law_offered_algorithms_join(
    request: CborView,
    at: int,
    one: CborView,
    one_at: int,
    first: Seq<CborView>,
    other: CborView,
    other_at: int,
    second: Seq<CborView>,
)
    requires
        offers_list(request, at, first + second),
        offers_list(one, one_at, first),
        offers_list(other, other_at, second),
    ensures
        super::requests::requested_algorithms(request)
            == super::requests::requested_algorithms(one)
            + super::requests::requested_algorithms(other),
{
    lemma_first_value_at(request->Entries_0, CborView::Integer(4), at);
    lemma_first_value_at(one->Entries_0, CborView::Integer(4), one_at);
    lemma_first_value_at(other->Entries_0, CborView::Integer(4), other_at);
    lemma_algorithms_join(first, second);
}

/// The algorithm of a credential parameter is the first 64-bit integer under its
/// key `alg`, whatever other keys it has; a list of that parameter alone gives
/// that algorithm alone.
pub proof fn law_offered_algorithm_is_the_integer_under_alg(
    request: CborView,
    at: int,
    fields: EntriesView,
    alg_at: int,
    algorithm: i64,
)
    requires
        offers_list(request, at, seq![CborView::Entries(fields)]),
        0 <= alg_at < fields.len(),
        fields[alg_at] == (CborView::Text("alg"@), CborView::Integer(algorithm as int)),
        forall|j: int|
            0 <= j < alg_at && (#[trigger] fields[j]).0 == CborView::Text("alg"@) ==> !(
            fields[j].1 matches CborView::Integer(n) && i64::MIN <= n <= i64::MAX),
    ensures
        super::requests::requested_algorithms(request) == seq![algorithm],
{
    let list = seq![CborView::Entries(fields)];
    lemma_first_value_at(request->Entries_0, CborView::Integer(4), at);
    lemma_first_integer_at(fields, CborView::Text("alg"@), alg_at);
    assert(list.drop_last() =~= Seq::empty());
    assert(super::requests::parameter_algorithms(list.drop_last()) =~= Seq::empty());
    assert(super::requests::requested_algorithms(request) =~= seq![algorithm]);
}

/// A parameter that is no map, or has no 64-bit integer under the key `alg`,
/// offers no algorithm.
pub proof fn law_other_parameters_offer_no_algorithm(
    request: CborView,
    at: int,
    parameter: CborView,
)
    requires
        offers_list(request, at, seq![parameter]),
        parameter matches CborView::Entries(fields) ==> forall|j: int|
            0 <= j < fields.len() && (#[trigger] fields[j]).0 == CborView::Text("alg"@) ==> !(
            fields[j].1 matches CborView::Integer(n) && i64::MIN <= n <= i64::MAX),
    ensures
        super::requests::requested_algorithms(request) == Seq::<i64>::empty(),
{
    let list = seq![parameter];
    lemma_first_value_at(request->Entries_0, CborView::Integer(4), at);
    if let CborView::Entries(fields) = parameter {
        lemma_no_first_integer(fields, CborView::Text("alg"@));
    }
    assert(list.drop_last() =~= Seq::empty());
    assert(super::requests::parameter_algorithms(list.drop_last()) =~= Seq::empty());
}

/// A request that is no map, has nothing under the key 4, or has something else
/// than a list there first, offers no algorithm.
pub proof fn law_without_parameters_no_algorithm_is_offered(request: CborView)
    requires
        request matches CborView::Entries(entries) ==> {
            ||| forall|k: int|
                0 <= k < entries.len() ==> (#[trigger] entries[k]).0 != CborView::Integer(4)
            ||| exists|at: int|
                0 <= at < entries.len() && (#[trigger] entries[at]).0 == CborView::Integer(4) && !(
                entries[at].1 is Array) && forall|k: int|
                    0 <= k < at ==> (#[trigger] entries[k]).0 != CborView::Integer(4)
        },
    ensures
        super::requests::requested_algorithms(request) == Seq::<i64>::empty(),
{
    if let CborView::Entries(entries) = request {
        if forall|k: int|
            0 <= k < entries.len() ==> (#[trigger] entries[k]).0 != CborView::Integer(4) {
            lemma_no_first_value(entries, CborView::Integer(4));
        } else {
            let at = choose|at: int|
                0 <= at < entries.len() && (#[trigger] entries[at]).0 == CborView::Integer(4) && !(
                entries[at].1 is Array) && forall|k: int|
                    0 <= k < at ==> (#[trigger] entries[k]).0 != CborView::Integer(4);
            lemma_first_value_at(entries, CborView::Integer(4), at);
        }
    }
}

/// A list of parameters that each state an algorithm offers exactly these, each
/// at its place.
pub proof fn law_every_stated_algorithm_is_offered(
    request: CborView,
    at: int,
    parameters: Seq<CborView>,
    alg_at: Seq<int>,
    algorithms: Seq<i64>,
)
    requires
        offers_list(request, at, parameters),
        parameters.len() == algorithms.len(),
        alg_at.len() == algorithms.len(),
        forall|i: int|
            0 <= i < parameters.len() ==> (#[trigger] parameters[i] matches CborView::Entries(
                fields,
            ) && 0 <= alg_at[i] < fields.len() && fields[alg_at[i]] == (
                CborView::Text("alg"@),
                CborView::Integer(algorithms[i] as int),
            ) && forall|j: int|
                0 <= j < alg_at[i] ==> (#[trigger] fields[j]).0 != CborView::Text("alg"@)),
    ensures
        super::requests::requested_algorithms(request) == algorithms,
{
    lemma_first_value_at(request->Entries_0, CborView::Integer(4), at);
    lemma_stated_algorithms(parameters, alg_at, algorithms);
}

proof fn lemma_stated_algorithms(
    parameters: Seq<CborView>,
    alg_at: Seq<int>,
    algorithms: Seq<i64>,
)
    requires
        parameters.len() == algorithms.len(),
        alg_at.len() == algorithms.len(),
        forall|i: int|
            0 <= i < parameters.len() ==> (#[trigger] parameters[i] matches CborView::Entries(
                fields,
            ) && 0 <= alg_at[i] < fields.len() && fields[alg_at[i]] == (
                CborView::Text("alg"@),
                CborView::Integer(algorithms[i] as int),
            ) && forall|j: int|
                0 <= j < alg_at[i] ==> (#[trigger] fields[j]).0 != CborView::Text("alg"@)),
    ensures
        super::requests::parameter_algorithms(parameters) == algorithms,
    decreases parameters.len(),
{
    if parameters.len() > 0 {
        let n = parameters.len() - 1;
        let rest = parameters.drop_last();
        assert(parameters[n] is Entries);
        lemma_first_integer_at(parameters[n]->Entries_0, CborView::Text("alg"@), alg_at[n]);
        assert forall|i: int| 0 <= i < rest.len() implies (#[trigger] rest[i]
            matches CborView::Entries(fields) && 0 <= alg_at.drop_last()[i] < fields.len()
            && fields[alg_at.drop_last()[i]] == (
            CborView::Text("alg"@),
            CborView::Integer(algorithms.drop_last()[i] as int),
        ) && forall|j: int|
            0 <= j < alg_at.drop_last()[i] ==> (#[trigger] fields[j]).0 != CborView::Text(
                "alg"@,
            )) by {
            assert(rest[i] == parameters[i]);
        }
        lemma_stated_algorithms(rest, alg_at.drop_last(), algorithms.drop_last());
        assert(algorithms.drop_last().push(algorithms[n]) =~= algorithms);
    } else {
        assert(algorithms =~= Seq::empty());
    }
}

proof fn lemma_last_rp_id_at(entries: EntriesView, at: int)
    requires
        0 <= at < entries.len(),
        entries[at].0 == CborView::Integer(1),
        entries[at].1 is Text,
        forall|k: int|
            at < k < entries.len() ==> !((#[trigger] entries[k]).0 == CborView::Integer(1)
                && entries[k].1 is Text),
    ensures
        super::requests::last_rp_id(entries) == Some(entries[at].1->Text_0),
    decreases entries.len(),
{
    if at < entries.len() - 1 {
        assert(!(entries.last().0 == CborView::Integer(1) && entries.last().1 is Text));
        lemma_last_rp_id_at(entries.drop_last(), at);
    }
}

proof fn lemma_no_last_rp_id(entries: EntriesView)
    requires
        forall|k: int|
            0 <= k < entries.len() ==> !((#[trigger] entries[k]).0 == CborView::Integer(1)
                && entries[k].1 is Text),
    ensures
        super::requests::last_rp_id(entries) is None,
    decreases entries.len(),
{
    if entries.len() > 0 {
        assert(!(entries[entries.len() - 1].0 == CborView::Integer(1)
            && entries[entries.len() - 1].1 is Text));
        lemma_no_last_rp_id(entries.drop_last());
    }
}

proof fn lemma_last_hash_at(entries: EntriesView, at: int)
    requires
        0 <= at < entries.len(),
        entries[at].0 == CborView::Integer(2),
        entries[at].1 is Bytes,
        forall|k: int|
            at < k < entries.len() ==> !((#[trigger] entries[k]).0 == CborView::Integer(2)
                && entries[k].1 is Bytes),
    ensures
        super::requests::last_client_data_hash(entries) == (if entries[at].1->Bytes_0.len() == 32 {
            Some(entries[at].1->Bytes_0)
        } else {
            None
        }),
    decreases entries.len(),
{
    if at < entries.len() - 1 {
        assert(!(entries.last().0 == CborView::Integer(2) && entries.last().1 is Bytes));
        lemma_last_hash_at(entries.drop_last(), at);
    }
}

proof fn lemma_no_last_hash(entries: EntriesView)
    requires
        forall|k: int|
            0 <= k < entries.len() ==> !((#[trigger] entries[k]).0 == CborView::Integer(2)
                && entries[k].1 is Bytes),
    ensures
        super::requests::last_client_data_hash(entries) is None,
    decreases entries.len(),
{
    if entries.len() > 0 {
        assert(!(entries[entries.len() - 1].0 == CborView::Integer(2)
            && entries[entries.len() - 1].1 is Bytes));
        lemma_no_last_hash(entries.drop_last());
    }
}

/// An assertion request is for the last text under the key 1, with the last byte
/// string under the key 2 as its client data hash, which has 32 bytes, whatever
/// else the request holds.
pub proof fn law_assertion_requests_name_relying_party_and_hash(
    entries: EntriesView,
    rp_at: int,
    rp_id: Seq<char>,
    hash_at: int,
    hash: Seq<u8>,
)
    requires
        0 <= rp_at < entries.len(),
        entries[rp_at] == (CborView::Integer(1), CborView::Text(rp_id)),
        forall|k: int|
            rp_at < k < entries.len() ==> !((#[trigger] entries[k]).0 == CborView::Integer(1)
                && entries[k].1 is Text),
        0 <= hash_at < entries.len(),
        entries[hash_at] == (CborView::Integer(2), CborView::Bytes(hash)),
        forall|k: int|
            hash_at < k < entries.len() ==> !((#[trigger] entries[k]).0 == CborView::Integer(2)
                && entries[k].1 is Bytes),
    ensures
        match super::requests::requested_assertion(CborView::Entries(entries)) {
            Some(request) => {
                &&& hash.len() == 32
                &&& request.rp_id == rp_id
                &&& request.client_data_hash == hash
            },
            None => hash.len() != 32,
        },
{
    lemma_last_rp_id_at(entries, rp_at);
    lemma_last_hash_at(entries, hash_at);
}

/// What is no map, or lacks a text under the key 1 or a byte string under the
/// key 2, is no assertion request.
pub proof fn law_assertion_requests_need_relying_party_and_hash(request: CborView)
    requires
        request matches CborView::Entries(entries) ==> {
            ||| forall|k: int|
                0 <= k < entries.len() ==> !((#[trigger] entries[k]).0 == CborView::Integer(1)
                    && entries[k].1 is Text)
            ||| forall|k: int|
                0 <= k < entries.len() ==> !((#[trigger] entries[k]).0 == CborView::Integer(2)
                    && entries[k].1 is Bytes)
        },
    ensures
        super::requests::requested_assertion(request) is None,
{
    if let CborView::Entries(entries) = request {
        if forall|k: int|
            0 <= k < entries.len() ==> !((#[trigger] entries[k]).0 == CborView::Integer(1)
                && entries[k].1 is Text) {
            lemma_no_last_rp_id(entries);
        } else {
            lemma_no_last_hash(entries);
        }
    }
}

/// Whether the allow list of an assertion request, the last list under the key 3,
/// holds these descriptors.
pub open spec fn allows_list(request: CborView, at: int, descriptors: Seq<CborView>) -> bool {
    &&& request is Entries
    &&& 0 <= at < request->Entries_0.len()
    &&& request->Entries_0[at] == (CborView::Integer(3), CborView::Array(descriptors))
    &&& forall|k: int|
        at < k < request->Entries_0.len() ==> !((#[trigger] request->Entries_0[k]).0
            == CborView::Integer(3) && request->Entries_0[k].1 is Array)
}

proof fn lemma_last_allow_list_at(entries: EntriesView, at: int, descriptors: Seq<CborView>)
    requires
        allows_list(CborView::Entries(entries), at, descriptors),
    ensures
        super::requests::last_allow_list(entries) == super::requests::descriptor_ids(descriptors),
    decreases entries.len(),
{
    if at < entries.len() - 1 {
        assert(!(entries[entries.len() - 1].0 == CborView::Integer(3)
            && entries[entries.len() - 1].1 is Array));
        let rest = entries.drop_last();
        assert forall|k: int| at < k < rest.len() implies !((#[trigger] rest[k]).0
            == CborView::Integer(3) && rest[k].1 is Array) by {
            assert(rest[k] == entries[k]);
        }
        lemma_last_allow_list_at(rest, at, descriptors);
    }
}

proof fn lemma_ids_join(first: Seq<CborView>, second: Seq<CborView>)
    ensures
        super::requests::descriptor_ids(first + second) == super::requests::descriptor_ids(first)
            + super::requests::descriptor_ids(second),
    decreases second.len(),
{
    let all = first + second;
    if second.len() == 0 {
        assert(all =~= first);
        assert(super::requests::descriptor_ids(first) + super::requests::descriptor_ids(second)
            =~= super::requests::descriptor_ids(first));
    } else {
        assert(all.drop_last() =~= first + second.drop_last());
        assert(all.last() == second.last());
        lemma_ids_join(first, second.drop_last());
        assert(super::requests::descriptor_ids(all) =~= super::requests::descriptor_ids(first)
            + super::requests::descriptor_ids(second));
    }
}

/// The credential IDs of an allow list that is two lists joined are those of the
/// first followed by those of the second, whatever else the three requests hold.
pub proof fn law_allow_lists_join(
    request: CborView,
    at: int,
    asked: GetAssertionView,
    one: CborView,
    one_at: int,
    first: Seq<CborView>,
    one_asked: GetAssertionView,
    other: CborView,
    other_at: int,
    second: Seq<CborView>,
    other_asked: GetAssertionView,
)
    requires
        allows_list(request, at, first + second),
        allows_list(one, one_at, first),
        allows_list(other, other_at, second),
        super::requests::requested_assertion(request) == Some(asked),
        super::requests::requested_assertion(one) == Some(one_asked),
        super::requests::requested_assertion(other) == Some(other_asked),
    ensures
        asked.allow_list == one_asked.allow_list + other_asked.allow_list,
{
    lemma_last_allow_list_at(request->Entries_0, at, first + second);
    lemma_last_allow_list_at(one->Entries_0, one_at, first);
    lemma_last_allow_list_at(other->Entries_0, other_at, second);
    lemma_ids_join(first, second);
}

/// A list of descriptors that each have a byte string under the key `id` allows
/// exactly these credentials: as many as there are descriptors, each at its
/// place.
pub proof fn law_every_descriptor_is_allowed(
    request: CborView,
    at: int,
    descriptors: Seq<CborView>,
    id_at: Seq<int>,
    ids: Seq<Seq<u8>>,
    asked: GetAssertionView,
)
    requires
        allows_list(request, at, descriptors),
        descriptors.len() == ids.len(),
        id_at.len() == ids.len(),
        forall|i: int|
            0 <= i < descriptors.len() ==> (#[trigger] descriptors[i] matches CborView::Entries(
                fields,
            ) && 0 <= id_at[i] < fields.len() && fields[id_at[i]] == (
                CborView::Text("id"@),
                CborView::Bytes(ids[i]),
            ) && forall|j: int|
                0 <= j < id_at[i] ==> !((#[trigger] fields[j]).0 == CborView::Text("id"@)
                    && fields[j].1 is Bytes)),
        super::requests::requested_assertion(request) == Some(asked),
    ensures
        asked.allow_list == ids,
{
    lemma_last_allow_list_at(request->Entries_0, at, descriptors);
    lemma_descriptor_ids(descriptors, id_at, ids);
}

proof fn lemma_descriptor_ids(descriptors: Seq<CborView>, id_at: Seq<int>, ids: Seq<Seq<u8>>)
    requires
        descriptors.len() == ids.len(),
        id_at.len() == ids.len(),
        forall|i: int|
            0 <= i < descriptors.len() ==> (#[trigger] descriptors[i] matches CborView::Entries(
                fields,
            ) && 0 <= id_at[i] < fields.len() && fields[id_at[i]] == (
                CborView::Text("id"@),
                CborView::Bytes(ids[i]),
            ) && forall|j: int|
                0 <= j < id_at[i] ==> !((#[trigger] fields[j]).0 == CborView::Text("id"@)
                    && fields[j].1 is Bytes)),
    ensures
        super::requests::descriptor_ids(descriptors) == ids,
    decreases descriptors.len(),
{
    if descriptors.len() > 0 {
        let n = descriptors.len() - 1;
        let rest = descriptors.drop_last();
        assert(descriptors[n] is Entries);
        lemma_first_bytes_at(descriptors[n]->Entries_0, CborView::Text("id"@), id_at[n]);
        assert forall|i: int| 0 <= i < rest.len() implies (#[trigger] rest[i]
            matches CborView::Entries(fields) && 0 <= id_at.drop_last()[i] < fields.len()
            && fields[id_at.drop_last()[i]] == (
            CborView::Text("id"@),
            CborView::Bytes(ids.drop_last()[i]),
        ) && forall|j: int|
            0 <= j < id_at.drop_last()[i] ==> !((#[trigger] fields[j]).0 == CborView::Text("id"@)
                && fields[j].1 is Bytes)) by {
            assert(rest[i] == descriptors[i]);
        }
        lemma_descriptor_ids(rest, id_at.drop_last(), ids.drop_last());
        assert(ids.drop_last().push(ids[n]) =~= ids);
    } else {
        assert(ids =~= Seq::empty());
    }
}

/// A descriptor that is no map, or has no byte string under the key `id`, allows
/// no credential.
pub proof fn law_other_descriptors_allow_nothing(
    request: CborView,
    at: int,
    descriptor: CborView,
    asked: GetAssertionView,
)
    requires
        allows_list(request, at, seq![descriptor]),
        descriptor matches CborView::Entries(fields) ==> forall|j: int|
            0 <= j < fields.len() ==> !((#[trigger] fields[j]).0 == CborView::Text("id"@)
                && fields[j].1 is Bytes),
        super::requests::requested_assertion(request) == Some(asked),
    ensures
        asked.allow_list == Seq::<Seq<u8>>::empty(),
{
    let list = seq![descriptor];
    lemma_last_allow_list_at(request->Entries_0, at, list);
    if let CborView::Entries(fields) = descriptor {
        lemma_no_first_bytes(fields, CborView::Text("id"@));
    }
    assert(list.drop_last() =~= Seq::empty());
    assert(super::requests::descriptor_ids(list.drop_last()) =~= Seq::empty());
}

/// A request without a list under the key 3 allows no credential.
pub proof fn law_without_a_list_nothing_is_allowed(entries: EntriesView, asked: GetAssertionView)
    requires
        forall|k: int|
            0 <= k < entries.len() ==> !((#[trigger] entries[k]).0 == CborView::Integer(3)
                && entries[k].1 is Array),
        super::requests::requested_assertion(CborView::Entries(entries)) == Some(asked),
    ensures
        asked.allow_list == Seq::<Seq<u8>>::empty(),
{
    lemma_no_allow_list(entries);
}

proof fn lemma_no_allow_list(entries: EntriesView)
    requires
        forall|k: int|
            0 <= k < entries.len() ==> !((#[trigger] entries[k]).0 == CborView::Integer(3)
                && entries[k].1 is Array),
    ensures
        super::requests::last_allow_list(entries) == Seq::<Seq<u8>>::empty(),
    decreases entries.len(),
{
    if entries.len() > 0 {
        assert(!(entries[entries.len() - 1].0 == CborView::Integer(3)
            && entries[entries.len() - 1].1 is Array));
        lemma_no_allow_list(entries.drop_last());
    }
}

/// Whether an entry of a request says whether a user has to be present: a map
/// under the key 5 with a boolean under the key `up`.
pub open spec fn states_presence(entry: (CborView, CborView)) -> bool {
    &&& entry.0 == CborView::Integer(5)
    &&& entry.1 is Entries
    &&& exists|j: int|
        0 <= j < entry.1->Entries_0.len() && (#[trigger] entry.1->Entries_0[j]).0
            == CborView::Text("up"@) && entry.1->Entries_0[j].1 is Bool
}

proof fn lemma_last_up_at(options: EntriesView, at: int, default: bool)
    requires
        0 <= at < options.len(),
        options[at].0 == CborView::Text("up"@),
        options[at].1 is Bool,
        forall|j: int|
            at < j < options.len() ==> !((#[trigger] options[j]).0 == CborView::Text("up"@)
                && options[j].1 is Bool),
    ensures
        super::requests::last_up_option(options, default) == options[at].1->Bool_0,
    decreases options.len(),
{
    if at < options.len() - 1 {
        assert(!(options[options.len() - 1].0 == CborView::Text("up"@)
            && options[options.len() - 1].1 is Bool));
        lemma_last_up_at(options.drop_last(), at, default);
    }
}

proof fn lemma_no_up(options: EntriesView, default: bool)
    requires
        forall|j: int|
            0 <= j < options.len() ==> !((#[trigger] options[j]).0 == CborView::Text("up"@)
                && options[j].1 is Bool),
    ensures
        super::requests::last_up_option(options, default) == default,
    decreases options.len(),
{
    if options.len() > 0 {
        assert(!(options[options.len() - 1].0 == CborView::Text("up"@)
            && options[options.len() - 1].1 is Bool));
        lemma_no_up(options.drop_last(), default);
    }
}

proof fn lemma_silent_entries(entries: EntriesView, at: int)
    requires
        0 <= at <= entries.len(),
        forall|k: int| at <= k < entries.len() ==> !states_presence(#[trigger] entries[k]),
    ensures
        super::requests::wants_user_presence(entries) == super::requests::wants_user_presence(
            entries.take(at),
        ),
    decreases entries.len(),
{
    if at == entries.len() {
        assert(entries.take(at) =~= entries);
    } else {
        let n = entries.len() - 1;
        assert(!states_presence(entries[n]));
        assert(entries.drop_last().take(at) =~= entries.take(at));
        lemma_silent_entries(entries.drop_last(), at);
        if entries[n].0 == CborView::Integer(5) && entries[n].1 is Entries {
            lemma_no_up(
                entries[n].1->Entries_0,
                super::requests::wants_user_presence(entries.drop_last()),
            );
        }
    }
}

/// An assertion request without a boolean under the key `up` of a map under the
/// key 5 asks for user presence.
pub proof fn law_user_presence_is_asked_for_by_default(
    entries: EntriesView,
    asked: GetAssertionView,
)
    requires
        forall|k: int| 0 <= k < entries.len() ==> !states_presence(#[trigger] entries[k]),
        super::requests::requested_assertion(CborView::Entries(entries)) == Some(asked),
    ensures
        asked.user_presence,
{
    lemma_silent_entries(entries, 0);
    assert(entries.take(0) =~= Seq::empty());
}

/// The last boolean under the key `up` of the last options that hold one says
/// whether an assertion request asks for user presence.
pub proof fn law_the_last_up_option_counts(
    entries: EntriesView,
    at: int,
    options: EntriesView,
    up_at: int,
    up: bool,
    asked: GetAssertionView,
)
    requires
        0 <= at < entries.len(),
        entries[at] == (CborView::Integer(5), CborView::Entries(options)),
        forall|k: int| at < k < entries.len() ==> !states_presence(#[trigger] entries[k]),
        0 <= up_at < options.len(),
        options[up_at] == (CborView::Text("up"@), CborView::Bool(up)),
        forall|j: int|
            up_at < j < options.len() ==> !((#[trigger] options[j]).0 == CborView::Text("up"@)
                && options[j].1 is Bool),
        super::requests::requested_assertion(CborView::Entries(entries)) == Some(asked),
    ensures
        asked.user_presence == up,
{
    lemma_silent_entries(entries, at + 1);
    let head = entries.take(at + 1);
    assert(head.last() == entries[at]);
    lemma_last_up_at(options, up_at, super::requests::wants_user_presence(head.drop_last()));
}

} // verus!
