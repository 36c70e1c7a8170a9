//! What holds of a service over any history of calls.

use super::{
    AssertionRequestView, AssertionView, AuthenticatorErrorView, RegistrationView, ServiceView,
};
use crate::backend::CredentialBackend;
use vstd::prelude::*;

verus! {

/// A call of the service, with its result.
pub enum ServiceCall {
    Register {
        rp_id: Seq<char>,
        user_id: Seq<u8>,
        registered: Result<RegistrationView, AuthenticatorErrorView>,
    },
    Assert {
        request: AssertionRequestView,
        asserted: Result<AssertionView, AuthenticatorErrorView>,
    },
}

/// Whether a call can have its result and lead from one state to the other.
pub open spec fn leads<B: CredentialBackend>(
    before: ServiceView<B>,
    call: ServiceCall,
    after: ServiceView<B>,
) -> bool {
    match call {
        ServiceCall::Register { rp_id, user_id, registered } => before.registers(
            rp_id,
            user_id,
            registered,
            after,
        ),
        ServiceCall::Assert { request, asserted } => before.asserts(request, asserted, after),
    }
}

/// Whether `calls` can lead a new service through `states`.
pub open spec fn is_history<B: CredentialBackend>(
    states: Seq<ServiceView<B>>,
    calls: Seq<ServiceCall>,
) -> bool {
    &&& states.len() == calls.len() + 1
    &&& states[0].records == Map::<Seq<u8>, super::RecordView>::empty()
    &&& forall|i: int|
        0 <= i < calls.len() ==> leads(states[i], #[trigger] calls[i], states[i + 1])
}

/// How often the credential `id` gave an assertion since the registration that
/// returned it last, if one did.
pub open spec fn assertions_since_registration(calls: Seq<ServiceCall>, id: Seq<u8>) -> Option<nat>
    decreases calls.len(),
{
    if calls.len() == 0 {
        None
    } else {
        let before = assertions_since_registration(calls.drop_last(), id);
        match calls.last() {
            ServiceCall::Register { registered: Ok(registration), .. } => {
                if registration.credential_id == id {
                    Some(0)
                } else {
                    before
                }
            },
            ServiceCall::Assert { asserted: Ok(assertion), .. } => {
                if assertion.credential_id == id && before is Some {
                    Some(before->0 + 1)
                } else {
                    before
                }
            },
            _ => before,
        }
    }
}

/// The relying party of the registration that returned `id` last, if one did.
pub open spec fn last_registration(calls: Seq<ServiceCall>, id: Seq<u8>) -> Option<Seq<char>>
    decreases calls.len(),
{
    if calls.len() == 0 {
        None
    } else {
        match calls.last() {
            ServiceCall::Register { rp_id, registered: Ok(registration), .. } => {
                if registration.credential_id == id {
                    Some(rp_id)
                } else {
                    last_registration(calls.drop_last(), id)
                }
            },
            _ => last_registration(calls.drop_last(), id),
        }
    }
}

/// A signature counter that stops at its maximum.
pub open spec fn counter(count: nat) -> int {
    if count < u32::MAX {
        count as int
    } else {
        u32::MAX as int
    }
}

/// After any history, a credential is recorded exactly where a registration
/// returned it, for the relying party of the last one, and its counter is the
/// number of assertions since, up to the counter's maximum.
pub proof fn law_records_follow_the_history<B: CredentialBackend>(
    states: Seq<ServiceView<B>>,
    calls: Seq<ServiceCall>,
    id: Seq<u8>,
)
    requires
        is_history(states, calls),
    ensures
        states.last().records.contains_key(id) == (last_registration(calls, id) is Some),
        states.last().records.contains_key(id) == (assertions_since_registration(calls, id)
            is Some),
        last_registration(calls, id) matches Some(rp_id) ==> states.last().records[id].rp_id
            == rp_id,
        assertions_since_registration(calls, id) matches Some(count)
            ==> states.last().records[id].sign_count == counter(count),
    decreases calls.len(),
{
    if calls.len() > 0 {
        let n = calls.len() - 1;
        let earlier = states.drop_last();
        let rest = calls.drop_last();
        assert(leads(states[n], calls[n], states[n + 1]));
        assert(is_history(earlier, rest)) by {
            assert forall|i: int| 0 <= i < rest.len() implies leads(
                earlier[i],
                #[trigger] rest[i],
                earlier[i + 1],
            ) by {
                assert(leads(states[i], calls[i], states[i + 1]));
            }
        }
        law_records_follow_the_history(earlier, rest, id);
        assert(earlier.last() == states[n]);
        match calls[n] {
            ServiceCall::Assert { request, asserted: Ok(assertion) } => {
                super::laws::law_an_assertion_moves_one_counter(
                    states[n],
                    request,
                    assertion,
                    states[n + 1],
                );
                assert(states[n + 1].records.dom().contains(id)
                    == states[n].records.dom().contains(id));
            },
            _ => {},
        }
    }
}

/// The k-th assertion of a credential since its registration has the counter k,
/// up to the counter's maximum. Failed requests and other credentials do not
/// count.
pub proof fn law_counters_count_assertions<B: CredentialBackend>(
    states: Seq<ServiceView<B>>,
    calls: Seq<ServiceCall>,
    request: AssertionRequestView,
    assertion: AssertionView,
)
    requires
        is_history(states, calls),
        calls.len() > 0,
        calls.last() == (ServiceCall::Assert { request, asserted: Ok(assertion) }),
    ensures
        assertions_since_registration(calls, assertion.credential_id) matches Some(count) && count
            > 0 && assertion.sign_count == counter(count),
{
    let n = calls.len() - 1;
    let id = assertion.credential_id;
    assert(leads(states[n], calls[n], states[n + 1]));
    super::laws::law_an_assertion_moves_one_counter(states[n], request, assertion, states[n + 1]);
    assert(states[n + 1].records.dom().contains(id));
    law_records_follow_the_history(states, calls, id);
    let earlier = states.drop_last();
    let rest = calls.drop_last();
    assert(is_history(earlier, rest)) by {
        assert forall|i: int| 0 <= i < rest.len() implies leads(
            earlier[i],
            #[trigger] rest[i],
            earlier[i + 1],
        ) by {
            assert(leads(states[i], calls[i], states[i + 1]));
        }
    }
    law_records_follow_the_history(earlier, rest, id);
}

/// After any history, a relying party has a matching credential in a list exactly
/// where the list names one whose last registration was for that relying party.
pub proof fn law_matches_follow_the_last_registration<B: CredentialBackend>(
    states: Seq<ServiceView<B>>,
    calls: Seq<ServiceCall>,
    rp_id: Seq<char>,
    allow_list: Seq<Seq<u8>>,
)
    requires
        is_history(states, calls),
    ensures
        states.last().selected(rp_id, allow_list) is Some <==> exists|i: int|
            0 <= i < allow_list.len() && last_registration(calls, #[trigger] allow_list[i]) == Some(
                rp_id,
            ),
{
    let service = states.last();
    super::laws::law_selection_is_the_first_match(service, rp_id, allow_list);
    assert forall|i: int| 0 <= i < allow_list.len() implies service.matches_rp(
        rp_id,
        #[trigger] allow_list[i],
    ) == (last_registration(calls, allow_list[i]) == Some(rp_id)) by {
        law_records_follow_the_history(states, calls, allow_list[i]);
    }
}

/// A new service has no matching credentials, and no service has one in an empty
/// list.
pub proof fn law_nothing_matches_at_first<B: CredentialBackend>(
    service: ServiceView<B>,
    rp_id: Seq<char>,
    allow_list: Seq<Seq<u8>>,
)
    requires
        service.records == Map::<Seq<u8>, super::RecordView>::empty() || allow_list.len() == 0,
    ensures
        service.selected(rp_id, allow_list) is None,
{
    super::laws::law_selection_is_the_first_match(service, rp_id, allow_list);
}

/// In two lists joined, the first match of the first list is selected, else that
/// of the second.
pub proof fn law_joined_lists_match_like_their_parts<B: CredentialBackend>(
    service: ServiceView<B>,
    rp_id: Seq<char>,
    a: Seq<Seq<u8>>,
    b: Seq<Seq<u8>>,
)
    ensures
        service.selected(rp_id, a + b) == (if service.selected(rp_id, a) is Some {
            service.selected(rp_id, a)
        } else {
            service.selected(rp_id, b)
        }),
    decreases a.len(),
{
    if a.len() == 0 {
        assert(a + b =~= b);
    } else {
        assert((a + b)[0] == a[0]);
        assert((a + b).skip(1) =~= a.skip(1) + b);
        law_joined_lists_match_like_their_parts(service, rp_id, a.skip(1), b);
    }
}

} // verus!
