//! A map from byte strings.

use crate::bytes::{bytes_equal, push_all, push_be32};
use crate::random::random_bytes;
use vstd::prelude::*;

verus! {

/// A map whose keys are byte strings.
pub struct HandleMap<V> {
    entries: Vec<(Vec<u8>, V)>,
}

spec fn position<V>(entries: Seq<(Vec<u8>, V)>, key: Seq<u8>, i: int) -> bool {
    0 <= i < entries.len() && entries[i].0@ == key
}

spec fn distinct_keys<V>(entries: Seq<(Vec<u8>, V)>) -> bool {
    forall|i: int, j: int|
        0 <= i < j < entries.len() ==> (#[trigger] entries[i]).0@ != (#[trigger] entries[j]).0@
}

spec fn contents<V>(entries: Seq<(Vec<u8>, V)>) -> Map<Seq<u8>, V> {
    Map::new(
        |key: Seq<u8>| exists|i: int| position(entries, key, i),
        |key: Seq<u8>| entries[choose|i: int| position(entries, key, i)].1,
    )
}

impl<V> View for HandleMap<V> {
    type V = Map<Seq<u8>, V>;

    closed spec fn view(&self) -> Map<Seq<u8>, V> {
        contents(self.entries@)
    }
}

impl<V> HandleMap<V> {
    /// No key occurs twice.
    #[verifier::type_invariant]
    spec fn keys_are_distinct(&self) -> bool {
        distinct_keys(self.entries@)
    }

    pub fn new() -> (map: Self)
        ensures
            map@ == Map::<Seq<u8>, V>::empty(),
    {
        let map = HandleMap { entries: Vec::new() };
        assert(map@ =~= Map::<Seq<u8>, V>::empty());
        map
    }

    fn find(entries: &Vec<(Vec<u8>, V)>, key: &[u8]) -> (at: Option<usize>)
        requires
            distinct_keys(entries@),
        ensures
            match at {
                Some(i) => position(entries@, key@, i as int) && contents(entries@).contains_key(
                    key@,
                ) && contents(entries@)[key@] == entries@[i as int].1,
                None => !contents(entries@).contains_key(key@),
            },
    {
        let mut i: usize = 0;
        while i < entries.len()
            invariant
                i <= entries@.len(),
                distinct_keys(entries@),
                forall|j: int| 0 <= j < i ==> (#[trigger] entries@[j]).0@ != key@,
            decreases entries@.len() - i,
        {
            if bytes_equal(&entries[i].0, key) {
                assert(position(entries@, key@, i as int));
                return Some(i);
            }
            i = i + 1;
        }
        None
    }

    pub fn contains_key(&self, key: &[u8]) -> (contains: bool)
        ensures
            contains == self@.contains_key(key@),
    {
        proof {
            use_type_invariant(self);
        }
        Self::find(&self.entries, key).is_some()
    }

    pub fn get(&self, key: &[u8]) -> (value: Option<&V>)
        ensures
            match value {
                Some(v) => self@.contains_key(key@) && self@[key@] == *v,
                None => !self@.contains_key(key@),
            },
    {
        proof {
            use_type_invariant(self);
        }
        match Self::find(&self.entries, key) {
            Some(i) => Some(&self.entries[i].1),
            None => None,
        }
    }

    /// A key of 32 bytes that has no value.
    pub fn unused_key(&self) -> (key: Vec<u8>)
        ensures
            key@.len() == 32,
            !self@.contains_key(key@),
    {
        let count: usize = self.entries.len();
        let mut n: u64 = 0;
        let mut key: Vec<u8> = candidate_key(0);
        while self.contains_key(&key)
            invariant
                key@ == candidate(n as nat),
                n <= count,
                count == self.entries@.len(),
                forall|i: nat| i < n ==> self@.contains_key(#[trigger] candidate(i)),
            decreases count - n,
        {
            proof {
                assert forall|i: nat| i < n + 1 implies contents(self.entries@).contains_key(
                    #[trigger] candidate(i),
                ) by {
                    assert(i < n || i == n);
                }
                lemma_candidates_fit(self.entries@, (n + 1) as nat);
            }
            n = n + 1;
            key = candidate_key(n);
        }
        key
    }

    /// Draws a random key of 32 bytes, and again while it has a value. Draws that
    /// go on hitting used keys end in the first unused one, which a further draw
    /// could have given as well.
    pub fn draw_unused_key(&self) -> (key: Vec<u8>)
        ensures
            key@.len() == 32,
            !self@.contains_key(key@),
    {
        let mut draws: u64 = u64::MAX;
        while draws > 0
            decreases draws,
        {
            let key: Vec<u8> = random_bytes(32);
            if !self.contains_key(&key) {
                return key;
            }
            draws = draws - 1;
        }
        self.unused_key()
    }

    /// Sets the value at `key`, whether or not there was one.
    pub fn insert(&mut self, key: Vec<u8>, value: V)
        ensures
            final(self)@ == old(self)@.insert(key@, value),
    {
        proof {
            use_type_invariant(&*self);
        }
        let mut entries: Vec<(Vec<u8>, V)> = Vec::new();
        std::mem::swap(&mut entries, &mut self.entries);
        let ghost before = entries@;
        match Self::find(&entries, &key) {
            Some(i) => {
                entries.set(i, (key, value));
                proof {
                    lemma_replace(before, entries@, i as int);
                }
            },
            None => {
                entries.push((key, value));
                proof {
                    assert(entries@.drop_last() =~= before);
                    lemma_push(before, entries@);
                }
            },
        }
        self.entries = entries;
    }

    /// Removes `key` and gives its value, if it has one.
    pub fn remove(&mut self, key: &[u8]) -> (value: Option<V>)
        ensures
            final(self)@ == old(self)@.remove(key@),
            match value {
                Some(v) => old(self)@.contains_key(key@) && old(self)@[key@] == v,
                None => !old(self)@.contains_key(key@),
            },
    {
        proof {
            use_type_invariant(&*self);
        }
        let mut entries: Vec<(Vec<u8>, V)> = Vec::new();
        std::mem::swap(&mut entries, &mut self.entries);
        let ghost before = entries@;
        match Self::find(&entries, key) {
            Some(i) => {
                let (_, value) = entries.swap_remove(i);
                proof {
                    lemma_swap_remove(before, entries@, i as int);
                }
                self.entries = entries;
                Some(value)
            },
            None => {
                self.entries = entries;
                assert(self@ =~= old(self)@.remove(key@));
                None
            },
        }
    }
}

/// The `n`-th of the byte strings that are tried as unused keys.
spec fn candidate(n: nat) -> Seq<u8> {
    crate::bytes::be32((n / 0x1_0000_0000) as u32) + crate::bytes::be32(
        (n % 0x1_0000_0000) as u32,
    ) + Seq::new(24, |i: int| 0u8)
}

fn candidate_key(n: u64) -> (key: Vec<u8>)
    ensures
        key@ == candidate(n as nat),
{
    let mut key: Vec<u8> = Vec::new();
    push_be32(&mut key, (n / 0x1_0000_0000) as u32);
    push_be32(&mut key, (n % 0x1_0000_0000) as u32);
    let mut zeros: Vec<u8> = Vec::new();
    zeros.resize(24, 0);
    push_all(&mut key, &zeros);
    assert(key@ =~= candidate(n as nat));
    key
}

proof fn lemma_candidates_differ(a: nat, b: nat)
    requires
        a < b <= u64::MAX,
    ensures
        candidate(a) != candidate(b),
{
    if candidate(a) == candidate(b) {
        let (high_a, high_b) = ((a / 0x1_0000_0000) as u32, (b / 0x1_0000_0000) as u32);
        let (low_a, low_b) = ((a % 0x1_0000_0000) as u32, (b % 0x1_0000_0000) as u32);
        assert(candidate(a).subrange(0, 4) =~= crate::bytes::be32(high_a));
        assert(candidate(b).subrange(0, 4) =~= crate::bytes::be32(high_b));
        assert(candidate(a).subrange(4, 8) =~= crate::bytes::be32(low_a));
        assert(candidate(b).subrange(4, 8) =~= crate::bytes::be32(low_b));
        crate::bytes::lemma_be32_round_trip(high_a);
        crate::bytes::lemma_be32_round_trip(high_b);
        crate::bytes::lemma_be32_round_trip(low_a);
        crate::bytes::lemma_be32_round_trip(low_b);
    }
}

/// There are no more candidates among the keys than there are keys.
proof fn lemma_candidates_fit<V>(entries: Seq<(Vec<u8>, V)>, n: nat)
    requires
        n <= u64::MAX + 1,
        forall|i: nat| i < n ==> contents(entries).contains_key(#[trigger] candidate(i)),
    ensures
        n <= entries.len(),
{
    let tried = Seq::new(n, |i: int| candidate(i as nat));
    let keys = entries.map_values(|e: (Vec<u8>, V)| e.0@);
    assert(tried.no_duplicates()) by {
        assert forall|i: int, j: int| 0 <= i < j < n implies tried[i] != tried[j] by {
            lemma_candidates_differ(i as nat, j as nat);
        }
    }
    tried.unique_seq_to_set();
    keys.lemma_cardinality_of_set();
    assert(tried.to_set().subset_of(keys.to_set())) by {
        assert forall|key: Seq<u8>| tried.to_set().contains(key) implies keys.to_set().contains(
            key,
        ) by {
            let i = choose|i: int| 0 <= i < tried.len() && tried[i] == key;
            assert(contents(entries).contains_key(candidate(i as nat)));
            let at = choose|at: int| position(entries, key, at);
            assert(position(entries, key, at));
            assert(keys[at] == key);
        }
    }
    vstd::set_lib::lemma_len_subset(tried.to_set(), keys.to_set());
}

proof fn lemma_at<V>(entries: Seq<(Vec<u8>, V)>, i: int)
    requires
        distinct_keys(entries),
        0 <= i < entries.len(),
    ensures
        contents(entries).contains_key(entries[i].0@),
        contents(entries)[entries[i].0@] == entries[i].1,
{
    assert(position(entries, entries[i].0@, i));
}

proof fn lemma_replace<V>(before: Seq<(Vec<u8>, V)>, after: Seq<(Vec<u8>, V)>, i: int)
    requires
        distinct_keys(before),
        0 <= i < before.len(),
        after.len() == before.len(),
        after[i].0@ == before[i].0@,
        forall|j: int| 0 <= j < before.len() && j != i ==> after[j] == before[j],
    ensures
        distinct_keys(after),
        contents(after) == contents(before).insert(after[i].0@, after[i].1),
{
    assert(distinct_keys(after)) by {
        assert forall|a: int, b: int| 0 <= a < b < after.len() implies (#[trigger] after[a]).0@
            != (#[trigger] after[b]).0@ by {
            assert(before[a].0@ != before[b].0@);
        }
    }
    let expected = contents(before).insert(after[i].0@, after[i].1);
    assert forall|key: Seq<u8>|
        #![trigger contents(after).dom().contains(key)]
        #![trigger expected.dom().contains(key)]
        #![trigger contents(after)[key]]
        contents(after).dom().contains(key) == expected.dom().contains(key) && (contents(
            after,
        ).dom().contains(key) ==> contents(after)[key] == expected[key]) by {
        if exists|j: int| position(after, key, j) {
            let j = choose|j: int| position(after, key, j);
            lemma_at(after, j);
            lemma_at(before, j);
        }
        if exists|j: int| position(before, key, j) {
            let j = choose|j: int| position(before, key, j);
            lemma_at(after, j);
        }
        lemma_at(after, i);
    }
    assert(contents(after) =~= expected);
}

proof fn lemma_push<V>(before: Seq<(Vec<u8>, V)>, after: Seq<(Vec<u8>, V)>)
    requires
        distinct_keys(before),
        after.len() == before.len() + 1,
        after.drop_last() == before,
        !contents(before).contains_key(after.last().0@),
    ensures
        distinct_keys(after),
        contents(after) == contents(before).insert(after.last().0@, after.last().1),
{
    let n = before.len() as int;
    assert(forall|j: int| 0 <= j < n ==> after[j] == after.drop_last()[j]);
    assert(distinct_keys(after)) by {
        assert forall|a: int, b: int| 0 <= a < b < after.len() implies (#[trigger] after[a]).0@
            != (#[trigger] after[b]).0@ by {
            lemma_at(before, a);
            if b < n {
                assert(before[a].0@ != before[b].0@);
            }
        }
    }
    let expected = contents(before).insert(after.last().0@, after.last().1);
    assert forall|key: Seq<u8>|
        #![trigger contents(after).dom().contains(key)]
        #![trigger expected.dom().contains(key)]
        #![trigger contents(after)[key]]
        contents(after).dom().contains(key) == expected.dom().contains(key) && (contents(
            after,
        ).dom().contains(key) ==> contents(after)[key] == expected[key]) by {
        if exists|j: int| position(after, key, j) {
            let j = choose|j: int| position(after, key, j);
            lemma_at(after, j);
            if j < n {
                lemma_at(before, j);
            }
        }
        if exists|j: int| position(before, key, j) {
            let j = choose|j: int| position(before, key, j);
            lemma_at(after, j);
            lemma_at(before, j);
        }
        lemma_at(after, n);
    }
    assert(contents(after) =~= expected);
}

proof fn lemma_swap_remove<V>(before: Seq<(Vec<u8>, V)>, after: Seq<(Vec<u8>, V)>, i: int)
    requires
        distinct_keys(before),
        0 <= i < before.len(),
        after == before.update(i, before.last()).drop_last(),
    ensures
        distinct_keys(after),
        contents(after) == contents(before).remove(before[i].0@),
{
    let n = after.len() as int;
    assert(forall|j: int| 0 <= j < n ==> after[j] == before[if j == i { n } else { j }]);
    assert(distinct_keys(after)) by {
        assert forall|a: int, b: int| 0 <= a < b < after.len() implies (#[trigger] after[a]).0@
            != (#[trigger] after[b]).0@ by {
            let x = if a == i { n } else { a };
            let y = if b == i { n } else { b };
            assert(before[x].0@ != before[y].0@);
        }
    }
    let expected = contents(before).remove(before[i].0@);
    assert forall|key: Seq<u8>|
        #![trigger contents(after).dom().contains(key)]
        #![trigger expected.dom().contains(key)]
        #![trigger contents(after)[key]]
        contents(after).dom().contains(key) == expected.dom().contains(key) && (contents(
            after,
        ).dom().contains(key) ==> contents(after)[key] == expected[key]) by {
        if exists|j: int| position(after, key, j) {
            let j = choose|j: int| position(after, key, j);
            let x = if j == i { n } else { j };
            lemma_at(after, j);
            lemma_at(before, x);
            assert(before[x].0@ != before[i].0@);
        }
        if exists|j: int| position(before, key, j) && j != i {
            let j = choose|j: int| position(before, key, j) && j != i;
            let y = if j == n { i } else { j };
            lemma_at(before, j);
            lemma_at(after, y);
            assert(before[j].0@ != before[i].0@);
        }
        if expected.contains_key(key) {
            let j = choose|j: int| position(before, key, j);
            assert(position(before, key, j) && j != i);
        }
    }
    assert(contents(after) =~= expected);
}

} // verus!
