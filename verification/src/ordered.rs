use crate::key::Key;
use std::collections::BTreeMap;
use vstd::prelude::*;

verus! {

/// `n` is the smallest key of `m`.
pub open spec fn is_least(m: Map<u64, Key>, n: u64) -> bool {
    &&& m.contains_key(n)
    &&& forall|k: u64| m.contains_key(k) ==> n <= k
}

/// `n` is the largest key of `m`.
pub open spec fn is_greatest(m: Map<u64, Key>, n: u64) -> bool {
    &&& m.contains_key(n)
    &&& forall|k: u64| m.contains_key(k) ==> k <= n
}

/// `BTreeMap::first_key_value`: the entry with the smallest key, copied out, or
/// `None` for an empty map.
#[verifier::external_body]
pub(crate) fn first_entry(m: &BTreeMap<u64, Key>) -> (first: Option<(u64, Key)>)
    ensures
        match first {
            Some((n, d)) => is_least(m@, n) && m@[n] == d,
            None => m@ == Map::<u64, Key>::empty(),
        },
{
    match m.first_key_value() {
        Some((n, d)) => Some((*n, *d)),
        None => None,
    }
}

/// `BTreeMap::pop_first`: removes the entry with the smallest key and returns
/// it; an empty map stays as it is and gives `None`.
#[verifier::external_body]
pub(crate) fn pop_first(m: &mut BTreeMap<u64, Key>) -> (first: Option<(u64, Key)>)
    ensures
        match first {
            Some((n, d)) => is_least(old(m)@, n) && old(m)@[n] == d && final(m)@ == old(m)@.remove(
                n,
            ),
            None => old(m)@ == Map::<u64, Key>::empty() && final(m)@ == old(m)@,
        },
{
    m.pop_first()
}

/// `BTreeMap::pop_last`: removes the entry with the largest key and returns
/// it; an empty map stays as it is and gives `None`.
#[verifier::external_body]
pub(crate) fn pop_last(m: &mut BTreeMap<u64, Key>) -> (last: Option<(u64, Key)>)
    ensures
        match last {
            Some((n, d)) => is_greatest(old(m)@, n) && old(m)@[n] == d && final(m)@ == old(
                m,
            )@.remove(n),
            None => old(m)@ == Map::<u64, Key>::empty() && final(m)@ == old(m)@,
        },
{
    m.pop_last()
}

} // verus!
