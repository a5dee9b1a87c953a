use crate::model::{greatest, total, Backlog};
use crate::ordered::is_greatest;
use crate::key::Key;
use vstd::prelude::*;

verus! {

/// The total may be counted from any account first.
pub proof fn lemma_total_remove(accounts: Map<Key, Backlog>, a: Key)
    requires
        accounts.dom().finite(),
        accounts.contains_key(a),
    ensures
        total(accounts) == accounts[a].len() + total(accounts.remove(a)),
    decreases accounts.dom().len(),
{
    let c = accounts.dom().choose();
    if c != a {
        lemma_total_remove(accounts.remove(c), a);
        lemma_total_remove(accounts.remove(a), c);
        assert(accounts.remove(c).remove(a) =~= accounts.remove(a).remove(c));
    }
}

/// Giving an account a new backlog changes the total by the difference of
/// the two backlogs' sizes.
pub proof fn lemma_total_insert(accounts: Map<Key, Backlog>, a: Key, backlog: Backlog)
    requires
        accounts.dom().finite(),
    ensures
        total(accounts.insert(a, backlog)) == backlog.len() + total(accounts.remove(a)),
        accounts.contains_key(a) ==> total(accounts) == accounts[a].len() + total(
            accounts.remove(a),
        ),
        !accounts.contains_key(a) ==> total(accounts) == total(accounts.remove(a)),
{
    lemma_total_remove(accounts.insert(a, backlog), a);
    assert(accounts.insert(a, backlog).remove(a) =~= accounts.remove(a));
    if accounts.contains_key(a) {
        lemma_total_remove(accounts, a);
    } else {
        assert(accounts.remove(a) =~= accounts);
    }
}

/// Where no backlog is empty, there are at least as many entries as accounts.
pub proof fn lemma_total_covers(accounts: Map<Key, Backlog>)
    requires
        accounts.dom().finite(),
        forall|a: Key| #[trigger] accounts.contains_key(a) ==> accounts[a].len() > 0,
    ensures
        total(accounts) >= accounts.len(),
    decreases accounts.dom().len(),
{
    if accounts.dom().len() > 0 {
        let c = accounts.dom().choose();
        lemma_total_covers(accounts.remove(c));
    }
}

/// A backlog has one largest nonce at most.
pub proof fn lemma_greatest(backlog: Backlog, n: u64)
    requires
        is_greatest(backlog, n),
    ensures
        greatest(backlog) == n,
{
}

} // verus!
