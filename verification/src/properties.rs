use crate::invariants::{
    lemma_add_inv, lemma_has_greatest, lemma_has_least, lemma_live_head,
    lemma_live_keeps, lemma_next_inv, lemma_retain_inv,
};
use crate::lemmas::lemma_greatest;
use crate::model::{
    add_spec, backlog_of, empty_pool, expired, greatest, inv, least, live, next_result, next_spec, rejects,
    retain_spec, total, Backlog, PoolState, Transaction, MAX_BACKLOG, MAX_TRANSACTIONS,
};
use crate::ordered::{is_greatest, is_least};
use crate::key::Key;
use vstd::prelude::*;

verus! {

/// In every pool: there are at most `MAX_TRANSACTIONS` transactions; every
/// account has at least one entry and at most `MAX_BACKLOG`; and there are as
/// many transactions as backlog entries over all accounts.
pub proof fn lemma_bounds(s: PoolState)
    requires
        inv(s),
    ensures
        s.transactions.len() <= MAX_TRANSACTIONS,
        forall|a: Key| #[trigger] s.accounts.contains_key(a) ==> 0 < s.accounts[a].len() <= MAX_BACKLOG,
        s.transactions.len() == total(s.accounts),
{
}

/// One call on a pool.
pub enum Op {
    Add(Transaction),
    Retain(Key, u64),
    Next,
}

/// The pool after one call.
pub open spec fn apply(s: PoolState, op: Op) -> PoolState {
    match op {
        Op::Add(tx) => add_spec(s, tx),
        Op::Retain(public, min) => retain_spec(s, public, min),
        Op::Next => next_spec(s),
    }
}

/// The pool after a run of calls on a new pool.
pub open spec fn replay(ops: Seq<Op>) -> PoolState
    decreases ops.len(),
{
    if ops.len() == 0 {
        empty_pool()
    } else {
        apply(replay(ops.drop_last()), ops.last())
    }
}

/// After any run of calls the pool meets the invariants: so it holds at most
/// `MAX_TRANSACTIONS` transactions, no account has more than `MAX_BACKLOG`
/// entries or none at all, and the two indices have the same number of
/// entries.
pub proof fn lemma_always(ops: Seq<Op>)
    ensures
        inv(replay(ops)),
        replay(ops).transactions.len() <= MAX_TRANSACTIONS,
        forall|a: Key| #[trigger]
            replay(ops).accounts.contains_key(a) ==> 0 < replay(ops).accounts[a].len()
                <= MAX_BACKLOG,
        replay(ops).transactions.len() == total(replay(ops).accounts),
    decreases ops.len(),
{
    if ops.len() > 0 {
        let s = replay(ops.drop_last());
        lemma_always(ops.drop_last());
        match ops.last() {
            Op::Add(tx) => lemma_add_inv(s, tx),
            Op::Retain(public, min) => lemma_retain_inv(s, public, min),
            Op::Next => lemma_next_inv(s),
        }
    }
}

/// The two indices agree. An entry of an account stands for a stored
/// transaction of that account and nonce, and a stored transaction has its
/// one entry, under its own account and nonce.
pub proof fn lemma_indices_agree(s: PoolState, a: Key, n: u64, d: Key)
    requires
        inv(s),
    ensures
        s.accounts.contains_key(a) && s.accounts[a].contains_key(n) && s.accounts[a][n] == d
            <==> s.transactions.contains_key(d) && s.transactions[d].public == a
            && s.transactions[d].nonce == n,
        s.transactions.contains_key(d) ==> s.transactions[d].digest == d,
{
}

/// `next` hands out nothing exactly when the pool holds no transaction.
pub proof fn lemma_next_none(s: PoolState)
    requires
        inv(s),
    ensures
        next_result(s).is_none() <==> s.transactions.len() == 0,
{
    let q = live(s.queue, s.accounts);
    if q.len() == 0 {
        if s.transactions.len() > 0 {
            let d = s.transactions.dom().choose();
            assert(s.transactions.contains_key(d));
            lemma_live_keeps(s.queue, s.accounts, s.transactions[d].public);
        }
    } else {
        lemma_live_head(s.queue, s.accounts);
    }
}

/// `next` serves the first known account of the queue, with the smallest
/// nonce it has; every entry that the account keeps has a larger nonce.
pub proof fn lemma_next_serves(s: PoolState)
    requires
        inv(s),
        next_result(s).is_some(),
    ensures
        ({
            let tx = next_result(s).unwrap();
            let t = next_spec(s);
            &&& tx.public == live(s.queue, s.accounts)[0]
            &&& s.transactions.contains_key(tx.digest)
            &&& s.transactions[tx.digest] == tx
            &&& is_least(s.accounts[tx.public], tx.nonce)
            &&& !t.transactions.contains_key(tx.digest)
            &&& forall|n: u64| #[trigger]
                backlog_of(t.accounts, tx.public).contains_key(n) ==> tx.nonce < n
        }),
{
    let q = live(s.queue, s.accounts);
    lemma_live_head(s.queue, s.accounts);
    lemma_has_least(s.accounts[q[0]]);
}

/// Two transactions of one account that `next` hands out one after the
/// other come in strictly ascending order of nonce.
pub proof fn lemma_next_ascending(s: PoolState)
    requires
        inv(s),
        next_result(s).is_some(),
        next_result(next_spec(s)).is_some(),
        next_result(s).unwrap().public == next_result(next_spec(s)).unwrap().public,
    ensures
        next_result(s).unwrap().nonce < next_result(next_spec(s)).unwrap().nonce,
{
    let t = next_spec(s);
    lemma_next_inv(s);
    lemma_next_serves(s);
    lemma_next_serves(t);
    let tx = next_result(t).unwrap();
    assert(backlog_of(t.accounts, tx.public).contains_key(tx.nonce));
}

/// The head of the live queue is the first known account of the queue: no
/// known account stands before it.
pub proof fn lemma_live_first(queue: Seq<Key>, accounts: Map<Key, Backlog>, i: int)
    requires
        0 <= i < queue.len(),
        accounts.contains_key(queue[i]),
    ensures
        exists|j: int| 0 <= j <= i && live(queue, accounts)[0] == #[trigger] queue[j],
    decreases queue.len(),
{
    if !accounts.contains_key(queue[0]) {
        lemma_live_first(queue.drop_first(), accounts, i - 1);
        let j = choose|j: int|
            0 <= j <= i - 1 && live(queue.drop_first(), accounts)[0]
                == #[trigger] queue.drop_first()[j];
        assert(live(queue, accounts)[0] == queue[j + 1]);
    }
}

/// What `live` keeps is the end of the queue.
pub proof fn lemma_live_suffix(queue: Seq<Key>, accounts: Map<Key, Backlog>)
    ensures
        live(queue, accounts).len() <= queue.len(),
        live(queue, accounts) == queue.subrange(
            queue.len() - live(queue, accounts).len(),
            queue.len() as int,
        ),
    decreases queue.len(),
{
    if queue.len() > 0 && !accounts.contains_key(queue[0]) {
        lemma_live_suffix(queue.drop_first(), accounts);
    }
}

/// Accounts take turns. Where no account stands twice in the queue and
/// another account is waiting too, an account that was just served is not
/// served again at once.
pub proof fn lemma_round_robin(s: PoolState, other: Key)
    requires
        inv(s),
        s.queue.no_duplicates(),
        next_result(s).is_some(),
        s.accounts.contains_key(other),
        other != next_result(s).unwrap().public,
    ensures
        next_result(next_spec(s)).is_some(),
        next_result(next_spec(s)).unwrap().public != next_result(s).unwrap().public,
{
    let q = live(s.queue, s.accounts);
    let t = next_spec(s);
    lemma_next_inv(s);
    lemma_next_serves(s);
    lemma_live_suffix(s.queue, s.accounts);
    lemma_live_keeps(s.queue, s.accounts, other);
    let i = choose|i: int| 0 <= i < q.len() && q[i] == other;
    lemma_live_first(t.queue, t.accounts, i - 1);
    lemma_live_keeps(t.queue, t.accounts, other);
    lemma_next_serves(t);
}

/// The first writer wins. Of two transactions for one account and nonce,
/// admitted one after the other, the second changes nothing, and its digest
/// is stored afterwards only if it was stored before. The digest of the first
/// must not already stand in the pool for another account or nonce.
pub proof fn lemma_first_writer_wins(s: PoolState, first: Transaction, second: Transaction)
    requires
        inv(s),
        first.public == second.public,
        first.nonce == second.nonce,
        first.digest != second.digest,
        s.transactions.contains_key(first.digest) ==> s.transactions[first.digest].public
            == first.public && s.transactions[first.digest].nonce == first.nonce,
    ensures
        add_spec(add_spec(s, first), second) == add_spec(s, first),
        add_spec(add_spec(s, first), second).transactions.contains_key(second.digest)
            ==> s.transactions.contains_key(second.digest),
{
    if !rejects(s, first) {
        let before = backlog_of(s.accounts, first.public);
        let backlog = before.insert(first.nonce, first.digest);
        if backlog.len() > MAX_BACKLOG {
            lemma_has_greatest(backlog);
            let top = greatest(backlog);
            if top == first.nonce {
                assert(backlog.remove(top) =~= before);
                if !rejects(s, second) {
                    let other = before.insert(second.nonce, second.digest);
                    lemma_greatest(other, top);
                    assert(other.remove(top) =~= before);
                }
            }
        }
    }
}

/// Overflow evicts the largest nonce. Where an account with a full backlog
/// gets one more entry, the entry with the largest nonce of them all leaves
/// both indices, and every other one stays.
pub proof fn lemma_overflow(s: PoolState, tx: Transaction)
    requires
        inv(s),
        !rejects(s, tx),
        backlog_of(s.accounts, tx.public).len() == MAX_BACKLOG,
    ensures
        ({
            let t = add_spec(s, tx);
            let all = backlog_of(s.accounts, tx.public).insert(tx.nonce, tx.digest);
            let top = greatest(all);
            &&& is_greatest(all, top)
            &&& t.accounts.contains_key(tx.public)
            &&& t.accounts[tx.public] == all.remove(top)
            &&& t.accounts[tx.public].len() == MAX_BACKLOG
            &&& !t.transactions.contains_key(all[top])
            &&& forall|n: u64| #[trigger]
                all.contains_key(n) && n != top ==> t.transactions.contains_key(all[n])
        }),
{
    lemma_has_greatest(backlog_of(s.accounts, tx.public).insert(tx.nonce, tx.digest));
}

/// The watermark. After `retain(public, min)` the account has exactly its
/// entries from `min` on, unchanged; the pool stores exactly the
/// transactions it stored before that are not of this account with a nonce
/// under `min`; other accounts and the queue are as before.
pub proof fn lemma_retain_watermark(s: PoolState, public: Key, min: u64)
    requires
        inv(s),
    ensures
        ({
            let t = retain_spec(s, public, min);
            &&& forall|n: u64|
                backlog_of(t.accounts, public).contains_key(n) <==> backlog_of(
                    s.accounts,
                    public,
                ).contains_key(n) && n >= min
            &&& forall|n: u64| #[trigger]
                backlog_of(t.accounts, public).contains_key(n) ==> backlog_of(t.accounts, public)[n]
                    == backlog_of(s.accounts, public)[n]
            &&& forall|d: Key|
                t.transactions.contains_key(d) <==> s.transactions.contains_key(d) && !expired(
                    s.transactions[d],
                    public,
                    min,
                )
            &&& forall|d: Key| #[trigger]
                t.transactions.contains_key(d) ==> t.transactions[d] == s.transactions[d]
            &&& forall|a: Key|
                a != public ==> t.accounts.contains_key(a) == s.accounts.contains_key(a)
                    && backlog_of(t.accounts, a) == backlog_of(s.accounts, a)
            &&& t.queue == s.queue
        }),
{
}

/// An account leaves with its last entry: `retain` over all its nonces
/// removes the account, and so does `next` when it hands out the only entry.
pub proof fn lemma_cleanup(s: PoolState, public: Key, min: u64)
    requires
        inv(s),
    ensures
        (forall|n: u64| backlog_of(s.accounts, public).contains_key(n) ==> n < min)
            ==> !retain_spec(s, public, min).accounts.contains_key(public),
        next_result(s).is_some() && s.accounts[next_result(s).unwrap().public].len() == 1
            ==> !next_spec(s).accounts.contains_key(next_result(s).unwrap().public),
        next_result(s).is_some() && s.accounts[next_result(s).unwrap().public].len() > 1
            ==> next_spec(s).accounts.contains_key(next_result(s).unwrap().public)
            && next_spec(s).queue.last() == next_result(s).unwrap().public,
{
    if s.accounts.contains_key(public) && (forall|n: u64|
        backlog_of(s.accounts, public).contains_key(n) ==> n < min) {
        let kept = Map::new(
            |n: u64| s.accounts[public].contains_key(n) && n >= min,
            |n: u64| s.accounts[public][n],
        );
        assert forall|n: u64| !kept.dom().contains(n) by {
            if s.accounts[public].contains_key(n) {
                assert(backlog_of(s.accounts, public).contains_key(n));
            }
        }
    }
    if next_result(s).is_some() {
        lemma_next_serves(s);
    }
}

} // verus!
