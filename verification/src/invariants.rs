use crate::key::Key;
use crate::lemmas::lemma_total_insert;
use crate::model::{
    add_spec, backlog_of, drop_entry, empty_pool, greatest, inv, least, live, next_spec, rejects,
    retain_spec, Backlog, PoolState, Transaction, MAX_BACKLOG,
};
use crate::ordered::{is_greatest, is_least};
use vstd::prelude::*;

verus! {

/// A finite backlog that is not empty has a largest nonce.
pub proof fn lemma_has_greatest(backlog: Backlog)
    requires
        backlog.dom().finite(),
        backlog.len() > 0,
    ensures
        is_greatest(backlog, greatest(backlog)),
    decreases backlog.len(),
{
    let x = backlog.dom().choose();
    let rest = backlog.remove(x);
    if rest.len() == 0 {
        assert(is_greatest(backlog, x));
    } else {
        lemma_has_greatest(rest);
        let m = greatest(rest);
        let top = if x > m { x } else { m };
        assert(is_greatest(backlog, top));
    }
}

/// The empty pool meets the invariants.
pub proof fn lemma_empty_inv()
    ensures
        inv(empty_pool()),
{
}

/// Admission keeps the invariants: the bounds on the pool and on every
/// backlog, the agreement of the two indices, and their equal sizes.
pub proof fn lemma_add_inv(s: PoolState, tx: Transaction)
    requires
        inv(s),
    ensures
        inv(add_spec(s, tx)),
{
    if !rejects(s, tx) {
        let t = add_spec(s, tx);
        let before = backlog_of(s.accounts, tx.public);
        let backlog = before.insert(tx.nonce, tx.digest);
        lemma_total_insert(s.accounts, tx.public, backlog);
        if backlog.len() > MAX_BACKLOG {
            lemma_has_greatest(backlog);
            let top = greatest(backlog);
            let kept = backlog.remove(top);
            lemma_total_insert(s.accounts, tx.public, kept);
        } else {
            assert forall|a: Key| #[trigger] t.accounts.contains_key(a) implies t.queue.contains(
                a,
            ) by {
                if a == tx.public && backlog.len() == 1 {
                    assert(t.queue.last() == a);
                } else {
                    let i = choose|i: int| 0 <= i < s.queue.len() && s.queue[i] == a;
                    assert(t.queue[i] == a);
                }
            }
        }
    }
}

/// A finite backlog that is not empty has a smallest nonce.
pub proof fn lemma_has_least(backlog: Backlog)
    requires
        backlog.dom().finite(),
        backlog.len() > 0,
    ensures
        is_least(backlog, least(backlog)),
    decreases backlog.len(),
{
    let x = backlog.dom().choose();
    let rest = backlog.remove(x);
    if rest.len() == 0 {
        assert(is_least(backlog, x));
    } else {
        lemma_has_least(rest);
        let m = least(rest);
        let low = if x < m { x } else { m };
        assert(is_least(backlog, low));
    }
}

/// Taking one entry out of both indices keeps the invariants.
pub proof fn lemma_drop_inv(s: PoolState, a: Key, n: u64)
    requires
        inv(s),
        s.accounts.contains_key(a),
        s.accounts[a].contains_key(n),
    ensures
        inv(drop_entry(s, a, n)),
        drop_entry(s, a, n).transactions.len() == s.transactions.len() - 1,
{
    let rest = s.accounts[a].remove(n);
    lemma_total_insert(s.accounts, a, rest);
}

/// An account that is known and queued is still queued once the unknown
/// accounts at the head are gone.
pub proof fn lemma_live_keeps(queue: Seq<Key>, accounts: Map<Key, Backlog>, a: Key)
    requires
        accounts.contains_key(a),
        queue.contains(a),
    ensures
        live(queue, accounts).contains(a),
        live(queue, accounts).len() > 0,
        accounts.contains_key(live(queue, accounts)[0]),
    decreases queue.len(),
{
    if !accounts.contains_key(queue[0]) {
        let i = choose|i: int| 0 <= i < queue.len() && queue[i] == a;
        assert(queue.drop_first()[i - 1] == a);
        lemma_live_keeps(queue.drop_first(), accounts, a);
    }
}

/// Draining keeps the invariants.
pub proof fn lemma_next_inv(s: PoolState)
    requires
        inv(s),
    ensures
        inv(next_spec(s)),
{
    let q = live(s.queue, s.accounts);
    let t = next_spec(s);
    if q.len() == 0 {
        assert forall|a: Key| #[trigger] s.accounts.contains_key(a) implies false by {
            lemma_live_keeps(s.queue, s.accounts, a);
        }
    } else {
        let a = q[0];
        lemma_live_head(s.queue, s.accounts);
        lemma_has_least(s.accounts[a]);
        let n = least(s.accounts[a]);
        lemma_drop_inv(s, a, n);
        assert forall|b: Key| #[trigger] t.accounts.contains_key(b) implies t.queue.contains(b) by {
            lemma_live_keeps(s.queue, s.accounts, b);
            let i = choose|i: int| 0 <= i < q.len() && q[i] == b;
            if i == 0 {
                assert(t.queue.last() == b);
            } else {
                assert(t.queue[i - 1] == b);
            }
        }
    }
}

/// The head of the live queue, where there is one, is a known account.
pub proof fn lemma_live_head(queue: Seq<Key>, accounts: Map<Key, Backlog>)
    ensures
        live(queue, accounts).len() > 0 ==> accounts.contains_key(live(queue, accounts)[0]),
    decreases queue.len(),
{
    if queue.len() > 0 && !accounts.contains_key(queue[0]) {
        lemma_live_head(queue.drop_first(), accounts);
    }
}

/// Dropping the smallest entry of an account, where it lies under the
/// watermark, is one step of retaining: what remains to be done is the same.
pub proof fn lemma_retain_step(s: PoolState, public: Key, min: u64, n: u64)
    requires
        inv(s),
        s.accounts.contains_key(public),
        s.accounts[public].contains_key(n),
        n < min,
    ensures
        retain_spec(drop_entry(s, public, n), public, min) == retain_spec(s, public, min),
{
    let backlog = s.accounts[public];
    let rest = backlog.remove(n);
    let kept = Map::new(|m: u64| backlog.contains_key(m) && m >= min, |m: u64| backlog[m]);
    if !(rest.dom() =~= Set::<u64>::empty()) {
        let kept_t = Map::new(|m: u64| rest.contains_key(m) && m >= min, |m: u64| rest[m]);
        assert(kept_t =~= kept);
    }
}

/// Where no entry of the account lies under the watermark, retaining changes
/// nothing.
pub proof fn lemma_retain_done(s: PoolState, public: Key, min: u64)
    requires
        inv(s),
        s.accounts.contains_key(public) ==> forall|n: u64|
            s.accounts[public].contains_key(n) ==> n >= min,
    ensures
        retain_spec(s, public, min) == s,
{
    if s.accounts.contains_key(public) {
        let backlog = s.accounts[public];
        let kept = Map::new(|m: u64| backlog.contains_key(m) && m >= min, |m: u64| backlog[m]);
        assert(kept =~= backlog);
    }
}

/// Retaining keeps the invariants.
pub proof fn lemma_retain_inv(s: PoolState, public: Key, min: u64)
    requires
        inv(s),
    ensures
        inv(retain_spec(s, public, min)),
    decreases s.transactions.len(),
{
    if s.accounts.contains_key(public) {
        lemma_has_least(s.accounts[public]);
        let n = least(s.accounts[public]);
        if n < min {
            lemma_drop_inv(s, public, n);
            lemma_retain_step(s, public, min, n);
            lemma_retain_inv(drop_entry(s, public, n), public, min);
        } else {
            lemma_retain_done(s, public, min);
        }
    }
}

} // verus!
