use crate::ordered::{is_greatest, is_least};
use crate::key::Key;
use vstd::prelude::*;

verus! {

/// The most entries that one account may have waiting at a time.
pub const MAX_BACKLOG: usize = 16;

/// The most transactions that the pool holds at a time.
pub const MAX_TRANSACTIONS: usize = 32_768;

/// A pending transaction, as far as the pool looks into it: who issued it,
/// its sequence number for that account, and the digest of its content. The
/// encoded transaction travels along in `payload` and is never read here.
#[derive(Clone, Debug)]
pub struct Transaction {
    pub public: Key,
    pub nonce: u64,
    pub digest: Key,
    pub payload: Vec<u8>,
}

/// The backlog of one account: nonce to digest.
pub type Backlog = Map<u64, Key>;

/// What a pool holds, as mathematics.
#[verifier::ext_equal]
pub struct PoolState {
    /// Digest to the stored transaction.
    pub transactions: Map<Key, Transaction>,
    /// Account to its backlog.
    pub accounts: Map<Key, Backlog>,
    /// The accounts in the order in which they will be served.
    pub queue: Seq<Key>,
}

/// The number of backlog entries over all accounts.
pub open spec fn total(accounts: Map<Key, Backlog>) -> nat
    decreases accounts.dom().len(),
    when accounts.dom().finite()
{
    if accounts.dom().len() == 0 {
        0
    } else {
        let a = accounts.dom().choose();
        accounts[a].len() + total(accounts.remove(a))
    }
}

/// The largest nonce of a backlog.
pub open spec fn greatest(backlog: Backlog) -> u64 {
    choose|n: u64| is_greatest(backlog, n)
}

/// The smallest nonce of a backlog.
pub open spec fn least(backlog: Backlog) -> u64 {
    choose|n: u64| is_least(backlog, n)
}

/// The backlog of `public`, empty when the account is unknown.
pub open spec fn backlog_of(accounts: Map<Key, Backlog>, public: Key) -> Backlog {
    if accounts.contains_key(public) {
        accounts[public]
    } else {
        Map::empty()
    }
}

/// The queue without the unknown accounts at its head.
pub open spec fn live(queue: Seq<Key>, accounts: Map<Key, Backlog>) -> Seq<Key>
    decreases queue.len(),
{
    if queue.len() == 0 || accounts.contains_key(queue[0]) {
        queue
    } else {
        live(queue.drop_first(), accounts)
    }
}

/// What holds of every pool.
pub open spec fn inv(s: PoolState) -> bool {
    &&& s.transactions.dom().finite()
    &&& s.accounts.dom().finite()
    &&& s.transactions.len() <= MAX_TRANSACTIONS
    &&& forall|a: Key| #[trigger]
        s.accounts.contains_key(a) ==> s.accounts[a].dom().finite() && 0 < s.accounts[a].len()
            <= MAX_BACKLOG
    &&& forall|a: Key, n: u64|
        s.accounts.contains_key(a) && #[trigger] s.accounts[a].contains_key(n) ==> {
            let d = s.accounts[a][n];
            &&& s.transactions.contains_key(d)
            &&& s.transactions[d].public == a
            &&& s.transactions[d].nonce == n
        }
    &&& forall|d: Key| #[trigger]
        s.transactions.contains_key(d) ==> {
            let tx = s.transactions[d];
            &&& tx.digest == d
            &&& s.accounts.contains_key(tx.public)
            &&& s.accounts[tx.public].contains_key(tx.nonce)
            &&& s.accounts[tx.public][tx.nonce] == d
        }
    &&& forall|a: Key| #[trigger] s.accounts.contains_key(a) ==> s.queue.contains(a)
    &&& s.transactions.len() == total(s.accounts)
}

/// The pool with nothing in it.
pub open spec fn empty_pool() -> PoolState {
    PoolState { transactions: Map::empty(), accounts: Map::empty(), queue: Seq::empty() }
}

/// Whether `add` turns `tx` away: the pool is full, the digest is already
/// stored, or the account already has an entry at that nonce.
pub open spec fn rejects(s: PoolState, tx: Transaction) -> bool {
    ||| s.transactions.len() >= MAX_TRANSACTIONS
    ||| s.transactions.contains_key(tx.digest)
    ||| backlog_of(s.accounts, tx.public).contains_key(tx.nonce)
}

/// The pool after `add(tx)`.
pub open spec fn add_spec(s: PoolState, tx: Transaction) -> PoolState {
    if rejects(s, tx) {
        s
    } else {
        let backlog = backlog_of(s.accounts, tx.public).insert(tx.nonce, tx.digest);
        let stored = s.transactions.insert(tx.digest, tx);
        if backlog.len() > MAX_BACKLOG {
            let top = greatest(backlog);
            PoolState {
                transactions: stored.remove(backlog[top]),
                accounts: s.accounts.insert(tx.public, backlog.remove(top)),
                queue: s.queue,
            }
        } else {
            PoolState {
                transactions: stored,
                accounts: s.accounts.insert(tx.public, backlog),
                queue: if backlog.len() == 1 {
                    s.queue.push(tx.public)
                } else {
                    s.queue
                },
            }
        }
    }
}

/// Whether `retain(public, min)` drops the transaction `tx`.
pub open spec fn expired(tx: Transaction, public: Key, min: u64) -> bool {
    tx.public == public && tx.nonce < min
}

/// The pool after `retain(public, min)`.
pub open spec fn retain_spec(s: PoolState, public: Key, min: u64) -> PoolState {
    if !s.accounts.contains_key(public) {
        s
    } else {
        let kept = Map::new(
            |n: u64| s.accounts[public].contains_key(n) && n >= min,
            |n: u64| s.accounts[public][n],
        );
        PoolState {
            transactions: Map::new(
                |d: Key| s.transactions.contains_key(d) && !expired(s.transactions[d], public, min),
                |d: Key| s.transactions[d],
            ),
            accounts: if kept.dom() =~= Set::<u64>::empty() {
                s.accounts.remove(public)
            } else {
                s.accounts.insert(public, kept)
            },
            queue: s.queue,
        }
    }
}

/// The transaction that `next` hands out, if any.
pub open spec fn next_result(s: PoolState) -> Option<Transaction> {
    let q = live(s.queue, s.accounts);
    if q.len() == 0 {
        None
    } else {
        let backlog = s.accounts[q[0]];
        Some(s.transactions[backlog[least(backlog)]])
    }
}

/// The pool without the entry of account `a` at nonce `n`: the entry leaves
/// both indices, and the account leaves with its last entry.
pub open spec fn drop_entry(s: PoolState, a: Key, n: u64) -> PoolState {
    let rest = s.accounts[a].remove(n);
    PoolState {
        transactions: s.transactions.remove(s.accounts[a][n]),
        accounts: if rest.dom() =~= Set::<u64>::empty() {
            s.accounts.remove(a)
        } else {
            s.accounts.insert(a, rest)
        },
        queue: s.queue,
    }
}

/// The pool after `next`.
pub open spec fn next_spec(s: PoolState) -> PoolState {
    let q = live(s.queue, s.accounts);
    if q.len() == 0 {
        PoolState { queue: q, ..s }
    } else {
        let a = q[0];
        let n = least(s.accounts[a]);
        let t = drop_entry(s, a, n);
        PoolState {
            queue: if t.accounts.contains_key(a) {
                q.drop_first().push(a)
            } else {
                q.drop_first()
            },
            ..t
        }
    }
}

} // verus!
