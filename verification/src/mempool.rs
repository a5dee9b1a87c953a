use crate::gauge::{gauge_get, gauge_new, gauge_set, gauge_value};
use crate::invariants::{
    lemma_add_inv, lemma_drop_inv, lemma_next_inv, lemma_retain_done, lemma_retain_step,
};
use crate::key::Key;
use crate::lemmas::lemma_total_covers;
use crate::model::{
    add_spec, backlog_of, drop_entry, empty_pool, inv, next_result, next_spec, retain_spec, Backlog, PoolState, Transaction, MAX_BACKLOG, MAX_TRANSACTIONS,
};
use crate::ordered::{first_entry, pop_first, pop_last};
use crate::properties::lemma_next_none;
use crate::table::Table;
use prometheus_client::metrics::gauge::Gauge;
use std::collections::{BTreeMap, VecDeque};
use std::sync::atomic::AtomicI64;
use vstd::pervasive::unreached;
use vstd::prelude::*;

verus! {

/// A pool of pending transactions.
///
/// Transactions are found by digest and, per account, by nonce. Accounts wait
/// in a queue and are served in turn, each with its smallest nonce first.
pub struct Mempool {
    transactions: Table<Transaction>,
    backlogs: Table<BTreeMap<u64, Key>>,
    /// Accounts rather than digests are queued: transactions may arrive out of
    /// order, and an account's turn goes to the smallest nonce it has then.
    queue: VecDeque<Key>,
    unique: Gauge<i64, AtomicI64>,
    accounts: Gauge<i64, AtomicI64>,
}

impl View for Mempool {
    type V = PoolState;

    closed spec fn view(&self) -> PoolState {
        PoolState {
            transactions: self.transactions@,
            accounts: self.backlogs@.map_values(|b: BTreeMap<u64, Key>| b@),
            queue: self.queue@,
        }
    }
}

impl Mempool {
    /// The number that the gauge of transactions shows.
    pub closed spec fn shown_transactions(&self) -> i64 {
        gauge_value(self.unique)
    }

    /// The number that the gauge of accounts shows.
    pub closed spec fn shown_accounts(&self) -> i64 {
        gauge_value(self.accounts)
    }

    /// Both tables are sound, and what they hold meets the invariants of a
    /// pool.
    spec fn sound(&self) -> bool {
        &&& self.transactions.wf()
        &&& self.backlogs.wf()
        &&& inv(self@)
    }

    /// The pool is sound, and both gauges show the sizes of the two indices.
    pub closed spec fn wf(&self) -> bool {
        &&& self.sound()
        &&& gauge_value(self.unique) == self@.transactions.len()
        &&& gauge_value(self.accounts) == self@.accounts.len()
    }

    /// The gauges show the number of transactions and the number of accounts.
    pub open spec fn metrics_current(&self) -> bool {
        &&& self.shown_transactions() == self@.transactions.len()
        &&& self.shown_accounts() == self@.accounts.len()
    }

    /// A well-formed pool meets the invariants, and its gauges show the number
    /// of transactions and the number of accounts.
    pub proof fn lemma_inv(&self)
        requires
            self.wf(),
        ensures
            inv(self@),
            self.metrics_current(),
    {
    }

    /// Creates an empty pool, with both gauges at zero.
    pub fn new() -> (pool: Self)
        ensures
            pool.wf(),
            pool@ == empty_pool(),
            pool.metrics_current(),
    {
        let pool = Mempool {
            transactions: Table::new(),
            backlogs: Table::new(),
            queue: VecDeque::new(),
            unique: gauge_new(),
            accounts: gauge_new(),
        };
        proof {
            assert(pool@.accounts =~= empty_pool().accounts);
        }
        pool
    }

    /// Admits `tx`, unless the pool is full, the digest is already stored, or
    /// the account already has an entry at that nonce. Where the account then
    /// holds more than `MAX_BACKLOG` entries, the one with the largest nonce
    /// leaves again. An account that got its first entry joins the queue.
    pub fn add(&mut self, tx: Transaction)
        requires
            old(self).wf(),
        ensures
            final(self).wf(),
            final(self)@ == add_spec(old(self)@, tx),
            final(self).metrics_current(),
    {
        proof {
            self.lemma_sizes();
            self.lemma_accounts();
        }
        if self.transactions.len() >= MAX_TRANSACTIONS {
            return ;
        }
        if self.transactions.contains_key(&tx.digest) {
            return ;
        }
        let public = tx.public;
        let nonce = tx.nonce;
        let digest = tx.digest;
        let known = match self.backlogs.get(&public) {
            Some(backlog) => backlog.contains_key(&nonce),
            None => false,
        };
        if known {
            return ;
        }
        let mut entry = match self.backlogs.remove(&public) {
            Some(entry) => entry,
            None => BTreeMap::new(),
        };
        entry.insert(nonce, digest);
        self.transactions.insert(digest, tx);
        let entries = entry.len();
        if entries > MAX_BACKLOG {
            if let Some((_, future)) = pop_last(&mut entry) {
                self.transactions.remove(&future);
            }
        }
        self.backlogs.insert(public, entry);
        if entries == 1 {
            self.queue.push_back(public);
        }
        proof {
            assert(self@.accounts =~= add_spec(old(self)@, tx).accounts);
            lemma_add_inv(old(self)@, tx);
        }
        self.update_metrics();
    }

    /// The pool as it stands while the backlog of `public` is held apart: the
    /// account has `entry`, or is unknown where `entry` is empty.
    spec fn with_entry(&self, public: Key, entry: Backlog) -> PoolState {
        PoolState {
            transactions: self.transactions@,
            accounts: if entry.dom() =~= Set::<u64>::empty() {
                self@.accounts.remove(public)
            } else {
                self@.accounts.insert(public, entry)
            },
            queue: self.queue@,
        }
    }

    /// Drops every entry of `public` whose nonce is under `min`, smallest
    /// first, and the account with its last entry. The queue stays as it is.
    /// An unknown account changes nothing.
    pub fn retain(&mut self, public: &Key, min: u64)
        requires
            old(self).wf(),
        ensures
            final(self).wf(),
            final(self)@ == retain_spec(old(self)@, *public, min),
            final(self).metrics_current(),
    {
        proof {
            self.lemma_sizes();
            self.lemma_accounts();
        }
        let mut entry = match self.backlogs.remove(public) {
            Some(entry) => entry,
            None => {
                assert(self.backlogs@ =~= old(self).backlogs@);
                return ;
            },
        };
        assert(self.with_entry(*public, entry@) =~= old(self)@);
        loop
            invariant
                self.transactions.wf(),
                self.backlogs.wf(),
                !self.backlogs@.contains_key(*public),
                self.backlogs@.len() < MAX_TRANSACTIONS,
                inv(self.with_entry(*public, entry@)),
                retain_spec(self.with_entry(*public, entry@), *public, min) == retain_spec(
                    old(self)@,
                    *public,
                    min,
                ),
            ensures
                retain_spec(self.with_entry(*public, entry@), *public, min) == self.with_entry(
                    *public,
                    entry@,
                ),
            decreases entry@.len(),
        {
            let ghost cur = self.with_entry(*public, entry@);
            match first_entry(&entry) {
                None => {
                    break ;
                },
                Some((nonce, digest)) => {
                    if nonce >= min {
                        proof {
                            lemma_retain_done(cur, *public, min);
                        }
                        break ;
                    }
                    proof {
                        lemma_drop_inv(cur, *public, nonce);
                        lemma_retain_step(cur, *public, min, nonce);
                    }
                    self.transactions.remove(&digest);
                    pop_first(&mut entry);
                    assert(self.with_entry(*public, entry@) =~= drop_entry(cur, *public, nonce));
                },
            }
        }
        let ghost done = self.with_entry(*public, entry@);
        if !entry.is_empty() {
            self.backlogs.insert(*public, entry);
        }
        assert(self@.accounts =~= done.accounts);
        self.update_metrics();
    }

    /// Hands out the next transaction: that of the first known account in the
    /// queue, with its smallest nonce. Unknown accounts at the head of the
    /// queue are dropped on the way. The account goes to the back of the queue
    /// if it has entries left, and leaves the pool if it has none.
    pub fn next(&mut self) -> (tx: Option<Transaction>)
        requires
            old(self).wf(),
        ensures
            final(self).wf(),
            final(self)@ == next_spec(old(self)@),
            tx == next_result(old(self)@),
            tx.is_none() <==> old(self)@.transactions.len() == 0,
            final(self).metrics_current(),
    {
        proof {
            lemma_next_none(old(self)@);
        }
        loop
            invariant
                self.wf(),
                next_spec(self@) == next_spec(old(self)@),
                next_result(self@) == next_result(old(self)@),
                next_result(old(self)@).is_none() <==> old(self)@.transactions.len() == 0,
            decreases self.queue@.len(),
        {
            let ghost s = self@;
            proof {
                self.lemma_sizes();
                self.lemma_accounts();
            }
            let address = match self.queue.pop_front() {
                Some(address) => address,
                None => return None,
            };
            match self.backlogs.remove(&address) {
                None => {
                    proof {
                        assert(self@.accounts =~= s.accounts);
                        assert forall|a: Key| #[trigger]
                            self@.accounts.contains_key(a) implies self@.queue.contains(a) by {
                            let i = choose|i: int| 0 <= i < s.queue.len() && s.queue[i] == a;
                            assert(self@.queue[i - 1] == a);
                        }
                    }
                },
                Some(mut entry) => {
                    match pop_first(&mut entry) {
                        None => return unreached(),
                        Some((nonce, digest)) => {
                            proof {
                                lemma_next_inv(s);
                            }
                            if !entry.is_empty() {
                                self.queue.push_back(address);
                                self.backlogs.insert(address, entry);
                            }
                            let tx = self.transactions.remove(&digest);
                            proof {
                                assert(self@.accounts =~= next_spec(s).accounts);
                            }
                            self.update_metrics();
                            return tx;
                        },
                    }
                },
            }
        }
    }

    /// The number of transactions in the pool.
    pub fn len(&self) -> (n: usize)
        requires
            self.wf(),
        ensures
            n == self@.transactions.len(),
            n <= MAX_TRANSACTIONS,
    {
        self.transactions.len()
    }

    /// The number of accounts that have a backlog.
    pub fn account_count(&self) -> (n: usize)
        requires
            self.wf(),
        ensures
            n == self@.accounts.len(),
    {
        proof {
            self.lemma_accounts();
        }
        self.backlogs.len()
    }

    /// The length of the queue, unknown accounts included.
    pub fn queued(&self) -> (n: usize)
        requires
            self.wf(),
        ensures
            n == self@.queue.len(),
    {
        self.queue.len()
    }

    /// Whether a transaction with this digest is stored.
    pub fn contains(&self, digest: &Key) -> (found: bool)
        requires
            self.wf(),
        ensures
            found == self@.transactions.contains_key(*digest),
    {
        self.transactions.contains_key(digest)
    }

    /// The stored transaction with this digest.
    pub fn get(&self, digest: &Key) -> (found: Option<&Transaction>)
        requires
            self.wf(),
        ensures
            match found {
                Some(tx) => self@.transactions.contains_key(*digest) && *tx
                    == self@.transactions[*digest],
                None => !self@.transactions.contains_key(*digest),
            },
    {
        self.transactions.get(digest)
    }

    /// Whether the account has a backlog.
    pub fn has_account(&self, public: &Key) -> (found: bool)
        requires
            self.wf(),
        ensures
            found == self@.accounts.contains_key(*public),
    {
        self.backlogs.contains_key(public)
    }

    /// The number of entries that the account has waiting.
    pub fn backlog(&self, public: &Key) -> (n: usize)
        requires
            self.wf(),
        ensures
            n == backlog_of(self@.accounts, *public).len(),
            n <= MAX_BACKLOG,
    {
        match self.backlogs.get(public) {
            Some(entry) => entry.len(),
            None => 0,
        }
    }

    /// Whether the account has an entry at this nonce.
    pub fn has_nonce(&self, public: &Key, nonce: u64) -> (found: bool)
        requires
            self.wf(),
        ensures
            found == backlog_of(self@.accounts, *public).contains_key(nonce),
    {
        match self.backlogs.get(public) {
            Some(entry) => entry.contains_key(&nonce),
            None => false,
        }
    }

    /// What the two gauges show: transactions first, then accounts.
    pub fn metrics(&self) -> (shown: (i64, i64))
        requires
            self.wf(),
        ensures
            shown.0 == self@.transactions.len(),
            shown.1 == self@.accounts.len(),
    {
        (gauge_get(&self.unique), gauge_get(&self.accounts))
    }

    /// The gauge of transactions, to be registered with a metrics registry.
    pub fn transactions_gauge(&self) -> (gauge: &Gauge<i64, AtomicI64>)
        ensures
            gauge_value(*gauge) == self.shown_transactions(),
    {
        &self.unique
    }

    /// The gauge of accounts, to be registered with a metrics registry.
    pub fn accounts_gauge(&self) -> (gauge: &Gauge<i64, AtomicI64>)
        ensures
            gauge_value(*gauge) == self.shown_accounts(),
    {
        &self.accounts
    }

    /// Writes the sizes of the two indices to the gauges.
    fn update_metrics(&mut self)
        requires
            old(self).sound(),
        ensures
            final(self).wf(),
            final(self)@ == old(self)@,
    {
        proof {
            self.lemma_sizes();
            self.lemma_accounts();
        }
        let unique = self.transactions.len();
        let accounts = self.backlogs.len();
        gauge_set(&mut self.unique, unique as i64);
        gauge_set(&mut self.accounts, accounts as i64);
    }

    /// The pool holds at most `MAX_TRANSACTIONS` transactions, and no more
    /// accounts than transactions.
    proof fn lemma_sizes(&self)
        requires
            self.sound(),
        ensures
            self@.transactions.len() <= MAX_TRANSACTIONS,
            self@.accounts.len() <= self@.transactions.len(),
    {
        lemma_total_covers(self@.accounts);
    }

    /// The view has the accounts of the table of backlogs.
    proof fn lemma_accounts(&self)
        requires
            self.sound(),
        ensures
            self@.accounts.dom() == self.backlogs@.dom(),
            self@.accounts.len() == self.backlogs@.len(),
    {
        assert(self@.accounts.dom() =~= self.backlogs@.dom());
    }
}

} // verus!
