use battleware_core::table::Table;
use battleware_core::{Key, Mempool, Transaction, MAX_BACKLOG, MAX_TRANSACTIONS};

fn id(hi: u128, lo: u128) -> Key {
    Key { hi, lo }
}

/// A transaction of account `who` at `nonce`, with a digest made of both and
/// of `salt`.
fn tx(who: u128, nonce: u64, salt: u128) -> Transaction {
    Transaction {
        public: id(1, who),
        nonce,
        digest: id((who << 64) | nonce as u128, salt),
        payload: vec![salt as u8],
    }
}

#[test]
fn test_admit_and_drain_single() {
    let mut pool = Mempool::new();
    assert_eq!(pool.metrics(), (0, 0));
    pool.add(tx(7, 0, 0));
    assert_eq!(pool.len(), 1);
    assert_eq!(pool.account_count(), 1);
    assert_eq!(pool.metrics(), (1, 1));
    let next = pool.next().unwrap();
    assert_eq!(next.nonce, 0);
    assert_eq!(next.public, id(1, 7));
    assert_eq!(next.payload, vec![0u8]);
    assert_eq!(pool.len(), 0);
    assert_eq!(pool.account_count(), 0);
    assert_eq!(pool.metrics(), (0, 0));
    assert!(pool.next().is_none());
}

#[test]
fn test_conflict_on_nonce_keeps_first() {
    let mut pool = Mempool::new();
    let first = tx(1, 0, 1);
    let second = tx(1, 0, 2);
    pool.add(first.clone());
    pool.add(second.clone());
    assert!(pool.contains(&first.digest));
    assert!(!pool.contains(&second.digest));
    assert_eq!(pool.len(), 1);
    assert_eq!(pool.get(&first.digest).unwrap().payload, vec![1u8]);
    assert!(pool.get(&second.digest).is_none());
}

#[test]
fn test_duplicate_digest_is_ignored() {
    let mut pool = Mempool::new();
    let first = tx(1, 0, 1);
    let mut again = tx(2, 5, 9);
    again.digest = first.digest;
    pool.add(first);
    pool.add(again);
    assert_eq!(pool.len(), 1);
    assert_eq!(pool.account_count(), 1);
    assert!(!pool.has_account(&id(1, 2)));
    assert_eq!(pool.queued(), 1);
}

#[test]
fn test_backlog_overflow_ascending() {
    let mut pool = Mempool::new();
    for nonce in 0..17u64 {
        pool.add(tx(3, nonce, 0));
    }
    let who = id(1, 3);
    assert_eq!(pool.len(), 16);
    assert_eq!(pool.backlog(&who), 16);
    for nonce in 0..16u64 {
        assert!(pool.has_nonce(&who, nonce));
        assert!(pool.contains(&tx(3, nonce, 0).digest));
    }
    assert!(!pool.has_nonce(&who, 16));
    assert!(!pool.contains(&tx(3, 16, 0).digest));
    assert_eq!(pool.queued(), 1);
    assert_eq!(pool.metrics(), (16, 1));
}

#[test]
fn test_backlog_overflow_evicts_older_entry_with_largest_nonce() {
    let mut pool = Mempool::new();
    for nonce in 1..17u64 {
        pool.add(tx(3, nonce, 0));
    }
    pool.add(tx(3, 0, 0));
    let who = id(1, 3);
    assert_eq!(pool.backlog(&who), MAX_BACKLOG);
    assert!(pool.has_nonce(&who, 0));
    assert!(pool.has_nonce(&who, 15));
    assert!(!pool.has_nonce(&who, 16));
    assert!(!pool.contains(&tx(3, 16, 0).digest));
    assert!(pool.contains(&tx(3, 0, 0).digest));
    assert_eq!(pool.len(), MAX_BACKLOG);
}

#[test]
fn test_round_robin_order() {
    let mut pool = Mempool::new();
    for who in [10u128, 20, 30] {
        for nonce in 0..2u64 {
            pool.add(tx(who, nonce, 0));
        }
    }
    let mut served = Vec::new();
    for _ in 0..6 {
        let next = pool.next().unwrap();
        served.push((next.public.lo, next.nonce));
    }
    assert_eq!(
        served,
        vec![(10, 0), (20, 0), (30, 0), (10, 1), (20, 1), (30, 1)]
    );
    assert!(pool.next().is_none());
    assert_eq!(pool.queued(), 0);
}

#[test]
fn test_round_robin_with_stragglers() {
    let mut pool = Mempool::new();
    pool.add(tx(1, 0, 0));
    pool.add(tx(2, 0, 0));
    pool.add(tx(2, 1, 0));
    pool.add(tx(2, 2, 0));
    pool.add(tx(3, 0, 0));
    let mut served = Vec::new();
    while let Some(next) = pool.next() {
        served.push((next.public.lo, next.nonce));
    }
    assert_eq!(served, vec![(1, 0), (2, 0), (3, 0), (2, 1), (2, 2)]);
}

#[test]
fn test_next_takes_smallest_nonce_whatever_the_order_of_arrival() {
    let mut pool = Mempool::new();
    for nonce in [5u64, 2, 9, 0, 7] {
        pool.add(tx(4, nonce, 0));
    }
    let mut served = Vec::new();
    while let Some(next) = pool.next() {
        served.push(next.nonce);
    }
    assert_eq!(served, vec![0, 2, 5, 7, 9]);
}

#[test]
fn test_lazy_queue_skip() {
    let mut pool = Mempool::new();
    pool.add(tx(1, 0, 0));
    pool.add(tx(2, 0, 0));
    pool.retain(&id(1, 1), 1);
    assert_eq!(pool.queued(), 2);
    assert_eq!(pool.account_count(), 1);
    let next = pool.next().unwrap();
    assert_eq!(next.public, id(1, 2));
    assert_eq!(pool.queued(), 0);
}

#[test]
fn test_readmitted_account_is_queued_again() {
    let mut pool = Mempool::new();
    pool.add(tx(1, 0, 0));
    pool.retain(&id(1, 1), 1);
    pool.add(tx(1, 1, 0));
    assert_eq!(pool.queued(), 2);
    assert_eq!(pool.next().unwrap().nonce, 1);
    assert!(pool.next().is_none());
    assert_eq!(pool.queued(), 0);
}

#[test]
fn test_retain_watermark() {
    let mut pool = Mempool::new();
    for nonce in [1u64, 3, 4, 8] {
        pool.add(tx(5, nonce, 0));
    }
    pool.add(tx(6, 0, 0));
    pool.retain(&id(1, 5), 4);
    let who = id(1, 5);
    assert!(!pool.has_nonce(&who, 1));
    assert!(!pool.has_nonce(&who, 3));
    assert!(pool.has_nonce(&who, 4));
    assert!(pool.has_nonce(&who, 8));
    assert!(!pool.contains(&tx(5, 1, 0).digest));
    assert!(!pool.contains(&tx(5, 3, 0).digest));
    assert!(pool.contains(&tx(5, 4, 0).digest));
    assert!(pool.contains(&tx(5, 8, 0).digest));
    assert!(pool.contains(&tx(6, 0, 0).digest));
    assert_eq!(pool.len(), 3);
    assert_eq!(pool.metrics(), (3, 2));
    pool.retain(&who, 4);
    assert_eq!(pool.len(), 3);
    pool.retain(&who, u64::MAX);
    assert!(!pool.has_account(&who));
    assert_eq!(pool.backlog(&who), 0);
    assert_eq!(pool.metrics(), (1, 1));
}

#[test]
fn test_retain_zero_keeps_all() {
    let mut pool = Mempool::new();
    pool.add(tx(5, 0, 0));
    pool.add(tx(5, 1, 0));
    pool.retain(&id(1, 5), 0);
    assert_eq!(pool.len(), 2);
    assert_eq!(pool.backlog(&id(1, 5)), 2);
}

#[test]
fn test_sizes_agree() {
    let mut pool = Mempool::new();
    for who in 0..40u128 {
        for nonce in 0..(who as u64 % 20) {
            pool.add(tx(who, nonce, 0));
        }
    }
    for who in 0..40u128 {
        pool.retain(&id(1, who), who as u64 % 7);
    }
    for _ in 0..25 {
        pool.next();
    }
    let mut sum = 0;
    let mut accounts = 0;
    for who in 0..40u128 {
        let backlog = pool.backlog(&id(1, who));
        assert!(backlog <= MAX_BACKLOG);
        assert_eq!(backlog > 0, pool.has_account(&id(1, who)));
        sum += backlog;
        if backlog > 0 {
            accounts += 1;
        }
    }
    assert_eq!(pool.len(), sum);
    assert_eq!(pool.account_count(), accounts);
    assert_eq!(pool.metrics(), (sum as i64, accounts as i64));
}

#[test]
fn test_full_pool_takes_nothing() {
    let mut pool = Mempool::new();
    for who in 0..MAX_TRANSACTIONS as u128 {
        pool.add(tx(who, 0, 0));
    }
    assert_eq!(pool.len(), MAX_TRANSACTIONS);
    pool.add(tx(0, 1, 0));
    pool.add(tx(MAX_TRANSACTIONS as u128, 0, 0));
    assert_eq!(pool.len(), MAX_TRANSACTIONS);
    assert_eq!(pool.backlog(&id(1, 0)), 1);
    assert_eq!(pool.metrics().0, MAX_TRANSACTIONS as i64);
    let first = pool.next().unwrap();
    assert_eq!(first.public, id(1, 0));
    pool.add(tx(MAX_TRANSACTIONS as u128, 0, 0));
    assert_eq!(pool.len(), MAX_TRANSACTIONS);
    assert!(pool.has_account(&id(1, MAX_TRANSACTIONS as u128)));
}

#[test]
fn test_table_keeps_both_halves_of_a_key_apart() {
    let mut table: Table<u32> = Table::new();
    assert_eq!(table.insert(id(1, 1), 11), None);
    assert_eq!(table.insert(id(1, 2), 12), None);
    assert_eq!(table.insert(id(2, 1), 21), None);
    assert_eq!(table.len(), 3);
    assert_eq!(table.insert(id(1, 2), 120), Some(12));
    assert_eq!(table.len(), 3);
    assert_eq!(table.get(&id(1, 1)), Some(&11));
    assert_eq!(table.get(&id(1, 2)), Some(&120));
    assert_eq!(table.get(&id(2, 1)), Some(&21));
    assert_eq!(table.get(&id(2, 2)), None);
    assert!(table.contains_key(&id(2, 1)));
    assert!(!table.contains_key(&id(3, 1)));
    assert_eq!(table.remove(&id(1, 1)), Some(11));
    assert_eq!(table.remove(&id(1, 1)), None);
    assert_eq!(table.remove(&id(3, 3)), None);
    assert_eq!(table.len(), 2);
    assert_eq!(table.remove(&id(1, 2)), Some(120));
    assert_eq!(table.remove(&id(2, 1)), Some(21));
    assert_eq!(table.len(), 0);
}

#[test]
fn test_key_from_bytes() {
    let mut bytes = [0u8; 32];
    for (i, byte) in bytes.iter_mut().enumerate() {
        *byte = i as u8 + 1;
    }
    let key = Key::from_bytes(&bytes).unwrap();
    assert_eq!(key.hi, 0x0102030405060708090a0b0c0d0e0f10);
    assert_eq!(key.lo, 0x1112131415161718191a1b1c1d1e1f20);
    assert_eq!(Key::from_bytes(&[0xff; 32]), Some(id(u128::MAX, u128::MAX)));
    assert_eq!(Key::from_bytes(&[0; 32]), Some(id(0, 0)));
    assert_eq!(Key::from_bytes(&bytes[..31]), None);
    assert_eq!(Key::from_bytes(&[0; 33]), None);
    assert_eq!(Key::from_bytes(&[]), None);
}
