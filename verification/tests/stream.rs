use battleware_core::events::{Seed, Update};
use battleware_core::stream::{Identity, Incoming, Reader, StreamError, Verifiable};
use battleware_types::api::{Events, FilteredEvents};
use commonware_codec::{Encode, ReadExt};
use commonware_cryptography::bls12381::primitives::{group::Private, ops, variant::MinSig};
use commonware_cryptography::{Hasher, Sha256};
use commonware_runtime::{deterministic, Runner};
use tokio_tungstenite::tungstenite;

/// A batch of events of the wire, verified as the wire type verifies.
#[derive(Clone, Debug, PartialEq)]
struct Batch(Events);

impl Verifiable for Batch {
    fn verify(&self, identity: &Identity) -> bool {
        self.0.verify(identity)
    }
}

/// The filtered events of a batch of the wire, verified as the wire type
/// verifies.
#[derive(Clone, Debug)]
struct FilteredBatch(FilteredEvents);

impl Verifiable for FilteredBatch {
    fn verify(&self, identity: &Identity) -> bool {
        self.0.verify(identity)
    }
}

type Announced = Update<Batch, FilteredBatch>;

/// An event that verifies if its number is even.
#[derive(Debug, PartialEq)]
struct Even(u64);

impl Verifiable for Even {
    fn verify(&self, _: &Identity) -> bool {
        self.0 % 2 == 0
    }
}

/// A binary message as the reader gets it: the payload, decoded whole.
fn binary<T>(payload: &[u8], make: fn(u64) -> T) -> Incoming<T> {
    let mut buf = payload;
    Incoming::Binary(u64::read(&mut buf).map(make))
}

fn number(n: u64) -> u64 {
    n
}

/// A signing key and its identity.
fn keys(seed: u64) -> (Private, Identity) {
    let runner = deterministic::Runner::seeded(seed);
    runner.start(|mut ctx| async move { ops::keypair::<_, MinSig>(&mut ctx) })
}

/// An identity and the seed of `view` signed for it.
fn signed_seed(view: u64) -> (Identity, Seed) {
    let (private, identity) = keys(view);
    let namespace = [battleware_types::NAMESPACE, b"_SEED"].concat();
    let signature = ops::sign_message::<MinSig>(&private, Some(&namespace), &view.to_be_bytes());
    (identity, Seed { view, signature })
}

/// The encoding of the progress of a chain at `height`, whose log of events
/// runs from `start` to `end`. The root is that of an empty log.
fn progress(height: u64, start: u64, end: u64) -> Vec<u8> {
    let mut bytes = Vec::new();
    bytes.extend(1u64.to_be_bytes());
    bytes.extend(height.to_be_bytes());
    bytes.extend(Sha256::hash(b"block").as_ref());
    bytes.extend(Sha256::hash(b"state").as_ref());
    bytes.extend(0u64.to_be_bytes());
    bytes.extend(0u64.to_be_bytes());
    bytes.extend(Sha256::hash(&0u64.to_be_bytes()).as_ref());
    bytes.extend(start.to_be_bytes());
    bytes.extend(end.to_be_bytes());
    bytes
}

/// The encoding of a batch: `stated` as its progress, a certificate over the
/// digest of `signed`, an empty proof, and `operations`.
fn certified(private: &Private, signed: &[u8], stated: &[u8], operations: &[u8]) -> Vec<u8> {
    let mut item = vec![0u8];
    item.extend(Sha256::hash(signed).as_ref());
    let namespace = [battleware_types::NAMESPACE, b"_AGG_ACK"].concat();
    let signature = ops::sign_message::<MinSig>(private, Some(&namespace), &item);
    let mut bytes = stated.to_vec();
    bytes.extend(item);
    bytes.extend(signature.encode());
    bytes.extend([0u8, 0]);
    bytes.extend(operations);
    bytes
}

/// The encoding of a certified batch without events at `height`. `claimed`
/// is the height that the encoding states.
fn batch(private: &Private, height: u64, claimed: u64) -> Vec<u8> {
    certified(
        private,
        &progress(height, 0, 0),
        &progress(claimed, 0, 0),
        &[0],
    )
}

#[test]
fn test_events_come_in_order() {
    let mut reader = Reader::new();
    assert!(reader.is_reading());
    assert!(!reader.is_verifying());
    for n in [3u64, 1, 2] {
        let action = reader.react(binary(&n.to_be_bytes(), number), true);
        assert!(!action.stop);
        assert!(matches!(action.item, Some(Ok(m)) if m == n));
    }
    assert!(reader.is_reading());
}

#[test]
fn test_other_messages_give_nothing() {
    let mut reader = Reader::new();
    let action = reader.react(Incoming::<u64>::Other, true);
    assert!(action.item.is_none());
    assert!(!action.stop);
    assert!(reader.is_reading());
}

#[test]
fn test_decode_isolation() {
    let mut reader = Reader::new();
    let first = reader.react(binary(&1u64.to_be_bytes(), number), true);
    assert!(matches!(first.item, Some(Ok(1))));
    let bad = reader.react(binary(&[1, 2, 3], number), true);
    assert!(matches!(
        bad.item,
        Some(Err(StreamError::InvalidData(
            commonware_codec::Error::EndOfBuffer
        )))
    ));
    assert!(!bad.stop);
    let second = reader.react(binary(&2u64.to_be_bytes(), number), true);
    assert!(matches!(second.item, Some(Ok(2))));
    assert!(reader.is_reading());
}

#[test]
fn test_verification_isolation() {
    let (identity, _) = signed_seed(1);
    let mut reader = Reader::new_with_verifier(identity);
    assert!(reader.is_verifying());
    let first = reader.receive(binary(&2u64.to_be_bytes(), Even));
    assert_eq!(first.item.unwrap().unwrap(), Even(2));
    let bad = reader.receive(binary(&3u64.to_be_bytes(), Even));
    assert!(matches!(bad.item, Some(Err(StreamError::InvalidSignature))));
    assert!(!bad.stop);
    let second = reader.receive(binary(&4u64.to_be_bytes(), Even));
    assert_eq!(second.item.unwrap().unwrap(), Even(4));
    assert!(reader.is_reading());
}

#[test]
fn test_reader_without_identity_does_not_verify() {
    let mut reader = Reader::new();
    let action = reader.receive(binary(&3u64.to_be_bytes(), Even));
    assert_eq!(action.item.unwrap().unwrap(), Even(3));
}

#[test]
fn test_verdict_counts_only_where_the_reader_verifies() {
    let (identity, _) = signed_seed(1);
    let mut plain = Reader::new();
    let action = plain.react(Incoming::Binary(Ok(5u64)), false);
    assert!(matches!(action.item, Some(Ok(5))));
    let mut strict = Reader::new_with_verifier(identity);
    let action = strict.react(Incoming::Binary(Ok(5u64)), false);
    assert!(matches!(action.item, Some(Err(StreamError::InvalidSignature))));
    let action = strict.react(Incoming::Binary(Ok(5u64)), true);
    assert!(matches!(action.item, Some(Ok(5))));
}

#[test]
fn test_terminal_close() {
    let mut reader = Reader::new();
    let action = reader.react(Incoming::<u64>::Close, true);
    assert!(matches!(
        action.item,
        Some(Err(StreamError::ConnectionClosed))
    ));
    assert!(action.stop);
    assert!(!reader.is_reading());
    for _ in 0..3 {
        let after = reader.react(binary(&1u64.to_be_bytes(), number), true);
        assert!(after.item.is_none());
        assert!(after.stop);
    }
    let after = reader.react(Incoming::<u64>::Close, true);
    assert!(after.item.is_none());
}

#[test]
fn test_transport_error_is_terminal() {
    let mut reader = Reader::new();
    let action = reader.react(
        Incoming::<u64>::Failed(tungstenite::Error::AlreadyClosed),
        true,
    );
    assert!(matches!(
        action.item,
        Some(Err(StreamError::Transport(
            tungstenite::Error::AlreadyClosed
        )))
    ));
    assert!(action.stop);
    assert!(!reader.is_reading());
    let after = reader.receive(binary(&2u64.to_be_bytes(), Even));
    assert!(after.item.is_none());
    assert!(after.stop);
}

#[test]
fn test_reader_stops_when_the_consumer_is_gone() {
    let mut reader = Reader::new();
    let action = reader.react(Incoming::Binary(Ok(1u64)), true);
    assert!(action.item.is_some());
    assert!(reader.sent(true));
    assert!(reader.is_reading());
    let action = reader.react(Incoming::Binary(Ok(2u64)), true);
    assert!(action.item.is_some());
    assert!(!reader.sent(false));
    assert!(!reader.is_reading());
    let action = reader.react(Incoming::Binary(Ok(3u64)), true);
    assert!(action.item.is_none());
    assert!(action.stop);
    assert!(!reader.sent(true));
}

#[test]
fn test_seed_verifies_against_its_identity() {
    let (identity, seed) = signed_seed(42);
    assert!(seed.verify(&identity));
    let forged = Seed {
        view: 43,
        signature: seed.signature,
    };
    assert!(!forged.verify(&identity));
    let (stranger, _) = signed_seed(43);
    assert!(!forged.verify(&stranger));
}

#[test]
fn test_update_dispatches_to_the_seed() {
    let (identity, seed) = signed_seed(7);
    let forged = Announced::Seed(Seed {
        view: 8,
        signature: seed.signature,
    });
    let good = Announced::Seed(seed);
    assert!(good.verify(&identity));
    assert!(!forged.verify(&identity));

    let mut reader = Reader::new_with_verifier(identity);
    let action = reader.receive(Incoming::Binary(Ok(good)));
    assert!(matches!(action.item, Some(Ok(Update::Seed(Seed { view: 7, .. })))));
    let action = reader.receive(Incoming::Binary(Ok(forged)));
    assert!(matches!(action.item, Some(Err(StreamError::InvalidSignature))));
    assert!(reader.is_reading());
}

#[test]
fn test_update_dispatches_to_the_events() {
    let (private, identity) = keys(1);
    let (_, stranger) = keys(2);
    let good = Batch(Events::read(&mut batch(&private, 5, 5).as_slice()).unwrap());
    let altered = Batch(Events::read(&mut batch(&private, 5, 6).as_slice()).unwrap());
    assert!(Announced::Events(good.clone()).verify(&identity));
    assert!(!Announced::Events(good.clone()).verify(&stranger));
    assert!(!Announced::Events(altered.clone()).verify(&identity));

    let mut reader = Reader::new_with_verifier(identity);
    let action = reader.receive(Incoming::Binary(Ok(Announced::Events(good.clone()))));
    assert!(matches!(action.item, Some(Ok(Update::Events(events))) if events == good));
    let action = reader.receive(Incoming::Binary(Ok(Announced::Events(altered))));
    assert!(matches!(action.item, Some(Err(StreamError::InvalidSignature))));
    let action = reader.receive(Incoming::Binary(Ok(Announced::Events(good.clone()))));
    assert!(matches!(action.item, Some(Ok(Update::Events(events))) if events == good));
    assert!(reader.is_reading());
}

#[test]
fn test_update_dispatches_to_the_filtered_events() {
    let (private, identity) = keys(3);
    let (_, stranger) = keys(4);
    let good = FilteredBatch(FilteredEvents::read(&mut batch(&private, 9, 9).as_slice()).unwrap());
    let altered =
        FilteredBatch(FilteredEvents::read(&mut batch(&private, 9, 8).as_slice()).unwrap());
    assert!(Announced::FilteredEvents(good.clone()).verify(&identity));
    assert!(!Announced::FilteredEvents(good).verify(&stranger));
    assert!(!Announced::FilteredEvents(altered).verify(&identity));
}

#[test]
fn test_update_is_verified_by_its_own_kind() {
    let (private, identity) = keys(5);
    let (_, seed) = signed_seed(5);
    let altered = Batch(Events::read(&mut batch(&private, 5, 6).as_slice()).unwrap());
    let good = FilteredBatch(FilteredEvents::read(&mut batch(&private, 9, 9).as_slice()).unwrap());
    let updates = [
        Announced::Seed(seed),
        Announced::Events(altered),
        Announced::FilteredEvents(good),
    ];
    let verdicts: Vec<bool> = updates.iter().map(|u| u.verify(&identity)).collect();
    assert_eq!(verdicts, vec![true, false, true]);
}
