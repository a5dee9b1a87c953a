use crate::stream::{item_of, run, terminal, DecodeError, Incoming, StreamError};
use vstd::prelude::*;

verus! {

/// No message of `frames` ends the stream.
pub open spec fn unbroken<T>(frames: Seq<Incoming<T>>) -> bool {
    forall|i: int| 0 <= i < frames.len() ==> !terminal(#[trigger] frames[i])
}

/// Messages that do not end the stream are handled one after the other: what
/// comes of two runs of messages is what comes of the first, then what comes
/// of the second.
pub proof fn lemma_run_concat<T>(
    verifying: bool,
    valid: spec_fn(T) -> bool,
    before: Seq<Incoming<T>>,
    after: Seq<Incoming<T>>,
)
    requires
        unbroken(before),
    ensures
        run(verifying, valid, before + after) == run(verifying, valid, before) + run(
            verifying,
            valid,
            after,
        ),
    decreases before.len(),
{
    if before.len() > 0 {
        assert((before + after).drop_first() =~= before.drop_first() + after);
        lemma_run_concat(verifying, valid, before.drop_first(), after);
    }
}

/// Order. Where every message brings an event, and every event verifies if
/// the reader verifies, the consumer gets the events themselves, one for one
/// and in the order of the messages.
pub proof fn lemma_order<T>(verifying: bool, valid: spec_fn(T) -> bool, frames: Seq<Incoming<T>>)
    requires
        forall|i: int|
            0 <= i < frames.len() ==> (#[trigger] frames[i] matches Incoming::Binary(Ok(event))
                && (verifying ==> valid(event))),
    ensures
        run(verifying, valid, frames).len() == frames.len(),
        forall|i: int|
            0 <= i < frames.len() ==> (#[trigger] frames[i] matches Incoming::Binary(Ok(event))
                && run(verifying, valid, frames)[i] == Ok::<T, StreamError>(event)),
    decreases frames.len(),
{
    if frames.len() > 0 {
        let rest = frames.drop_first();
        lemma_order(verifying, valid, rest);
        assert forall|i: int| 0 <= i < frames.len() implies (#[trigger] frames[i] matches Incoming::Binary(
            Ok(event),
        ) && run(verifying, valid, frames)[i] == Ok::<T, StreamError>(event)) by {
            if i > 0 {
                assert(rest[i - 1] == frames[i]);
            }
        }
    }
}

/// One message on its own gives its item, if it has one.
pub proof fn lemma_run_one<T>(verifying: bool, valid: spec_fn(T) -> bool, frame: Incoming<T>)
    ensures
        run(verifying, valid, seq![frame]) == (match item_of(
            verifying,
            frame,
            match frame {
                Incoming::Binary(Ok(event)) => valid(event),
                _ => true,
            },
        ) {
            Some(item) => seq![item],
            None => Seq::empty(),
        }),
{
    let rest = seq![frame].drop_first();
    assert(run(verifying, valid, rest) =~= Seq::<Result<T, StreamError>>::empty());
}

/// A message that does not decode costs one `InvalidData` item and nothing
/// else: what came before it and what comes after it are delivered as if it
/// had not been there.
pub proof fn lemma_decode_isolation<T>(
    verifying: bool,
    valid: spec_fn(T) -> bool,
    before: Seq<Incoming<T>>,
    cause: DecodeError,
    after: Seq<Incoming<T>>,
)
    requires
        unbroken(before),
    ensures
        run(verifying, valid, before + seq![Incoming::Binary(Err(cause))] + after) == run(
            verifying,
            valid,
            before,
        ) + seq![Err(StreamError::InvalidData(cause))] + run(verifying, valid, after),
{
    let bad = seq![Incoming::<T>::Binary(Err(cause))];
    lemma_run_one(verifying, valid, bad[0]);
    lemma_run_concat(verifying, valid, before + bad, after);
    lemma_run_concat(verifying, valid, before, bad);
}

/// An event that does not verify costs one `InvalidSignature` item and
/// nothing else, where the reader verifies.
pub proof fn lemma_verification_isolation<T>(
    valid: spec_fn(T) -> bool,
    before: Seq<Incoming<T>>,
    event: T,
    after: Seq<Incoming<T>>,
)
    requires
        unbroken(before),
        !valid(event),
    ensures
        run(true, valid, before + seq![Incoming::Binary(Ok(event))] + after) == run(
            true,
            valid,
            before,
        ) + seq![Err(StreamError::InvalidSignature)] + run(true, valid, after),
{
    let bad = seq![Incoming::<T>::Binary(Ok(event))];
    lemma_run_one(true, valid, bad[0]);
    lemma_run_concat(true, valid, before + bad, after);
    lemma_run_concat(true, valid, before, bad);
}

/// A message that ends the stream gives its one item, and nothing comes
/// after it: `ConnectionClosed` for a close frame, `Transport` for a failure
/// of the transport.
pub proof fn lemma_terminal<T>(
    verifying: bool,
    valid: spec_fn(T) -> bool,
    before: Seq<Incoming<T>>,
    last: Incoming<T>,
    after: Seq<Incoming<T>>,
)
    requires
        unbroken(before),
        terminal(last),
    ensures
        run(verifying, valid, before + seq![last] + after) == run(verifying, valid, before).push(
            item_of(verifying, last, true).unwrap(),
        ),
        last is Close ==> item_of(verifying, last, true) == Some(
            Err::<T, StreamError>(StreamError::ConnectionClosed),
        ),
{
    let tail = seq![last] + after;
    assert(before + seq![last] + after =~= before + tail);
    lemma_run_concat(verifying, valid, before, tail);
}

} // verus!
