use commonware_cryptography::bls12381::primitives::group::G2;
use vstd::prelude::*;

verus! {

/// The codec's error, carried as it comes.
#[verifier::external_type_specification]
#[verifier::external_body]
pub struct ExDecodeError(commonware_codec::Error);

/// The WebSocket transport's error, carried as it comes.
#[verifier::external_type_specification]
#[verifier::external_body]
pub struct ExTransportError(tokio_tungstenite::tungstenite::Error);

/// A point of the group of public keys, carried as it comes.
#[verifier::external_type_specification]
#[verifier::external_body]
pub struct ExIdentity(G2);

/// Why a frame could not be decoded.
pub type DecodeError = commonware_codec::Error;

/// Why the transport could not be read.
pub type TransportError = tokio_tungstenite::tungstenite::Error;

/// The key against which events are verified.
pub type Identity = G2;

/// Why the stream has no event to give at this point.
#[derive(Debug)]
pub enum StreamError {
    /// A binary frame did not decode. The stream goes on.
    InvalidData(DecodeError),
    /// An event did not verify against the identity. The stream goes on.
    InvalidSignature,
    /// The peer closed the connection. Nothing follows.
    ConnectionClosed,
    /// The transport failed. Nothing follows.
    Transport(TransportError),
}

/// One message from the transport. A binary message comes with what decoding
/// its whole payload gave.
pub enum Incoming<T> {
    Binary(Result<T, DecodeError>),
    Close,
    /// Text, ping, pong and the like.
    Other,
    Failed(TransportError),
}

/// What the reader does with a message: the item to hand to the consumer, if
/// any, and whether the reader stops after it.
pub struct Action<T> {
    pub item: Option<Result<T, StreamError>>,
    pub stop: bool,
}

/// An event that can be verified against an identity.
pub trait Verifiable {
    fn verify(&self, identity: &Identity) -> bool;
}

/// Whether a message ends the stream.
pub open spec fn terminal<T>(incoming: Incoming<T>) -> bool {
    incoming is Close || incoming is Failed
}

/// Whether the item for a message depends on the verdict of verification.
pub open spec fn judged<T>(verifying: bool, incoming: Incoming<T>) -> bool {
    verifying && incoming matches Incoming::Binary(Ok(_))
}

/// The item that a message gives: `valid` is the verdict on its event, and
/// counts only where the reader verifies.
pub open spec fn item_of<T>(verifying: bool, incoming: Incoming<T>, valid: bool) -> Option<
    Result<T, StreamError>,
> {
    match incoming {
        Incoming::Binary(Ok(event)) => if verifying && !valid {
            Some(Err(StreamError::InvalidSignature))
        } else {
            Some(Ok(event))
        },
        Incoming::Binary(Err(cause)) => Some(Err(StreamError::InvalidData(cause))),
        Incoming::Close => Some(Err(StreamError::ConnectionClosed)),
        Incoming::Other => None,
        Incoming::Failed(cause) => Some(Err(StreamError::Transport(cause))),
    }
}

/// What a reader that is still reading makes of a run of messages, with the
/// consumer listening throughout: the items in order, up to and with the one
/// that ends the stream.
pub open spec fn run<T>(
    verifying: bool,
    valid: spec_fn(T) -> bool,
    frames: Seq<Incoming<T>>,
) -> Seq<Result<T, StreamError>>
    decreases frames.len(),
{
    if frames.len() == 0 {
        Seq::empty()
    } else {
        let first = frames[0];
        let verdict = match first {
            Incoming::Binary(Ok(event)) => valid(event),
            _ => true,
        };
        let items = match item_of(verifying, first, verdict) {
            Some(item) => seq![item],
            None => Seq::empty(),
        };
        if terminal(first) {
            items
        } else {
            items + run(verifying, valid, frames.drop_first())
        }
    }
}

/// The decisions of the task that reads the transport for a stream.
pub struct Reader {
    identity: Option<Identity>,
    open: bool,
}

impl Reader {
    /// Whether events are verified before they are handed on.
    pub closed spec fn verifying(&self) -> bool {
        self.identity.is_some()
    }

    /// The identity that events are verified against.
    pub closed spec fn identity(&self) -> Identity {
        self.identity.unwrap()
    }

    /// Whether the reader is still reading.
    pub closed spec fn reading(&self) -> bool {
        self.open
    }

    /// A reader that hands events on as they decode.
    pub fn new() -> (reader: Self)
        ensures
            reader.reading(),
            !reader.verifying(),
    {
        Reader { identity: None, open: true }
    }

    /// A reader that hands an event on only if it verifies against
    /// `identity`.
    pub fn new_with_verifier(identity: Identity) -> (reader: Self)
        ensures
            reader.reading(),
            reader.verifying(),
            reader.identity() == identity,
    {
        Reader { identity: Some(identity), open: true }
    }

    /// Whether the reader is still reading.
    pub fn is_reading(&self) -> (open: bool)
        ensures
            open == self.reading(),
    {
        self.open
    }

    /// Whether the reader verifies.
    pub fn is_verifying(&self) -> (verifying: bool)
        ensures
            verifying == self.verifying(),
    {
        self.identity.is_some()
    }

    /// Takes one message, with the verdict on its event where one was asked
    /// for. A reader that has stopped gives nothing. Otherwise the item is
    /// that of `item_of`, and the reader stops on a close frame and on a
    /// transport error.
    pub fn react<T>(&mut self, incoming: Incoming<T>, valid: bool) -> (action: Action<T>)
        ensures
            final(self).verifying() == old(self).verifying(),
            final(self).verifying() ==> final(self).identity() == old(self).identity(),
            final(self).reading() == (old(self).reading() && !terminal(incoming)),
            action.stop == !final(self).reading(),
            action.item == if old(self).reading() {
                item_of(old(self).verifying(), incoming, valid)
            } else {
                None
            },
    {
        if !self.open {
            return Action { item: None, stop: true };
        }
        match incoming {
            Incoming::Binary(Ok(event)) => {
                if self.identity.is_some() && !valid {
                    Action { item: Some(Err(StreamError::InvalidSignature)), stop: false }
                } else {
                    Action { item: Some(Ok(event)), stop: false }
                }
            },
            Incoming::Binary(Err(cause)) => {
                Action { item: Some(Err(StreamError::InvalidData(cause))), stop: false }
            },
            Incoming::Close => {
                self.open = false;
                Action { item: Some(Err(StreamError::ConnectionClosed)), stop: true }
            },
            Incoming::Other => Action { item: None, stop: false },
            Incoming::Failed(cause) => {
                self.open = false;
                Action { item: Some(Err(StreamError::Transport(cause))), stop: true }
            },
        }
    }

    /// Takes one message and, where the reader verifies and the message
    /// brought an event, asks the event for its verdict against the reader's
    /// identity. What comes back is `react` on that verdict; where no verdict
    /// is asked for, the item does not depend on one.
    pub fn receive<T: Verifiable>(&mut self, incoming: Incoming<T>) -> (action: Action<T>)
        ensures
            final(self).verifying() == old(self).verifying(),
            final(self).verifying() ==> final(self).identity() == old(self).identity(),
            final(self).reading() == (old(self).reading() && !terminal(incoming)),
            action.stop == !final(self).reading(),
            !old(self).reading() ==> action.item.is_none(),
            old(self).reading() && !judged(old(self).verifying(), incoming) ==> action.item
                == item_of(old(self).verifying(), incoming, true),
            old(self).reading() && old(self).verifying() ==> match incoming {
                Incoming::Binary(Ok(event)) => exists|valid: bool|
                    #[trigger] call_ensures(T::verify, (&event, &old(self).identity()), valid)
                        && action.item == item_of(true, incoming, valid),
                _ => true,
            },
    {
        let valid = match (&self.identity, &incoming) {
            (Some(identity), Incoming::Binary(Ok(event))) => {
                if self.open {
                    event.verify(identity)
                } else {
                    true
                }
            },
            _ => true,
        };
        self.react(incoming, valid)
    }

    /// Takes note of whether the consumer took the last item. Once the
    /// consumer is gone the reader stops.
    pub fn sent(&mut self, delivered: bool) -> (go_on: bool)
        ensures
            final(self).verifying() == old(self).verifying(),
            final(self).verifying() ==> final(self).identity() == old(self).identity(),
            final(self).reading() == (old(self).reading() && delivered),
            go_on == final(self).reading(),
    {
        if !delivered {
            self.open = false;
        }
        self.open
    }
}

} // verus!
