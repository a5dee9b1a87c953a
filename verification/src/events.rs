use crate::stream::{Identity, Verifiable};
use commonware_cryptography::bls12381::primitives::group::G1;
use vstd::prelude::*;

verus! {

/// A point of the group of signatures, carried as it comes.
#[verifier::external_type_specification]
#[verifier::external_body]
pub struct ExSignature(G1);

/// A threshold signature.
pub type Signature = G1;

/// The randomness beacon of one round: the round's number and the threshold
/// signature over it.
pub struct Seed {
    pub view: u64,
    pub signature: Signature,
}

/// What a node announces: a seed, a batch of events of kind `E`, or the
/// events of a batch that a filter let through, of kind `F`.
pub enum Update<E, F> {
    Seed(Seed),
    Events(E),
    FilteredEvents(F),
}

/// Whether `signature` is the threshold signature of `identity` over the
/// round `view`, under the namespace of the chain for seeds.
pub uninterp spec fn seed_verdict(view: u64, signature: Signature, identity: Identity) -> bool;

/// `Seed::verify` of the consensus types, on a seed built by `Seed::new` from
/// the two parts, under the namespace of the chain. The outside code hashes
/// the round's number to the curve and compares two pairings, so what it
/// returns rests on the three values alone: that is the verdict named above.
#[verifier::external_body]
fn verify_seed(view: u64, signature: &Signature, identity: &Identity) -> (ok: bool)
    ensures
        ok == seed_verdict(view, *signature, *identity),
{
    battleware_types::Seed::new(view, *signature).verify(battleware_types::NAMESPACE, identity)
}

impl Verifiable for Seed {
    /// Whether the seed's signature is that of `identity` over its round.
    fn verify(&self, identity: &Identity) -> (ok: bool)
        ensures
            ok == seed_verdict(self.view, self.signature, *identity),
    {
        verify_seed(self.view, &self.signature, identity)
    }
}

impl<E: Verifiable, F: Verifiable> Verifiable for Update<E, F> {
    /// Each kind of update is verified in its own way: a seed by its
    /// signature, a batch by what the batch's own `verify` finds.
    fn verify(&self, identity: &Identity) -> (ok: bool)
        ensures
            match self {
                Update::Seed(seed) => ok == seed_verdict(seed.view, seed.signature, *identity),
                Update::Events(events) => call_ensures(E::verify, (events, identity), ok),
                Update::FilteredEvents(events) => call_ensures(F::verify, (events, identity), ok),
            },
    {
        match self {
            Update::Seed(seed) => seed.verify(identity),
            Update::Events(events) => events.verify(identity),
            Update::FilteredEvents(events) => events.verify(identity),
        }
    }
}

} // verus!
