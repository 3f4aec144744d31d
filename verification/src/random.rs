//! The random choices the generator makes, drawn from `rand`'s small RNG.
use vstd::prelude::*;

use rand::rngs::SmallRng;
use rand::seq::SliceRandom;
use rand::Rng;

use crate::keyboard::Slot;

verus! {

#[verifier::external_type_specification]
#[verifier::external_body]
pub struct ExSmallRng(SmallRng);

/// Calls `rand::Rng::random_range` on the range `low..=high`. rand draws the
/// value uniformly from the range and panics only on an empty range; the
/// contract states that the value lies in the range, and nothing of which
/// value of it comes.
#[verifier::external_body]
pub(crate) fn random_range_inclusive(rng: &mut SmallRng, low: usize, high: usize) -> (value: usize)
    requires
        low <= high,
    ensures
        low <= value <= high,
{
    rng.random_range(low..=high)
}

/// Calls `rand::seq::SliceRandom::shuffle` on the slots. rand puts the
/// elements in a uniformly chosen order; the contract states that the result
/// holds the same slots as before, each as often, and nothing of their order.
#[verifier::external_body]
pub(crate) fn shuffle_slots(rng: &mut SmallRng, slots: &mut Vec<Slot>)
    ensures
        final(slots)@.to_multiset() == old(slots)@.to_multiset(),
{
    slots.shuffle(rng);
}

} // verus!
