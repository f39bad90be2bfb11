use vstd::prelude::*;

use rand::seq::SliceRandom;

use crate::piece::Kind;

verus! {

#[verifier::external_type_specification]
#[verifier::external_body]
pub struct ExThreadRng(rand::rngs::ThreadRng);

/// Relies on rand::thread_rng: yields a handle to the thread-local
/// generator. Nothing is assumed of the randomness it produces.
#[verifier::external_body]
pub(crate) fn new_rng() -> rand::rngs::ThreadRng {
    rand::thread_rng()
}

/// Relies on rand's SliceRandom::shuffle, an in-place Fisher-Yates shuffle:
/// it only swaps elements, so the multiset of elements, and with it the
/// length, is unchanged. Which permutation comes out is left open.
#[verifier::external_body]
pub(crate) fn shuffle_kinds(kinds: &mut Vec<Kind>, rng: &mut rand::rngs::ThreadRng)
    ensures
        final(kinds)@.to_multiset() == old(kinds)@.to_multiset(),
        final(kinds)@.len() == old(kinds)@.len(),
{
    kinds.shuffle(rng);
}

} // verus!
