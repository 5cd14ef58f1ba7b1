use vstd::prelude::*;
use rand::rngs::StdRng;
use rand::Rng;

verus! {

/// The random number generator of rand that the engines draw from. Nothing is known
/// of what is inside it.
#[verifier::external_type_specification]
#[verifier::external_body]
pub struct ExStdRng(StdRng);

/// Draws an index below `n` with `Rng::gen_range` of rand, on the range `0..n`.
/// Not proved: that the index drawn lies in that range. Which index is drawn is
/// not stated. With an empty range `gen_range` panics, so `n` is positive.
#[verifier::external_body]
pub(crate) fn random_index(rng: &mut StdRng, n: usize) -> (i: usize)
    requires
        n > 0,
    ensures
        i < n,
{
    rng.gen_range(0..n)
}

} // verus!
