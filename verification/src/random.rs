//! The pseudo-random generator that agents draw from.

use rand::rngs::StdRng;
use rand::Rng;
use vstd::prelude::*;

verus! {

/// `rand::rngs::StdRng`, a seedable generator. Nothing is known of its state.
#[verifier::external_type_specification]
#[verifier::external_body]
pub struct ExStdRng(rand::rngs::StdRng);

/// Draws from `rand_distr::Uniform::from(0..n)` with `rand::Rng::sample`.
/// The distribution covers the half-open range from 0 to `n`, so the draw is
/// below `n`; which value comes is up to the generator. An empty range makes
/// `Uniform::from` panic, hence `n > 0`.
#[verifier::external_body]
pub(crate) fn uniform_below(rng: &mut StdRng, n: u64) -> (k: u64)
    requires
        n > 0,
    ensures
        k < n,
{
    rng.sample(rand_distr::Uniform::from(0..n))
}

} // verus!
