//! The library's single source of randomness: a caller-supplied small
//! generator from the rand crate, consumed only through a bounded index
//! draw.

use vstd::prelude::*;
use rand::Rng;
use rand::rngs::SmallRng;

verus! {

/// rand's small seedable generator, carried through the library as an
/// opaque value.
#[verifier::external_type_specification]
#[verifier::external_body]
pub struct ExSmallRng(SmallRng);

/// Relies on rand's `Rng::gen_range` over the nonempty half-open range
/// `0..n`: its documentation promises a value of that range. Which value
/// comes is left open; two draws on equal inputs may differ.
#[verifier::external_body]
pub(crate) fn rand_index(rng: &mut SmallRng, n: usize) -> (r: usize)
    requires
        n >= 1,
    ensures
        r < n,
{
    rng.gen_range(0..n)
}

} // verus!
