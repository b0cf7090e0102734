//! Seedable random source.
//!
//! Every operation that needs randomness takes one seeded generator (rand's
//! `StdRng`) as an explicit argument, so a whole run can be replayed from its
//! seed. The generator comes from the rand crate; the wrappers below state
//! only what holds of every outcome.

use vstd::prelude::*;

verus! {

#[verifier::external_type_specification]
#[verifier::external_body]
pub struct ExStdRng(rand::rngs::StdRng);

/// Relies on rand::SeedableRng::seed_from_u64: builds a generator whose
/// output stream is a deterministic function of the seed.
#[verifier::external_body]
pub fn rng_from_seed(seed: u64) -> rand::rngs::StdRng {
    <rand::rngs::StdRng as rand::SeedableRng>::seed_from_u64(seed)
}

/// Relies on rand::Rng::gen_range over an inclusive range, which panics only
/// on an empty range and yields a value inside it.
#[verifier::external_body]
pub fn rng_range(rng: &mut rand::rngs::StdRng, lo: i64, hi: i64) -> (r: i64)
    requires
        lo <= hi,
    ensures
        lo <= r <= hi,
{
    rand::Rng::gen_range(rng, lo..=hi)
}

/// Relies on rand::Rng::gen_ratio: true with probability `num / den`. It
/// panics only if `den == 0` or `num > den`, is always true when
/// `num == den`, and always false when `num == 0`.
#[verifier::external_body]
pub fn rng_ratio(rng: &mut rand::rngs::StdRng, num: u32, den: u32) -> (r: bool)
    requires
        0 < den,
        num <= den,
    ensures
        num == den ==> r,
        num == 0 ==> !r,
{
    rand::Rng::gen_ratio(rng, num, den)
}

} // verus!
