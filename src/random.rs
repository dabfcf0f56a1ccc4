//! The simulation's source of chance: a seeded generator, so that a run is
//! reproducible from its seed.
use rand::rngs::StdRng;
use rand::Rng;
use rand::SeedableRng;
use vstd::prelude::*;

verus! {

#[verifier::external_type_specification]
#[verifier::external_body]
pub struct ExStdRng(StdRng);

/// Relies on rand's `SeedableRng::seed_from_u64` for `StdRng`: a generator
/// whose stream is fixed by the seed.
#[verifier::external_body]
pub fn seeded_rng(seed: u64) -> StdRng {
    StdRng::seed_from_u64(seed)
}

/// Relies on rand's `Rng::gen_range` over the inclusive range `lo..=hi`,
/// which is not empty here: a value between the two bounds.
#[verifier::external_body]
pub fn random_between(rng: &mut StdRng, lo: i64, hi: i64) -> (r: i64)
    requires
        lo <= hi,
    ensures
        lo <= r <= hi,
{
    rng.gen_range(lo..=hi)
}

/// An index below `n`, drawn from the generator.
pub fn random_index(rng: &mut StdRng, n: usize) -> (r: usize)
    requires
        0 < n,
    ensures
        r < n,
{
    let hi: i64 = if n as u128 - 1 > i64::MAX as u128 {
        i64::MAX
    } else {
        (n - 1) as i64
    };
    random_between(rng, 0, hi) as usize
}

} // verus!
