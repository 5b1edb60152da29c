//! The library's randomness: an explicit, seedable handle over
//! rand's standard generator, the few integer draws the logic
//! needs, and the fitness-weighted sampling distribution used to
//! pick crossover parents.

use vstd::prelude::*;

verus! {

#[verifier::external_type_specification]
#[verifier::external_body]
pub struct ExStdRng(rand::rngs::StdRng);

/// The fitness-proportional sampling distribution over one cohort,
/// held opaquely: rand's generic `WeightedIndex` cannot be declared
/// to the verifier directly.
#[verifier::external_body]
pub struct GenePool {
    inner: rand::distributions::WeightedIndex<u64>,
}

/// How many weights the sampling distribution was built over.
pub uninterp spec fn pool_len(p: GenePool) -> nat;

/// Relies on rand's `WeightedIndex::new`: over unsigned weights it
/// fails exactly when the list is empty or every weight is zero, and
/// otherwise samples indices below the number of weights handed in.
/// The bounds on count and size keep the internal weight sum from
/// overflowing, so the call does not panic.
#[verifier::external_body]
pub(crate) fn gene_pool_new(weights: &Vec<u64>) -> (r: Option<GenePool>)
    requires
        weights@.len() <= 0x1000_0000,
        forall|i: int| 0 <= i < weights@.len() ==> #[trigger] weights@[i] <= 0xFFFF_FFFF,
    ensures
        (r is Some) == (weights@.len() > 0 && exists|i: int|
            0 <= i < weights@.len() && #[trigger] weights@[i] > 0),
        r matches Some(p) ==> pool_len(p) == weights@.len(),
{
    match rand::distributions::WeightedIndex::new(weights) {
        Ok(inner) => Some(GenePool { inner }),
        Err(_) => None,
    }
}

/// Explicit handle on a seedable random generator, threaded through
/// every operation that draws randomness so that tests can run with a
/// fixed seed.
pub struct RandGen {
    rng: rand::rngs::StdRng,
}

impl RandGen {
    /// Relies on rand's `StdRng::seed_from_u64` to build a generator
    /// from a fixed seed.
    #[verifier::external_body]
    pub fn from_seed(seed: u64) -> (r: RandGen) {
        RandGen { rng: <rand::rngs::StdRng as rand::SeedableRng>::seed_from_u64(seed) }
    }

    /// Relies on rand's `StdRng::from_entropy` to build a generator
    /// seeded by the operating system.
    #[verifier::external_body]
    pub fn from_entropy() -> (r: RandGen) {
        RandGen { rng: <rand::rngs::StdRng as rand::SeedableRng>::from_entropy() }
    }

    /// Relies on rand's `Rng::gen_range` over `0..n`: the result is a
    /// uniformly drawn index below `n`; the range is non-empty, so the
    /// call does not panic.
    #[verifier::external_body]
    pub(crate) fn gen_index(&mut self, n: usize) -> (r: usize)
        requires
            n > 0,
        ensures
            r < n,
    {
        rand::Rng::gen_range(&mut self.rng, 0..n)
    }

    /// Relies on rand's `Rng::gen_range` over `lo..hi` for `i32`: the
    /// result is uniform in the half-open range; `lo < hi`, so the
    /// call does not panic.
    #[verifier::external_body]
    pub(crate) fn gen_range_i32(&mut self, lo: i32, hi: i32) -> (r: i32)
        requires
            lo < hi,
        ensures
            lo <= r < hi,
    {
        rand::Rng::gen_range(&mut self.rng, lo..hi)
    }

    /// Relies on rand's `Rng::gen_range` over `0..n` for `u64`: the
    /// result is uniform below `n`; the range is non-empty, so the
    /// call does not panic.
    #[verifier::external_body]
    pub(crate) fn gen_u64_below(&mut self, n: u64) -> (r: u64)
        requires
            n > 0,
        ensures
            r < n,
    {
        rand::Rng::gen_range(&mut self.rng, 0..n)
    }

    /// Relies on rand's `Rng::gen` for `bool`: a fair coin flip.
    #[verifier::external_body]
    pub(crate) fn gen_bool(&mut self) -> (r: bool) {
        rand::Rng::gen::<bool>(&mut self.rng)
    }

    /// Relies on rand's `Distribution::sample` for `WeightedIndex`:
    /// the index of one weight, drawn with probability proportional
    /// to that weight, always below the number of weights.
    #[verifier::external_body]
    pub(crate) fn sample_pool(&mut self, p: &GenePool) -> (r: usize)
        ensures
            r < pool_len(*p),
    {
        rand::distributions::Distribution::sample(&p.inner, &mut self.rng)
    }

    /// Relies on rand's `Rng::gen_ratio`: true with probability
    /// `num / den`. `0 < den` and `num <= den` keep the underlying
    /// `Bernoulli::from_ratio` from failing, so the call does not
    /// panic.
    #[verifier::external_body]
    pub(crate) fn gen_ratio(&mut self, num: u32, den: u32) -> (r: bool)
        requires
            0 < den,
            num <= den,
    {
        rand::Rng::gen_ratio(&mut self.rng, num, den)
    }
}

} // verus!
