use vstd::prelude::*;
use rand::Rng;
use rand::SeedableRng;

verus! {

/// The PCG-64 generator of the rand_pcg crate, opaque to verification;
/// every generation run owns fresh instances of it.
#[verifier::external_type_specification]
#[verifier::external_body]
pub struct ExPcg64(rand_pcg::Lcg128Xsl64);

/// Relies on rand_core's SeedableRng::seed_from_u64 for rand_pcg's PCG-64:
/// builds a generator from a word-sized seed. Nothing is assumed about the
/// state it starts in.
#[verifier::external_body]
pub(crate) fn rng_from_seed(seed: u64) -> rand_pcg::Pcg64 {
    rand_pcg::Pcg64::seed_from_u64(seed)
}

/// Relies on rand's Rng::gen_range over a half-open range, which panics only
/// when the range is empty and otherwise draws a value from within it.
#[verifier::external_body]
pub(crate) fn rng_range(rng: &mut rand_pcg::Pcg64, low: usize, high: usize) -> (r: usize)
    requires
        low < high,
    ensures
        low <= r < high,
{
    rng.gen_range(low..high)
}

} // verus!
