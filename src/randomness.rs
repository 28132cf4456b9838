use vstd::prelude::*;

use rand::rngs::{StdRng, ThreadRng};

verus! {

#[verifier::external_type_specification]
#[verifier::external_body]
pub struct ExStdRng(StdRng);

#[verifier::external_type_specification]
#[verifier::external_body]
pub struct ExThreadRng(ThreadRng);

/// The 64-bit hash of a seed string under std's `DefaultHasher`.
pub uninterp spec fn seed_hash_of(seed: Seq<char>) -> u64;

/// Relies on std's `BuildHasher::hash_one` over `DefaultHasher`: every
/// `DefaultHasher` made by `new` or `default` starts from the same state, so
/// the hash depends on the characters of the seed alone.
#[verifier::external_body]
fn hash_seed(seed: &String) -> (r: u64)
    ensures
        r == seed_hash_of(seed@),
{
    std::hash::BuildHasher::hash_one(
        &std::hash::BuildHasherDefault::<std::collections::hash_map::DefaultHasher>::default(),
        seed,
    )
}

/// Relies on rand's `SeedableRng::seed_from_u64` for `StdRng`: a generator
/// whose output is fixed by the seed.
#[verifier::external_body]
fn std_rng_from_seed(seed: u64) -> (r: StdRng) {
    <StdRng as rand::SeedableRng>::seed_from_u64(seed)
}

/// Relies on rand's `thread_rng`: the thread's generator, seeded from the
/// system's entropy.
#[verifier::external_body]
fn entropy_rng() -> (r: ThreadRng) {
    rand::thread_rng()
}

/// The generator that one draw of noise uses.
pub enum NoiseSource {
    /// Reproducible: seeded from the hash of the policy's seed string.
    Seeded { seed: u64, rng: StdRng },
    /// Not reproducible: seeded from the system's entropy.
    Fresh { rng: ThreadRng },
}

impl NoiseSource {
    /// The source is the one a policy with this seed asks for.
    pub open spec fn fits(&self, seed: Option<String>) -> bool {
        match (*self, seed) {
            (NoiseSource::Seeded { seed: h, .. }, Some(s)) => h == seed_hash_of(s@),
            (NoiseSource::Fresh { .. }, None) => true,
            _ => false,
        }
    }
}

/// The generator seeded by a seed string: the same string always gives the
/// same generator seed.
pub fn seed_hash(seed: &String) -> (r: u64)
    ensures
        r == seed_hash_of(seed@),
{
    hash_seed(seed)
}

/// The source for one draw under a policy with this seed: seeded from the
/// seed's hash when there is one, from the system's entropy otherwise. A new
/// generator is made on every call, so no state carries over between draws.
pub fn select_source(seed: &Option<String>) -> (r: NoiseSource)
    ensures
        r.fits(*seed),
{
    match seed {
        Some(s) => {
            let h = hash_seed(s);
            NoiseSource::Seeded { seed: h, rng: std_rng_from_seed(h) }
        },
        None => NoiseSource::Fresh { rng: entropy_rng() },
    }
}

/// Determinism under a seed: two sources selected for equal seed strings are
/// both seeded, and from the same value.
pub proof fn lemma_seeded_sources_agree(a: NoiseSource, b: NoiseSource, s: String, t: String)
    requires
        s@ == t@,
        a.fits(Some(s)),
        b.fits(Some(t)),
    ensures
        a matches NoiseSource::Seeded { seed: x, .. } && b matches NoiseSource::Seeded { seed: y, .. } && x == y,
{
}

/// Without a seed, the source is always drawn from the system's entropy.
pub proof fn lemma_unseeded_source_is_fresh(a: NoiseSource)
    requires
        a.fits(None),
    ensures
        a is Fresh,
{
}

} // verus!
