use vstd::prelude::*;
use rand::rngs::StdRng;
use rand::seq::IndexedRandom;
use rand::{Rng, SeedableRng};

verus! {

#[verifier::external_type_specification]
#[verifier::external_body]
pub struct ExStdRng(StdRng);

/// `StdRng::seed_from_u64`: a generator whose whole output stream is fixed
/// by `seed`. Nothing is claimed of the generator's state.
#[verifier::external_body]
fn std_rng_from_seed(seed: u64) -> StdRng {
    StdRng::seed_from_u64(seed)
}

/// `Rng::random::<bool>` on a seeded generator: any boolean.
#[verifier::external_body]
fn std_rng_bool(rng: &mut StdRng) -> bool {
    rng.random::<bool>()
}

/// `Rng::random_range` on a seeded generator over `low..high`: rand
/// documents the value to lie in the range and panics on an empty range.
#[verifier::external_body]
fn std_rng_range_usize(rng: &mut StdRng, low: usize, high: usize) -> (r: usize)
    requires
        low < high,
    ensures
        low <= r < high,
{
    rng.random_range(low..high)
}

/// `Rng::random_range` on a seeded generator over `low..high` of `i32`.
#[verifier::external_body]
fn std_rng_range_i32(rng: &mut StdRng, low: i32, high: i32) -> (r: i32)
    requires
        low < high,
    ensures
        low <= r < high,
{
    rng.random_range(low..high)
}

/// `Rng::random_range` on a seeded generator over `low..high` of `u32`.
#[verifier::external_body]
fn std_rng_range_u32(rng: &mut StdRng, low: u32, high: u32) -> (r: u32)
    requires
        low < high,
    ensures
        low <= r < high,
{
    rng.random_range(low..high)
}

/// `Rng::random::<u64>` on the thread-local generator: any value.
#[verifier::external_body]
fn thread_rng_u64() -> u64 {
    rand::rng().random::<u64>()
}

/// `Rng::random::<bool>` on the thread-local generator: any boolean.
#[verifier::external_body]
pub(crate) fn thread_rng_bool() -> bool {
    rand::rng().random::<bool>()
}

/// `Rng::random_range(0..n)` on the thread-local generator: a value below
/// `n`; rand panics when `n == 0`.
#[verifier::external_body]
pub(crate) fn thread_rng_below(n: usize) -> (r: usize)
    requires
        n > 0,
    ensures
        r < n,
{
    rand::rng().random_range(0..n)
}

/// `IndexedRandom::choose` with the thread-local generator: `None` for an
/// empty slice, otherwise one of its elements.
#[verifier::external_body]
pub(crate) fn thread_rng_choose_cell(cells: &[(usize, usize)]) -> (r: Option<(usize, usize)>)
    ensures
        r is None <==> cells@.len() == 0,
        r matches Some(c) ==> cells@.contains(c),
{
    cells.choose(&mut rand::rng()).copied()
}

/// A reproducible random source for one game session, remembering the
/// seed it was made from.
pub struct SessionRng {
    rng: StdRng,
    seed: u64,
}

impl SessionRng {
    /// A generator seeded with `seed`.
    pub fn new(seed: u64) -> (r: Self)
        ensures
            r.seed() == seed,
    {
        Self { rng: std_rng_from_seed(seed), seed }
    }

    /// A generator with a seed drawn from the thread-local generator.
    pub fn from_random() -> Self {
        let seed: u64 = thread_rng_u64();
        Self::new(seed)
    }

    pub closed spec fn spec_seed(&self) -> u64 {
        self.seed
    }

    /// The seed this generator was created with.
    #[verifier::when_used_as_spec(spec_seed)]
    pub fn seed(&self) -> (r: u64)
        ensures
            r == self.spec_seed(),
    {
        self.seed
    }

    /// A value in `low..high`.
    pub fn random_range(&mut self, low: usize, high: usize) -> (r: usize)
        requires
            low < high,
        ensures
            low <= r < high,
            final(self).seed() == old(self).seed(),
    {
        std_rng_range_usize(&mut self.rng, low, high)
    }

    /// A value in `low..high`, drawn as an `i32`.
    pub fn random_range_i32(&mut self, low: i32, high: i32) -> (r: i32)
        requires
            low < high,
        ensures
            low <= r < high,
            final(self).seed() == old(self).seed(),
    {
        std_rng_range_i32(&mut self.rng, low, high)
    }

    /// A value in `low..high`, drawn as a `u32`.
    pub fn random_range_u32(&mut self, low: u32, high: u32) -> (r: u32)
        requires
            low < high,
        ensures
            low <= r < high,
            final(self).seed() == old(self).seed(),
    {
        std_rng_range_u32(&mut self.rng, low, high)
    }

    /// A random boolean.
    pub fn random_bool(&mut self) -> (r: bool)
        ensures
            final(self).seed() == old(self).seed(),
    {
        std_rng_bool(&mut self.rng)
    }
}

} // verus!
