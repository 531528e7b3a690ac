//! A small pseudo random generator: a running counter fed through a hasher.
use vstd::prelude::*;

use ahash::AHasher;
use core::hash::{BuildHasher, Hasher};

verus! {

/// The hasher of the `ahash` crate.
#[verifier::external_type_specification]
#[verifier::external_body]
pub struct ExAHasher(AHasher);

/// Makes an `ahash::AHasher` through `BuildHasherDefault::<AHasher>::default().build_hasher()`.
/// Its keys are fixed for the process but chosen at run time, so nothing is stated of it.
#[verifier::external_body]
fn new_hasher() -> AHasher {
    let hash_builder = core::hash::BuildHasherDefault::<AHasher>::default();
    hash_builder.build_hasher()
}

/// Feeds `x` to the hasher through `Hasher::write_u64` of `ahash::AHasher`; the
/// hasher's state afterwards is not stated.
#[verifier::external_body]
fn hasher_write_u64(hasher: &mut AHasher, x: u64) {
    hasher.write_u64(x);
}

/// Reads the current hash through `Hasher::finish` of `ahash::AHasher`; the value
/// depends on keys drawn at run time, so nothing is stated of it.
#[verifier::external_body]
fn hasher_finish(hasher: &AHasher) -> u64 {
    hasher.finish()
}

/// Pseudo random numbers: each draw feeds the counter to a hasher and advances it.
pub struct Rng {
    state: u64,
    hasher: AHasher,
}

impl Rng {
    /// The counter that the next draw feeds to the hasher.
    pub closed spec fn counter(&self) -> u64 {
        self.state
    }

    /// A generator whose counter starts at `seed`.
    pub fn new(seed: u64) -> (r: Rng)
        ensures
            r.counter() == seed,
    {
        let hasher = new_hasher();
        Rng { state: seed, hasher }
    }

    /// Whether [`Rng::u64`] can be called: the counter has not reached the top of `u64`.
    pub fn can_draw(&self) -> (r: bool)
        ensures
            r == (self.counter() < u64::MAX),
    {
        self.state < u64::MAX
    }

    /// Draws a number; the counter advances by one.
    pub fn u64(&mut self) -> (r: u64)
        requires
            old(self).counter() < u64::MAX,
        ensures
            final(self).counter() == old(self).counter() + 1,
    {
        hasher_write_u64(&mut self.hasher, self.state);
        let ret = hasher_finish(&self.hasher);
        self.state = self.state + 1;
        ret
    }
}

} // verus!
