//! The random source of the grid world and the draws made from it.

use rand::distributions::{Distribution, Uniform};
use rand::rngs::{OsRng, StdRng};
use rand::seq::SliceRandom;
use rand::SeedableRng;
use vstd::prelude::*;

verus! {

#[verifier::external_type_specification]
#[verifier::external_body]
pub struct ExStdRng(StdRng);

/// Relies on `rand::SeedableRng::seed_from_u64` for `StdRng`: a generator
/// whose sequence of draws is fixed by the seed.
#[verifier::external_body]
pub(crate) fn seeded_generator(seed: u64) -> StdRng {
    StdRng::seed_from_u64(seed)
}

/// Relies on `rand::SeedableRng::from_rng` for `StdRng`, fed by `rand::rngs::OsRng`:
/// a generator seeded from the operating system, or `None` when it gives no entropy.
#[verifier::external_body]
pub(crate) fn fresh_generator() -> Option<StdRng> {
    StdRng::from_rng(OsRng).ok()
}

/// Relies on `Clone` for `StdRng`: a generator in the same state as `rng`.
#[verifier::external_body]
pub(crate) fn copy_generator(rng: &StdRng) -> StdRng {
    rng.clone()
}

/// Relies on `rand::distributions::Uniform::new(0, n)` and its `sample`: a
/// value in `[0, n)`. `Uniform::new` panics unless `0 < n`.
#[verifier::external_body]
pub(crate) fn draw_below(rng: &mut StdRng, n: usize) -> (r: usize)
    requires
        0 < n,
    ensures
        r < n,
{
    Uniform::new(0, n).sample(rng)
}

/// Relies on `rand::seq::SliceRandom::choose`: `None` exactly for an empty
/// slice, otherwise one of its elements.
#[verifier::external_body]
pub(crate) fn choose_cell(rng: &mut StdRng, cells: &Vec<(usize, usize)>) -> (r: Option<(usize, usize)>)
    ensures
        r is None <==> cells@.len() == 0,
        r matches Some(c) ==> cells@.contains(c),
{
    cells.choose(rng).copied()
}

} // verus!
