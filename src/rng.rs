//! The random source: fastrand's generator behind small trusted wrappers.
use vstd::prelude::*;

verus! {

#[verifier::external_type_specification]
#[verifier::external_body]
pub struct ExRng(fastrand::Rng);

/// Relies on fastrand::Rng::with_seed: a generator whose draws follow from
/// the seed alone.
#[verifier::external_body]
pub(crate) fn seeded(seed: u64) -> (r: fastrand::Rng) {
    fastrand::Rng::with_seed(seed)
}

/// Relies on fastrand::Rng::usize: a draw from `0..n` lies below `n` (an
/// empty range panics, hence `n > 0`).
#[verifier::external_body]
pub(crate) fn draw_index(rng: &mut fastrand::Rng, n: usize) -> (r: usize)
    requires
        n > 0,
    ensures
        r < n,
{
    rng.usize(0..n)
}

/// Relies on fastrand::Rng::u64: a draw from `0..n` lies below `n` (an
/// empty range panics, hence `n > 0`).
#[verifier::external_body]
pub(crate) fn draw_u64(rng: &mut fastrand::Rng, n: u64) -> (r: u64)
    requires
        n > 0,
    ensures
        r < n,
{
    rng.u64(0..n)
}

/// Relies on fastrand::Rng::choose_multiple over `0..total`: reservoir
/// sampling keeps `amount` values of the range when the range holds that
/// many, each value of the range at most once.
#[verifier::external_body]
pub(crate) fn choose_positions(rng: &mut fastrand::Rng, total: usize, amount: usize) -> (r: Vec<
    usize,
>)
    requires
        amount <= total,
    ensures
        r@.len() == amount,
        r@.no_duplicates(),
        forall|i: int| 0 <= i < r@.len() ==> #[trigger] r@[i] < total,
{
    rng.choose_multiple(0..total, amount)
}

} // verus!
