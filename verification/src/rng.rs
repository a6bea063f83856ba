//! Randomness for the evolutionary operators, drawn from the `rand` crate.
//!
//! Every draw goes through one of the small functions below; the rest of the
//! library is verified against their contracts, which state only what holds
//! of every possible outcome (a bound, or the preserved multiset).

use vstd::prelude::*;

verus! {

/// Relies on rand's `Rng::gen_range(0..n)`: the result is uniform in `[0, n)`.
#[verifier::external_body]
pub fn rand_index(n: usize) -> (r: usize)
    requires
        n >= 1,
    ensures
        r < n,
{
    rand::Rng::gen_range(&mut rand::thread_rng(), 0..n)
}

/// Relies on rand's `Rng::gen_range(0..n)`: the result is uniform in `[0, n)`.
#[verifier::external_body]
pub fn rand_u128_below(n: u128) -> (r: u128)
    requires
        n >= 1,
    ensures
        r < n,
{
    rand::Rng::gen_range(&mut rand::thread_rng(), 0..n)
}

/// Relies on rand's `Rng::gen_range(lo..hi)`: the result is uniform in `[lo, hi)`.
#[verifier::external_body]
pub fn rand_i64_between(lo: i64, hi: i64) -> (r: i64)
    requires
        lo < hi,
    ensures
        lo <= r < hi,
{
    rand::Rng::gen_range(&mut rand::thread_rng(), lo..hi)
}

/// Relies on rand's `Rng::gen_range(lo..=hi)`: the result is uniform in `[lo, hi]`.
#[verifier::external_body]
pub fn rand_i64_inclusive(lo: i64, hi: i64) -> (r: i64)
    requires
        lo <= hi,
    ensures
        lo <= r <= hi,
{
    rand::Rng::gen_range(&mut rand::thread_rng(), lo..=hi)
}

/// Relies on rand's `Rng::gen::<bool>()`: a fair coin; nothing can be
/// promised of a single outcome.
#[verifier::external_body]
pub fn rand_bool() -> bool {
    rand::Rng::gen(&mut rand::thread_rng())
}

/// Relies on rand's `SliceRandom::shuffle`: the result is a reordering of
/// the same elements, so the multiset of elements is unchanged.
#[verifier::external_body]
pub fn shuffle<G>(v: &mut Vec<G>)
    ensures
        final(v)@.to_multiset() == old(v)@.to_multiset(),
        final(v)@.len() == old(v)@.len(),
{
    rand::seq::SliceRandom::shuffle(v.as_mut_slice(), &mut rand::thread_rng())
}

/// Returns true with probability `rate / RATE_ONE` (clamped to `[0, 1]`).
pub fn coin(rate: u32) -> (r: bool)
    ensures
        rate == 0 ==> !r,
        rate >= crate::RATE_ONE ==> r,
{
    let draw = rand_index(crate::RATE_ONE as usize);
    draw < rate as usize
}

} // verus!
