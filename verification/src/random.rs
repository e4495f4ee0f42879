//! The two random draws the game makes, from the `rand` crate.
//!
//! Nothing is proved of these functions: Verus takes their contracts on trust.
//! Both draw from the generator of `rand::thread_rng`, which seeds itself from
//! the operating system when a thread first uses it and panics if that fails.

use rand::Rng;
use vstd::prelude::*;

verus! {

/// Draws a whole number from `0..limit` with `Rng::gen_range`, on the generator
/// that `rand::thread_rng` hands out.
///
/// Trusted: the result lies in the range asked for. `gen_range` panics on an
/// empty range, which `requires` rules out. Which number comes is not stated.
#[verifier::external_body]
pub(crate) fn random_below(limit: i32) -> (value: i32)
    requires
        0 < limit,
    ensures
        0 <= value < limit,
{
    rand::thread_rng().gen_range(0..limit)
}

/// Draws `true` with odds of `numerator` in `denominator` with `Rng::gen_ratio`,
/// on the generator that `rand::thread_rng` hands out.
///
/// Trusted: a ratio of one always gives `true` and a ratio of zero always gives
/// `false`. `gen_ratio` panics when the denominator is zero or smaller than the
/// numerator, which `requires` rules out.
#[verifier::external_body]
pub(crate) fn random_ratio(numerator: u32, denominator: u32) -> (hit: bool)
    requires
        0 < denominator,
        numerator <= denominator,
    ensures
        numerator == denominator ==> hit,
        numerator == 0 ==> !hit,
{
    rand::thread_rng().gen_ratio(numerator, denominator)
}

} // verus!
