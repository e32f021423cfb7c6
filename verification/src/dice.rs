//! Random draws.

use vstd::prelude::*;
use rand::Rng;
use rand::rngs::StdRng;

verus! {

/// `rand::rngs::StdRng`, carried through as an opaque value.
#[verifier::external_type_specification]
#[verifier::external_body]
pub struct ExStdRng(StdRng);

/// `Rng::random_range` on the half-open range `0..bound` of `usize`. It
/// panics on an empty range, so the bound is positive; whatever is drawn
/// lies in the range.
#[verifier::external_body]
pub(crate) fn random_index(rng: &mut StdRng, bound: usize) -> (index: usize)
    requires
        bound > 0,
    ensures
        index < bound,
{
    rng.random_range(0..bound)
}

/// `Rng::random_range` on the half-open range `0..base` of `i32`. It panics
/// on an empty range, so the base is positive; whatever is drawn lies in the
/// range.
#[verifier::external_body]
pub(crate) fn random_digit(rng: &mut StdRng, base: i32) -> (digit: i32)
    requires
        base > 0,
    ensures
        0 <= digit < base,
{
    rng.random_range(0..base)
}

/// `Rng::random_range` on the closed range `first..=last` of `char`. It
/// panics on an empty range, so `first` does not come after `last`;
/// whatever is drawn lies in the range.
#[verifier::external_body]
pub(crate) fn random_letter(rng: &mut StdRng, first: char, last: char) -> (letter: char)
    requires
        first <= last,
    ensures
        first <= letter <= last,
{
    rng.random_range(first..=last)
}

} // verus!
