//! The randomness used when constructing an information source: the initial
//! probability assignment is drawn by repeatedly splitting the remaining
//! unit mass at a uniformly random point.

use vstd::prelude::*;

verus! {

/// Draws a probability mass uniformly between zero and `bound`, inclusive.
///
/// Relies on `rand::random_range` on an inclusive integer range: the result
/// lies within the range's bounds, and an inclusive range is never empty, so
/// the call does not panic. Nothing more is assumed of a random draw.
#[verifier::external_body]
pub(crate) fn draw_at_most(bound: u64) -> (r: u64)
    ensures
        r <= bound,
{
    rand::random_range(0..=bound)
}

} // verus!
