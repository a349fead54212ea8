//! The one place the library touches the random number generator.

use vstd::prelude::*;
use crate::constants::GAP_ANCHOR_UPPER_NANO;
use crate::obstacle::gap_in_range;

verus! {

/// Relies on rand::random_range: it returns a value inside the given
/// half-open range, drawn from the thread-local generator, and panics
/// only on an empty range, which the precondition rules out. Nothing
/// more is assumed of the draw: callers must cope with every value in
/// the range.
#[verifier::external_body]
fn draw_in_range(lo: i64, hi: i64) -> (r: i64)
    requires
        lo < hi,
    ensures
        lo <= r < hi,
{
    rand::random_range(lo..hi)
}

/// Draw one gap anchor, uniformly from the sampling range.
pub fn draw_gap_anchor() -> (r: i64)
    ensures
        gap_in_range(r as int),
{
    draw_in_range(0, GAP_ANCHOR_UPPER_NANO)
}

} // verus!
