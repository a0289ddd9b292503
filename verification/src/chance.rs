//! The one place where the simulation asks for a random number.

use vstd::prelude::*;
use rand::Rng;

verus! {

/// Draws a number below `bound` from the thread's random generator.
///
/// Trusted: the body calls `rand::Rng::gen_range` on `rand::thread_rng()`
/// with the range `0..bound`. Of the number that comes back only its range
/// is claimed, which is what `gen_range` promises of every draw; an empty
/// range, on which it panics, is left out.
#[verifier::external_body]
pub(crate) fn draw_below(bound: u32) -> (drawn: u32)
    requires
        bound >= 1,
    ensures
        drawn < bound,
{
    rand::thread_rng().gen_range(0..bound)
}

} // verus!
