//! Drawing the secret target number.

use rand::Rng;
use vstd::prelude::*;

verus! {

/// Relies on rand::Rng::gen_range on the thread-local generator of
/// rand::thread_rng: for a non-empty inclusive range it returns one value
/// drawn uniformly from that range, and 1..=num_max is non-empty whenever
/// num_max is at least 1. Nothing beyond membership in the range can be
/// promised of a random draw.
#[verifier::external_body]
fn random_in_range(num_max: i32) -> (r: i32)
    requires
        1 <= num_max,
    ensures
        1 <= r <= num_max,
{
    rand::thread_rng().gen_range(1..=num_max)
}

/// Draws the target number for a round of the game: an integer between 1
/// and num_max, both endpoints included, uniformly distributed over that
/// range by the generator behind it.
pub fn draw_target(num_max: i32) -> (target: i32)
    requires
        1 <= num_max,
    ensures
        1 <= target <= num_max,
{
    random_in_range(num_max)
}

} // verus!
