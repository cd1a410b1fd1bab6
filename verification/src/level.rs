//! Difficulty levels: validation and the fixed level-to-bound table.

use vstd::prelude::*;

verus! {

/// A level is valid when it lies in the closed range 1..=4.
pub open spec fn valid_level(lvl: int) -> bool {
    1 <= lvl <= 4
}

/// The fixed upper bound of the guessing range for each valid level:
/// 1 maps to 500, 2 to 1000, 3 to 5000 and 4 to 10000.
pub open spec fn bound_for_level(lvl: int) -> int {
    if lvl == 1 {
        500
    } else if lvl == 2 {
        1000
    } else if lvl == 3 {
        5000
    } else {
        10000
    }
}

/// Checks if the chosen level is valid and returns a Result type:
/// the level itself when it lies in 1..=4, a descriptive message otherwise.
pub fn lvl_checker(lvl: &u8) -> (r: Result<u8, String>)
    ensures
        r is Ok <==> valid_level(*lvl as int),
        r matches Ok(v) ==> v == *lvl,
        r matches Err(m) ==> m@ == "Invalid lvl : must be between 1 and 4"@,
{
    if *lvl >= 1 && *lvl <= 4 {
        Ok(*lvl)
    } else {
        Err("Invalid lvl : must be between 1 and 4".to_owned())
    }
}

/// Maps a level that passed validation to the upper bound of the range the
/// target is drawn from.
pub fn upper_bound_for_level(lvl: u8) -> (num_max: i32)
    requires
        valid_level(lvl as int),
    ensures
        num_max == bound_for_level(lvl as int),
{
    match lvl {
        1 => 500,
        2 => 1000,
        3 => 5000,
        _ => 10000,
    }
}

} // verus!
