//! Three-way comparison of a guess against the secret target.

use vstd::prelude::*;

verus! {

/// The possible outcomes of comparing the user's guess to the generated
/// target, phrased from the guesser's point of view: `Greater` means the
/// target is greater than the guess (so the user should guess higher),
/// `Less` that the target is less than the guess.
#[derive(Clone, Copy, Debug, PartialEq, Eq, Structural)]
pub enum GuessResult {
    Greater,
    Less,
    Equal,
}

/// The outcome that comparing `guessed_num` to `rnd_num` must report:
/// `Equal` exactly when they agree, otherwise the side of the target
/// relative to the guess.
pub open spec fn outcome_of(guessed_num: int, rnd_num: int) -> GuessResult {
    if guessed_num < rnd_num {
        GuessResult::Greater
    } else if guessed_num > rnd_num {
        GuessResult::Less
    } else {
        GuessResult::Equal
    }
}

/// Compares the user-guessed value to the randomly generated one and
/// reports on which side of the guess the target lies.
pub fn equality_match(guessed_num: i32, rnd_num: i32) -> (r: GuessResult)
    ensures
        r == outcome_of(guessed_num as int, rnd_num as int),
{
    if guessed_num < rnd_num {
        GuessResult::Greater
    } else if guessed_num > rnd_num {
        GuessResult::Less
    } else {
        GuessResult::Equal
    }
}

} // verus!
