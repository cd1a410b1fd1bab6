//! One pass of each input loop of the game, as a decision on the typed
//! line: the console loop around the library reads a line, hands it here,
//! prints what the outcome asks for, and repeats until the round moves on.

use vstd::prelude::*;

use crate::compare::{equality_match, outcome_of, GuessResult};
use crate::level::{bound_for_level, lvl_checker, upper_bound_for_level, valid_level};
use crate::parse::{
    parse_i32, parse_u8, reads_as_i32, reads_as_u8, signed_value, trimmed, unsigned_value,
};

verus! {

/// What one pass of the level-selection loop decides for a line of input.
#[derive(Clone, Copy, Debug, PartialEq, Eq, Structural)]
pub enum LevelStep {
    /// The line does not read as an unsigned integer: report it and ask
    /// again.
    NotANumber,
    /// The line reads as an integer, but one outside 1..=4: report it and
    /// ask again.
    InvalidLevel,
    /// A valid level was chosen, with the upper bound it maps to: the
    /// selection loop is over.
    Accepted { level: u8, num_max: i32 },
}

/// What one pass of the guess loop decides for a line of input.
#[derive(Clone, Copy, Debug, PartialEq, Eq, Structural)]
pub enum GuessStep {
    /// The line does not read as a signed integer: report it, count no
    /// attempt, and ask again.
    NotANumber,
    /// A syntactically valid guess: the comparison against the target and
    /// the attempt count after this guess. The guess loop is over exactly
    /// when the outcome is Equal.
    Compared { outcome: GuessResult, attempts: u32 },
}

/// Decides one pass of the level-selection loop: parses the line as an
/// unsigned integer, validates it against 1..=4, and on success maps it to
/// the upper bound of the guessing range.
pub fn level_step(line: &[u8]) -> (r: LevelStep)
    ensures
        r is NotANumber <==> !reads_as_u8(line@),
        r is InvalidLevel <==> reads_as_u8(line@) && !valid_level(unsigned_value(trimmed(line@))),
        r is Accepted <==> reads_as_u8(line@) && valid_level(unsigned_value(trimmed(line@))),
        r matches LevelStep::Accepted { level, num_max } ==> level == unsigned_value(trimmed(line@))
            && num_max == bound_for_level(level as int),
{
    match parse_u8(line) {
        None => LevelStep::NotANumber,
        Some(lvl) => match lvl_checker(&lvl) {
            Ok(choice) => LevelStep::Accepted {
                level: choice,
                num_max: upper_bound_for_level(choice),
            },
            Err(_) => LevelStep::InvalidLevel,
        },
    }
}

/// Decides one pass of the guess loop: parses the line as a signed integer
/// and, when it is one, compares it against the fixed target and counts the
/// attempt; a line that is no number costs no attempt.
pub fn guess_step(line: &[u8], rnd_num: i32, attempts: u32) -> (r: GuessStep)
    requires
        attempts < u32::MAX,
    ensures
        r is NotANumber <==> !reads_as_i32(line@),
        r matches GuessStep::Compared { outcome, attempts: after } ==> outcome == outcome_of(
            signed_value(trimmed(line@)),
            rnd_num as int,
        ) && after == attempts + 1,
{
    match parse_i32(line) {
        None => GuessStep::NotANumber,
        Some(num_guessed) => GuessStep::Compared {
            outcome: equality_match(num_guessed, rnd_num),
            attempts: attempts + 1,
        },
    }
}

} // verus!
