//! Core logic of an interactive number-guessing game.
//!
//! A round of the game picks a difficulty level in 1..=4, maps it to the
//! upper bound of a range, draws a secret target uniformly from that range,
//! and then compares each guess against the target until the guess is exact.
//! Everything that decides something — validating the level, mapping it to a
//! bound, parsing the typed lines, comparing a guess to the target — lives
//! here with a contract; the console loop that feeds lines in and prints the
//! feedback out sits outside the library.

pub mod compare;
pub mod game;
pub mod level;
pub mod parse;
pub mod rng;
