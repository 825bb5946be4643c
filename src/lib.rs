//! Next-guess selection for Mastermind with four pegs and six colors.
//!
//! `clue` scores a guess against a secret (exact and color-only matches);
//! `select` picks, among all 1296 codes, the guess whose worst-case
//! elimination count over the remaining candidates is largest.
pub mod clue;
pub mod select;

pub use clue::{fit, get_clues, is_valid_code};
pub use select::{count_eliminated, make_a_guess, worst_case, GuessError};
