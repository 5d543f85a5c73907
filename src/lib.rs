//! The rules of a five-letter word-guessing game: evaluating guesses against a target word,
//! tracking what is known of each letter of the alphabet, and the game's progress.

pub mod game;
pub mod guess;
pub mod letter;
pub mod text;

pub use game::{Error, Game, GameState};
pub use guess::Guess;
pub use letter::{LetterState, LetterWithState};
