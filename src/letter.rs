use crate::game::Error;
use colored::Colorize;
use crate::text::{ascii_lower, is_lower_letter, lower_char};
use vstd::prelude::*;

verus! {

/// What is known of one letter of the alphabet, or of one letter of a guess.
#[derive(Debug, Clone, Copy, PartialEq, Eq, Structural, Hash)]
pub enum LetterState {
    NotGuessed,
    NotInWord,
    IncorrectPosition,
    CorrectPosition,
}

impl LetterState {
    /// The name of the color a letter in this state is drawn in.
    pub open spec fn color_of(self) -> Seq<char> {
        match self {
            LetterState::NotGuessed => "white"@,
            LetterState::NotInWord => "bright black"@,
            LetterState::IncorrectPosition => "yellow"@,
            LetterState::CorrectPosition => "green"@,
        }
    }

    /// The name of the color a letter in this state is drawn in: white when not guessed,
    /// bright black when absent, yellow when misplaced, green when correctly placed.
    pub fn color_name(self) -> (r: &'static str)
        ensures
            r@ == self.color_of(),
    {
        match self {
            LetterState::NotGuessed => "white",
            LetterState::NotInWord => "bright black",
            LetterState::IncorrectPosition => "yellow",
            LetterState::CorrectPosition => "green",
        }
    }
}

/// The sequence that ends a colored span on a terminal.
pub open spec fn reset_code() -> Seq<char> {
    seq!['\x1b', '[', '0', 'm']
}

/// `out` is a way of drawing `text` in color: `text` itself where the terminal takes no
/// colors, else `text` after a style prefix and before the reset sequence.
pub open spec fn painted(text: Seq<char>, out: Seq<char>) -> bool {
    out == text || exists|prefix: Seq<char>| out == prefix + text + reset_code()
}

/// Relies on colored's `Colorize::color` for `&str` and on `Display` for `ColoredString`:
/// whether colors are on depends on the environment; when off the text is written as it is,
/// when on it comes after the style's escape sequence and before the reset sequence (a text
/// of one character holds no reset sequence to escape).
#[verifier::external_body]
fn paint(letter: char, color: &str) -> (r: String)
    ensures
        painted(seq![letter], r@),
{
    letter.to_string().as_str().color(color).to_string()
}

/// The state a letter is in after `incoming` is learned of it while it stood at `current`.
///
/// A letter that was never guessed takes whatever comes; a misplaced letter may still be
/// found in its right place; a letter known to be absent or correctly placed keeps that.
pub open spec fn upgraded(current: LetterState, incoming: LetterState) -> LetterState {
    match current {
        LetterState::NotGuessed => incoming,
        LetterState::IncorrectPosition => {
            if incoming == LetterState::CorrectPosition {
                LetterState::CorrectPosition
            } else {
                current
            }
        },
        _ => current,
    }
}

/// The moves that the upgrade rule allows from `prev` to `next`, staying put included.
pub open spec fn may_follow(prev: LetterState, next: LetterState) -> bool {
    prev == next || prev == LetterState::NotGuessed || (prev == LetterState::IncorrectPosition
        && next == LetterState::CorrectPosition)
}

/// One application of the upgrade rule only makes an allowed move: `CorrectPosition` and
/// `NotInWord` are never left, `IncorrectPosition` can only become `CorrectPosition`.
pub proof fn lemma_upgrade_allowed(current: LetterState, incoming: LetterState)
    ensures
        may_follow(current, upgraded(current, incoming)),
        current == LetterState::CorrectPosition ==> upgraded(current, incoming) == current,
        current == LetterState::NotInWord ==> upgraded(current, incoming) == current,
{
}

/// Allowed moves chain into allowed moves.
pub proof fn lemma_may_follow_transitive(a: LetterState, b: LetterState, c: LetterState)
    requires
        may_follow(a, b),
        may_follow(b, c),
    ensures
        may_follow(a, c),
{
}

/// A lower-case ASCII letter together with what is known of it.
#[derive(Debug, Clone, Copy, Hash, PartialEq, Eq, Structural)]
pub struct LetterWithState {
    letter: char,
    state: LetterState,
}

impl View for LetterWithState {
    /// The letter and its state.
    type V = (char, LetterState);

    closed spec fn view(&self) -> (char, LetterState) {
        (self.letter, self.state)
    }
}

impl LetterWithState {
    #[verifier::type_invariant]
    spec fn inv(&self) -> bool {
        is_lower_letter(self.letter)
    }

    /// Lower-cases `letter` and pairs it with `state`; anything but an ASCII letter is refused.
    pub fn new(letter: char, state: LetterState) -> (r: Result<Self, Error>)
        ensures
            match r {
                Ok(l) => is_lower_letter(lower_char(letter)) && l@ == (lower_char(letter), state),
                Err(Error::NonLetterChar { character }) => !is_lower_letter(lower_char(letter))
                    && character == lower_char(letter),
                Err(_) => false,
            },
    {
        let letter = ascii_lower(letter);
        if 'a' <= letter && letter <= 'z' {
            Ok(LetterWithState { letter, state })
        } else {
            Err(Error::NonLetterChar { character: letter })
        }
    }

    /// The letter drawn in the color of its state.
    pub fn to_colored_string(&self) -> (r: String)
        ensures
            painted(seq![self@.0], r@),
    {
        paint(self.letter, self.state.color_name())
    }

    /// What is known of the letter.
    pub fn state(&self) -> (r: LetterState)
        ensures
            r == self@.1,
    {
        self.state
    }

    /// Folds `new_state` into what is known of this letter, by the upgrade rule.
    pub fn update_state(&mut self, new_state: LetterState)
        ensures
            final(self)@ == (old(self)@.0, upgraded(old(self)@.1, new_state)),
    {
        proof {
            use_type_invariant(&*self);
        }
        match self.state {
            LetterState::NotGuessed => self.state = new_state,
            LetterState::IncorrectPosition => {
                if new_state == LetterState::CorrectPosition {
                    self.state = LetterState::CorrectPosition;
                }
            },
            LetterState::CorrectPosition | LetterState::NotInWord => {},
        }
    }

    /// The letter, always a lower-case ASCII letter.
    pub fn letter(&self) -> (r: char)
        ensures
            r == self@.0,
            is_lower_letter(r),
    {
        proof {
            use_type_invariant(self);
        }
        self.letter
    }
}

} // verus!
