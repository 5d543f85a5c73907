use crate::game::Error;
use crate::letter::{painted, LetterState, LetterWithState};
use crate::text::{
    all_lower_letters, contains_char, first_non_letter_at, is_lower_letter,
    lemma_lower_char_idempotent, lemma_lower_seq, lower_char, normalize, normalized, trim_end,
    trim_start,
};
use vstd::prelude::*;
use vstd::string::{StrSliceExecFns, StringExecFns};

verus! {

/// The state that evaluation gives to the letter `c` standing at position `i` of a guess:
/// absent when `target` holds no `c`, correctly placed when `target` has `c` at `i`, and
/// misplaced otherwise.
pub open spec fn evaluated_state(target: Seq<char>, c: char, i: int) -> LetterState {
    if !target.contains(c) {
        LetterState::NotInWord
    } else if target[i] == c {
        LetterState::CorrectPosition
    } else {
        LetterState::IncorrectPosition
    }
}

/// The evaluation of the normalized guess `word` against `target`, letter by letter.
pub open spec fn evaluation(word: Seq<char>, target: Seq<char>) -> Seq<(char, LetterState)> {
    word.map(|i: int, c: char| (c, evaluated_state(target, c, i)))
}

/// Every letter of an evaluated guess is in its correct position.
pub open spec fn all_correct(letters: Seq<(char, LetterState)>) -> bool {
    forall|i: int|
        0 <= i < letters.len() ==> (#[trigger] letters[i]).1 == LetterState::CorrectPosition
}

/// A guess is entirely correct exactly when it spells the target.
pub proof fn lemma_all_correct_iff_target(word: Seq<char>, target: Seq<char>)
    requires
        word.len() == target.len(),
    ensures
        all_correct(evaluation(word, target)) <==> word == target,
{
    let e = evaluation(word, target);
    assert(e.len() == word.len());
    if all_correct(e) {
        assert forall|i: int| 0 <= i < word.len() implies word[i] == target[i] by {
            assert(e[i].1 == LetterState::CorrectPosition);
        }
        assert(word =~= target);
    }
    if word == target {
        assert forall|i: int| 0 <= i < e.len() implies (#[trigger] e[i]).1
            == LetterState::CorrectPosition by {
            assert(target[i] == word[i]);
            assert(target.contains(word[i]));
        }
    }
}

/// The pieces of `parts` written one after another.
pub open spec fn joined(parts: Seq<Seq<char>>) -> Seq<char>
    decreases parts.len(),
{
    if parts.len() == 0 {
        Seq::empty()
    } else {
        joined(parts.drop_last()) + parts.last()
    }
}

/// One evaluated guess of five letters.
#[derive(Debug, Clone, Hash, PartialEq, Eq)]
pub struct Guess {
    letters: [LetterWithState; 5],
}

impl View for Guess {
    type V = Seq<(char, LetterState)>;

    closed spec fn view(&self) -> Seq<(char, LetterState)> {
        self.letters@.map_values(|l: LetterWithState| l@)
    }
}

impl Guess {
    /// Normalizes `guess` and evaluates it against `target_word`: refused unless the
    /// normalized guess is five ASCII letters, the length being checked first.
    pub fn new(guess: &str, target_word: &str) -> (r: Result<Self, Error>)
        requires
            target_word@.len() == 5,
        ensures
            match r {
                Ok(g) => normalized(guess@).len() == 5 && all_lower_letters(normalized(guess@))
                    && g@ == evaluation(normalized(guess@), target_word@),
                Err(Error::WrongGuessLength { guess: w }) => normalized(guess@).len() != 5 && w@
                    == normalized(guess@),
                Err(Error::NonLetterChar { character }) => normalized(guess@).len() == 5 && exists|
                    i: int,
                |
                    first_non_letter_at(normalized(guess@), i) && normalized(guess@)[i]
                        == character,
                Err(_) => false,
            },
    {
        let word = normalize(guess);
        let w = word.as_str();
        if w.unicode_len() != 5 {
            return Err(Error::WrongGuessLength { guess: word });
        }
        let ghost g = normalized(guess@);
        let mut letters: Vec<LetterWithState> = Vec::new();
        let mut i: usize = 0;
        while i < 5
            invariant
                w@ == g,
                g == normalized(guess@),
                g.len() == 5,
                target_word@.len() == 5,
                i <= 5,
                letters@.len() == i,
                forall|j: int| 0 <= j < i ==> is_lower_letter(#[trigger] g[j]),
                forall|j: int|
                    0 <= j < i ==> (#[trigger] letters@[j])@ == evaluation(g, target_word@)[j],
            decreases 5 - i,
        {
            let c = w.get_char(i);
            let state = if !contains_char(target_word, c) {
                LetterState::NotInWord
            } else if target_word.get_char(i) == c {
                LetterState::CorrectPosition
            } else {
                LetterState::IncorrectPosition
            };
            proof {
                let t = trim_end(trim_start(guess@));
                lemma_lower_seq(t);
                assert(g[i as int] == lower_char(t[i as int]));
                lemma_lower_char_idempotent(t[i as int]);
            }
            match LetterWithState::new(c, state) {
                Ok(l) => letters.push(l),
                Err(e) => {
                    assert(first_non_letter_at(g, i as int));
                    return Err(e);
                },
            }
            i = i + 1;
        }
        let r = Guess { letters: [letters[0], letters[1], letters[2], letters[3], letters[4]] };
        assert(r.letters@ =~= letters@);
        assert(r@ =~= evaluation(g, target_word@));
        Ok(r)
    }

    /// The letters of the guess, each drawn in the color of its state, one after another.
    pub fn to_colored_string(&self) -> (r: String)
        ensures
            exists|parts: Seq<Seq<char>>|
                parts.len() == 5 && (forall|i: int|
                    0 <= i < 5 ==> painted(seq![self@[i].0], #[trigger] parts[i])) && r@
                    == joined(parts),
    {
        let mut out = String::new();
        let ghost mut parts: Seq<Seq<char>> = Seq::empty();
        let mut i: usize = 0;
        while i < 5
            invariant
                i <= 5,
                self.letters@.map_values(|l: LetterWithState| l@) == self@,
                parts.len() == i,
                forall|j: int| 0 <= j < i ==> painted(seq![self@[j].0], #[trigger] parts[j]),
                out@ == joined(parts),
            decreases 5 - i,
        {
            let piece = self.letters[i].to_colored_string();
            out.append(piece.as_str());
            proof {
                assert(self@[i as int] == self.letters@[i as int]@);
                let next = parts.push(piece@);
                assert(next.drop_last() =~= parts);
                parts = next;
            }
            i = i + 1;
        }
        out
    }

    /// The five evaluated letters, in order.
    pub fn letters(&self) -> (r: &[LetterWithState; 5])
        ensures
            r@.map_values(|l: LetterWithState| l@) == self@,
    {
        &self.letters
    }
}

} // verus!
