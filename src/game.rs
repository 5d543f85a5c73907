use crate::guess::{all_correct, evaluation, lemma_all_correct_iff_target, Guess};
use crate::letter::{
    lemma_may_follow_transitive, lemma_upgrade_allowed, may_follow, upgraded, LetterState,
    LetterWithState,
};
use crate::text::{
    all_lower_letters, first_non_letter_at, is_lower_letter, lemma_lower_seq, lower_seq,
    normalize, normalized, trim_end, trim_start,
};
use vstd::prelude::*;
use vstd::string::StrSliceExecFns;

verus! {

/// Why a game could not be made or a guess was not taken.
#[derive(Debug)]
pub enum Error {
    /// A word held `character`, which is not an ASCII letter.
    NonLetterChar { character: char },
    /// The word, as normalized, is not five characters long.
    WrongGuessLength { guess: String },
    /// A guess came after the last allowed turn; the target is given for display.
    OutOfTurns { target_word: String },
    /// A guess came after the game was won.
    GameAlreadyWon,
}

/// Where a game stands.
#[derive(Debug, Clone, Copy, PartialEq, Eq, Structural, Hash)]
pub enum GameState {
    Won,
    OutOfTurns,
    InProgress,
}

/// A valid word of the game: five lower-case ASCII letters.
pub open spec fn is_word(s: Seq<char>) -> bool {
    s.len() == 5 && all_lower_letters(s)
}

/// Position of a lower-case letter in the alphabet, `a` at 0.
pub open spec fn alphabet_index(c: char) -> int {
    (c as u32) as int - ('a' as u32) as int
}

/// What is known of every letter at the start of a game: nothing.
pub open spec fn initial_states() -> Seq<LetterState> {
    Seq::new(26, |i: int| LetterState::NotGuessed)
}

/// The cumulative states after the letters of one evaluated guess are folded in, in order,
/// each by the upgrade rule at its letter's place in the alphabet.
pub open spec fn folded(states: Seq<LetterState>, letters: Seq<(char, LetterState)>) -> Seq<
    LetterState,
>
    decreases letters.len(),
{
    if letters.len() == 0 {
        states
    } else {
        let prev = folded(states, letters.drop_last());
        let k = alphabet_index(letters.last().0);
        prev.update(k, upgraded(prev[k], letters.last().1))
    }
}

/// Where a game stands after a guess: won if the guess spelled the target, else out of turns
/// once `turns` guesses have reached `limit`, else still in progress.
pub open spec fn next_state(won: bool, turns: nat, limit: nat) -> GameState {
    if won {
        GameState::Won
    } else if turns >= limit {
        GameState::OutOfTurns
    } else {
        GameState::InProgress
    }
}

/// Folding the letters of any guess into the states of the alphabet only ever makes moves
/// that the upgrade rule allows, letter by letter: a letter known to be absent or correctly
/// placed keeps that state, and a misplaced one can only become correctly placed.
pub proof fn lemma_fold_only_upgrades(states: Seq<LetterState>, letters: Seq<(char, LetterState)>)
    requires
        states.len() == 26,
        forall|i: int| 0 <= i < letters.len() ==> is_lower_letter(#[trigger] letters[i].0),
    ensures
        folded(states, letters).len() == 26,
        forall|j: int|
            0 <= j < 26 ==> may_follow(#[trigger] states[j], folded(states, letters)[j]),
    decreases letters.len(),
{
    if letters.len() > 0 {
        let rest = letters.drop_last();
        lemma_fold_only_upgrades(states, rest);
        let prev = folded(states, rest);
        let k = alphabet_index(letters.last().0);
        assert(is_lower_letter(letters[letters.len() - 1].0));
        lemma_upgrade_allowed(prev[k], letters.last().1);
        assert forall|j: int| 0 <= j < 26 implies may_follow(
            #[trigger] states[j],
            folded(states, letters)[j],
        ) by {
            if j == k {
                lemma_may_follow_transitive(states[j], prev[j], folded(states, letters)[j]);
            }
        }
    }
}

/// A word of the game is its own normal form.
pub proof fn lemma_word_is_normalized(w: Seq<char>)
    requires
        is_word(w),
    ensures
        normalized(w) == w,
{
    assert(trim_start(w) == w);
    assert(trim_end(w) == w);
    lemma_lower_seq(w);
    assert(lower_seq(w) =~= w);
}

/// Guessing the target itself marks every letter correctly placed, and wins the game
/// whatever the number of turns taken and the limit.
pub proof fn lemma_guessing_target_wins(target: Seq<char>, turns: nat, limit: nat)
    requires
        is_word(target),
    ensures
        normalized(target) == target,
        all_correct(evaluation(normalized(target), target)),
        next_state(normalized(target) == target, turns, limit) == GameState::Won,
{
    lemma_word_is_normalized(target);
    lemma_all_correct_iff_target(target, target);
}

/// One game: a target word, the guesses taken so far, what is known of each letter of the
/// alphabet, a limit on the number of guesses, and where the game stands.
pub struct Game {
    target_word: String,
    guesses: Vec<Guess>,
    letters: Vec<LetterWithState>,
    turn_count: usize,
    state: GameState,
}

impl Game {
    /// The target word.
    pub closed spec fn target(&self) -> Seq<char> {
        self.target_word@
    }

    /// The evaluated guesses taken so far, oldest first.
    pub closed spec fn history(&self) -> Seq<Seq<(char, LetterState)>> {
        self.guesses@.map_values(|g: Guess| g@)
    }

    /// What is known of each letter, indexed by its place in the alphabet.
    pub closed spec fn letter_states(&self) -> Seq<LetterState> {
        self.letters@.map_values(|l: LetterWithState| l@.1)
    }

    /// The number of guesses the game allows.
    pub closed spec fn turn_limit(&self) -> nat {
        self.turn_count as nat
    }

    /// Where the game stands.
    pub closed spec fn status(&self) -> GameState {
        self.state
    }

    /// The game is well formed: well shaped, and standing where its history says.
    pub open spec fn wf(&self) -> bool {
        self.well_shaped() && self.status_consistent()
    }

    /// Its target is a word, every guess has five letters, and it holds one entry for each
    /// letter of the alphabet, in order.
    pub closed spec fn well_shaped(&self) -> bool {
        &&& is_word(self.target_word@)
        &&& self.letters@.len() == 26
        &&& forall|i: int|
            0 <= i < 26 ==> (#[trigger] self.letters@[i])@.0 == ((97 + i) as u32) as char
        &&& forall|i: int| 0 <= i < self.guesses@.len() ==> (#[trigger] self.guesses@[i])@.len() == 5
    }

    /// The standing agrees with the history: won exactly when the last guess was all
    /// correct, out of turns when it was not and the limit has been reached, in progress
    /// otherwise.
    pub open spec fn status_consistent(&self) -> bool {
        let h = self.history();
        if h.len() == 0 {
            self.status() == GameState::InProgress
        } else {
            self.status() == next_state(all_correct(h.last()), h.len(), self.turn_limit())
        }
    }



    /// Starts a game on `target_word`, normalized, which must be five ASCII letters.
    pub fn new(target_word: &str, turn_count: usize) -> (r: Result<Self, Error>)
        ensures
            match r {
                Ok(g) => is_word(normalized(target_word@)) && g.wf() && g.target() == normalized(
                    target_word@,
                ) && g.history() == Seq::<Seq<(char, LetterState)>>::empty() && g.letter_states()
                    == initial_states() && g.turn_limit() == turn_count && g.status()
                    == GameState::InProgress,
                Err(Error::WrongGuessLength { guess }) => normalized(target_word@).len() != 5
                    && guess@ == normalized(target_word@),
                Err(Error::NonLetterChar { character }) => normalized(target_word@).len() == 5
                    && exists|i: int|
                    first_non_letter_at(normalized(target_word@), i) && normalized(
                        target_word@,
                    )[i] == character,
                Err(_) => false,
            },
    {
        let word = normalize(target_word);
        let w = word.as_str();
        if w.unicode_len() != 5 {
            return Err(Error::WrongGuessLength { guess: word });
        }
        let mut i: usize = 0;
        while i < 5
            invariant
                w@ == normalized(target_word@),
                w@.len() == 5,
                i <= 5,
                forall|j: int| 0 <= j < i ==> is_lower_letter(#[trigger] w@[j]),
            decreases 5 - i,
        {
            let c = w.get_char(i);
            if !('a' <= c && c <= 'z') {
                assert(first_non_letter_at(w@, i as int));
                return Err(Error::NonLetterChar { character: c });
            }
            i = i + 1;
        }
        let mut letters: Vec<LetterWithState> = Vec::new();
        let mut k: u8 = 0;
        while k < 26
            invariant
                k <= 26,
                letters@.len() == k,
                forall|j: int|
                    0 <= j < k ==> (#[trigger] letters@[j])@ == (
                        ((97 + j) as u32) as char,
                        LetterState::NotGuessed,
                    ),
            decreases 26 - k,
        {
            match LetterWithState::new((97u8 + k) as char, LetterState::NotGuessed) {
                Ok(l) => letters.push(l),
                Err(_) => {
                    assert(false);
                },
            }
            k = k + 1;
        }
        let g = Game {
            target_word: word,
            guesses: Vec::new(),
            letters,
            turn_count,
            state: GameState::InProgress,
        };
        assert(g.history() =~= Seq::<Seq<(char, LetterState)>>::empty());
        assert(g.letter_states() =~= initial_states());
        Ok(g)
    }

    /// Takes one guess: refused once the game is over or when the normalized guess is not
    /// five ASCII letters, leaving the game as it was; otherwise evaluated against the target,
    /// folded into what is known of each letter, appended to the history, and the game's
    /// new standing returned.
    pub fn guess(&mut self, word: &str) -> (r: Result<GameState, Error>)
        requires
            old(self).wf(),
        ensures
            final(self).wf(),
            forall|j: int|
                0 <= j < 26 ==> may_follow(
                    #[trigger] old(self).letter_states()[j],
                    final(self).letter_states()[j],
                ),
            match old(self).status() {
                GameState::OutOfTurns => *final(self) == *old(self) && match r {
                    Err(Error::OutOfTurns { target_word }) => target_word@ == old(self).target(),
                    _ => false,
                },
                GameState::Won => *final(self) == *old(self) && r matches Err(
                    Error::GameAlreadyWon,
                ),
                GameState::InProgress => {
                    let g = normalized(word@);
                    if g.len() != 5 {
                        *final(self) == *old(self) && match r {
                            Err(Error::WrongGuessLength { guess }) => guess@ == g,
                            _ => false,
                        }
                    } else if !all_lower_letters(g) {
                        *final(self) == *old(self) && match r {
                            Err(Error::NonLetterChar { character }) => exists|i: int|
                                first_non_letter_at(g, i) && g[i] == character,
                            _ => false,
                        }
                    } else {
                        let e = evaluation(g, old(self).target());
                        &&& r == Ok::<GameState, Error>(final(self).status())
                        &&& final(self).status() == next_state(
                            g == old(self).target(),
                            old(self).history().len() + 1,
                            old(self).turn_limit(),
                        )
                        &&& final(self).history() == old(self).history().push(e)
                        &&& final(self).letter_states() == folded(old(self).letter_states(), e)
                        &&& final(self).target() == old(self).target()
                        &&& final(self).turn_limit() == old(self).turn_limit()
                    }
                },
            },
    {
        match self.state {
            GameState::InProgress => {},
            GameState::OutOfTurns => {
                return Err(Error::OutOfTurns { target_word: self.target_word.clone() });
            },
            GameState::Won => {
                return Err(Error::GameAlreadyWon);
            },
        }
        let guess = match Guess::new(word, self.target_word.as_str()) {
            Ok(guess) => guess,
            Err(e) => {
                return Err(e);
            },
        };
        let ghost g = normalized(word@);
        let ghost e = evaluation(g, self.target());
        let ghost states0 = self.letter_states();
        let letters = guess.letters();
        let mut k: usize = 0;
        assert(e.take(0) =~= Seq::<(char, LetterState)>::empty());
        while k < 5
            invariant
                k <= 5,
                self.wf(),
                letters@.map_values(|l: LetterWithState| l@) == e,
                e.len() == 5,
                is_word(g),
                e == evaluation(g, self.target()),
                self.target() == old(self).target(),
                self.history() == old(self).history(),
                self.turn_count == old(self).turn_count,
                self.state == old(self).state,
                states0 == old(self).letter_states(),
                self.letter_states() == folded(states0, e.take(k as int)),
                forall|j: int|
                    0 <= j < 26 ==> may_follow(
                        #[trigger] states0[j],
                        self.letter_states()[j],
                    ),
            decreases 5 - k,
        {
            let c = letters[k].letter();
            let st = letters[k].state();
            let idx = (c as u32 - 97) as usize;
            let mut l = self.letters[idx];
            l.update_state(st);
            proof {
                assert(e[k as int] == letters@[k as int]@);
                assert(e.take(k + 1).drop_last() =~= e.take(k as int));
                let prev = self.letter_states();
                assert(prev[idx as int] == self.letters@[idx as int]@.1);
                lemma_upgrade_allowed(prev[idx as int], st);
                assert forall|j: int| 0 <= j < 26 implies may_follow(
                    #[trigger] states0[j],
                    prev.update(idx as int, upgraded(prev[idx as int], st))[j],
                ) by {
                    if j == idx {
                        lemma_may_follow_transitive(
                            states0[j],
                            prev[j],
                            upgraded(prev[idx as int], st),
                        );
                    }
                }
            }
            self.letters.set(idx, l);
            proof {
                assert(self.letter_states() =~= folded(states0, e.take(k + 1)));
            }
            k = k + 1;
        }
        assert(e.take(5) =~= e);
        self.guesses.push(guess);
        proof {
            assert(self.history() =~= old(self).history().push(e));
            lemma_all_correct_iff_target(g, self.target());
        }
        if self.is_won() {
            self.state = GameState::Won;
            return Ok(GameState::Won);
        }
        if self.turn_number() >= self.turn_count {
            self.state = GameState::OutOfTurns;
            return Ok(GameState::OutOfTurns);
        }
        Ok(self.state)
    }

    /// The last guess taken spelled the target.
    pub fn is_won(&self) -> (r: bool)
        requires
            self.well_shaped(),
        ensures
            r == (self.history().len() > 0 && all_correct(self.history().last())),
    {
        let n = self.guesses.len();
        if n == 0 {
            return false;
        }
        let letters = self.guesses[n - 1].letters();
        let ghost last = self.history().last();
        assert(last == self.guesses@[n - 1]@);
        let mut i: usize = 0;
        while i < 5
            invariant
                i <= 5,
                letters@.map_values(|l: LetterWithState| l@) == last,
                last == self.history().last(),
                self.history().len() > 0,
                last.len() == 5,
                forall|j: int| 0 <= j < i ==> (#[trigger] last[j]).1 == LetterState::CorrectPosition,
            decreases 5 - i,
        {
            if letters[i].state() != LetterState::CorrectPosition {
                assert(last[i as int] == letters@[i as int]@);
                return false;
            }
            assert(last[i as int] == letters@[i as int]@);
            i = i + 1;
        }
        true
    }

    /// The number of guesses taken so far.
    pub fn turn_number(&self) -> (r: usize)
        ensures
            r == self.history().len(),
    {
        self.guesses.len()
    }

    /// The target word, for display once the game is over.
    pub fn target_word(&self) -> (r: String)
        ensures
            r@ == self.target(),
    {
        self.target_word.clone()
    }

    /// Where the game stands.
    pub fn state(&self) -> (r: GameState)
        ensures
            r == self.status(),
    {
        self.state
    }

    /// The number of guesses the game allows.
    pub fn turn_count(&self) -> (r: usize)
        ensures
            r == self.turn_limit(),
    {
        self.turn_count
    }

    /// The guesses taken so far, oldest first.
    pub fn guesses(&self) -> (r: &[Guess])
        ensures
            r@.map_values(|g: Guess| g@) == self.history(),
    {
        self.guesses.as_slice()
    }

    /// What is known of `letter`; nothing for a character that is not a lower-case letter.
    pub fn get_letter(&self, letter: char) -> (r: Option<&LetterWithState>)
        requires
            self.wf(),
        ensures
            is_lower_letter(letter) ==> (r matches Some(l) && l@ == (
                letter,
                self.letter_states()[alphabet_index(letter)],
            )),
            !is_lower_letter(letter) ==> r is None,
    {
        if 'a' <= letter && letter <= 'z' {
            let idx = (letter as u32 - 97) as usize;
            assert(self.letter_states()[idx as int] == self.letters@[idx as int]@.1);
            assert(alphabet_index(letter) == idx);
            assert(letter == (letter as u32) as char);
            Some(&self.letters[idx])
        } else {
            None
        }
    }
}

} // verus!
