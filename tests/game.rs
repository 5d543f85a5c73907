use wordle::LetterState::{CorrectPosition, IncorrectPosition, NotGuessed, NotInWord};
use wordle::{Error, Game, GameState, Guess, LetterState, LetterWithState};

fn states_of(guess: &Guess) -> Vec<LetterState> {
    guess.letters().iter().map(|l| l.state()).collect()
}

fn letter_state(game: &Game, c: char) -> LetterState {
    game.get_letter(c).unwrap().state()
}

fn strip_escapes(s: &str) -> String {
    let mut out = String::new();
    let mut in_escape = false;
    for c in s.chars() {
        if in_escape {
            if c == 'm' {
                in_escape = false;
            }
        } else if c == '\x1b' {
            in_escape = true;
        } else {
            out.push(c);
        }
    }
    out
}

#[test]
fn plane_against_crane() {
    let mut game = Game::new("crane", 6).unwrap();
    let status = game.guess("plane").unwrap();
    assert_eq!(status, GameState::InProgress);
    assert_eq!(game.turn_number(), 1);
    assert_eq!(
        states_of(&game.guesses()[0]),
        vec![NotInWord, NotInWord, CorrectPosition, CorrectPosition, CorrectPosition]
    );
    assert_eq!(letter_state(&game, 'p'), NotInWord);
    assert_eq!(letter_state(&game, 'l'), NotInWord);
    assert_eq!(letter_state(&game, 'a'), CorrectPosition);
    assert_eq!(letter_state(&game, 'c'), NotGuessed);
}

#[test]
fn crane_against_crane_wins() {
    let mut game = Game::new("crane", 6).unwrap();
    assert_eq!(game.guess("crane").unwrap(), GameState::Won);
    assert!(game.is_won());
    assert!(states_of(&game.guesses()[0]).iter().all(|s| *s == LetterState::CorrectPosition));
    assert_eq!(game.state(), GameState::Won);
}

#[test]
fn last_turn_runs_out_then_game_over() {
    let mut game = Game::new("apple", 1).unwrap();
    assert_eq!(game.guess("mango").unwrap(), GameState::OutOfTurns);
    match game.guess("apple") {
        Err(Error::OutOfTurns { target_word }) => assert_eq!(target_word, "apple"),
        other => panic!("unexpected {:?}", other),
    }
    assert_eq!(game.turn_number(), 1);
}

#[test]
fn target_of_wrong_length_is_refused() {
    match Game::new("abcd", 6) {
        Err(Error::WrongGuessLength { guess }) => assert_eq!(guess, "abcd"),
        other => panic!("unexpected {:?}", other.map(|_| ())),
    }
    match Game::new("  ABCDEF \n", 6) {
        Err(Error::WrongGuessLength { guess }) => assert_eq!(guess, "abcdef"),
        other => panic!("unexpected {:?}", other.map(|_| ())),
    }
    assert!(matches!(Game::new("", 6), Err(Error::WrongGuessLength { .. })));
}

#[test]
fn target_with_non_letter_is_refused() {
    match Game::new("ab1d2", 6) {
        Err(Error::NonLetterChar { character }) => assert_eq!(character, '1'),
        other => panic!("unexpected {:?}", other.map(|_| ())),
    }
    assert!(matches!(Game::new("ab de", 6), Err(Error::NonLetterChar { character: ' ' })));
}

#[test]
fn target_is_trimmed_and_lowercased() {
    let game = Game::new("\u{3000} CrAnE\t\n", 6).unwrap();
    assert_eq!(game.target_word(), "crane");
    assert_eq!(game.turn_count(), 6);
    assert_eq!(game.turn_number(), 0);
    assert_eq!(game.state(), GameState::InProgress);
    for c in 'a'..='z' {
        assert_eq!(letter_state(&game, c), LetterState::NotGuessed);
    }
    assert!(game.get_letter('A').is_none());
    assert!(game.get_letter('1').is_none());
}

#[test]
fn raw_target_as_guess_wins() {
    let mut game = Game::new("Crane", 6).unwrap();
    assert_eq!(game.guess("  CRANE\n").unwrap(), GameState::Won);
}

#[test]
fn no_guess_after_win() {
    let mut game = Game::new("crane", 6).unwrap();
    game.guess("crane").unwrap();
    assert!(matches!(game.guess("plane"), Err(Error::GameAlreadyWon)));
    assert_eq!(game.turn_number(), 1);
    assert_eq!(game.state(), GameState::Won);
}

#[test]
fn known_states_stick() {
    let mut game = Game::new("crane", 6).unwrap();
    game.guess("plane").unwrap();
    game.guess("nplae").unwrap();
    assert_eq!(letter_state(&game, 'p'), LetterState::NotInWord);
    assert_eq!(letter_state(&game, 'n'), LetterState::CorrectPosition);
    assert_eq!(letter_state(&game, 'a'), LetterState::CorrectPosition);
}

#[test]
fn misplaced_letter_can_become_correct() {
    let mut game = Game::new("crane", 6).unwrap();
    game.guess("rcaen").unwrap();
    assert_eq!(letter_state(&game, 'r'), LetterState::IncorrectPosition);
    assert_eq!(letter_state(&game, 'a'), LetterState::CorrectPosition);
    game.guess("drone").unwrap();
    assert_eq!(letter_state(&game, 'r'), LetterState::CorrectPosition);
    assert_eq!(letter_state(&game, 'd'), LetterState::NotInWord);
}

#[test]
fn rejected_guess_changes_nothing() {
    let mut game = Game::new("crane", 6).unwrap();
    game.guess("plane").unwrap();
    match game.guess("toolong") {
        Err(Error::WrongGuessLength { guess }) => assert_eq!(guess, "toolong"),
        other => panic!("unexpected {:?}", other),
    }
    match game.guess("Ab3De") {
        Err(Error::NonLetterChar { character }) => assert_eq!(character, '3'),
        other => panic!("unexpected {:?}", other),
    }
    assert_eq!(game.turn_number(), 1);
    assert_eq!(letter_state(&game, 'b'), LetterState::NotGuessed);
    assert_eq!(letter_state(&game, 'd'), LetterState::NotGuessed);
    assert_eq!(game.state(), GameState::InProgress);
}

#[test]
fn zero_turn_limit_ends_after_first_guess() {
    let mut game = Game::new("crane", 0).unwrap();
    assert_eq!(game.guess("plane").unwrap(), GameState::OutOfTurns);
    let mut game = Game::new("crane", 0).unwrap();
    assert_eq!(game.guess("crane").unwrap(), GameState::Won);
}

#[test]
fn win_counts_before_turn_limit() {
    let mut game = Game::new("crane", 2).unwrap();
    assert_eq!(game.guess("plane").unwrap(), GameState::InProgress);
    assert_eq!(game.guess("crane").unwrap(), GameState::Won);
}

#[test]
fn repeated_letter_is_marked_at_each_place() {
    let guess = Guess::new("eerie", "crane").unwrap();
    assert_eq!(
        states_of(&guess),
        vec![IncorrectPosition, IncorrectPosition, IncorrectPosition, NotInWord, CorrectPosition]
    );
}

#[test]
fn guess_errors() {
    assert!(matches!(Guess::new("abcd", "crane"), Err(Error::WrongGuessLength { .. })));
    assert!(matches!(Guess::new("a_cde", "crane"), Err(Error::NonLetterChar { character: '_' })));
    assert!(matches!(Guess::new("abc", "crane"), Err(Error::WrongGuessLength { .. })));
}

#[test]
fn letter_is_lowercased_or_refused() {
    let l = LetterWithState::new('Q', LetterState::NotGuessed).unwrap();
    assert_eq!(l.letter(), 'q');
    assert_eq!(l.state(), LetterState::NotGuessed);
    assert!(matches!(
        LetterWithState::new('7', LetterState::NotGuessed),
        Err(Error::NonLetterChar { character: '7' })
    ));
    assert!(matches!(
        LetterWithState::new('é', LetterState::NotGuessed),
        Err(Error::NonLetterChar { character: 'é' })
    ));
}

#[test]
fn upgrade_rule() {
    let all = [NotGuessed, NotInWord, IncorrectPosition, CorrectPosition];
    for incoming in all {
        let mut l = LetterWithState::new('x', NotGuessed).unwrap();
        l.update_state(incoming);
        assert_eq!(l.state(), incoming);

        let mut l = LetterWithState::new('x', NotInWord).unwrap();
        l.update_state(incoming);
        assert_eq!(l.state(), NotInWord);

        let mut l = LetterWithState::new('x', CorrectPosition).unwrap();
        l.update_state(incoming);
        assert_eq!(l.state(), CorrectPosition);

        let mut l = LetterWithState::new('x', IncorrectPosition).unwrap();
        l.update_state(incoming);
        let expected = if incoming == CorrectPosition { CorrectPosition } else { IncorrectPosition };
        assert_eq!(l.state(), expected);
        assert_eq!(l.letter(), 'x');
    }
}

#[test]
fn color_names() {
    assert_eq!(LetterState::NotGuessed.color_name(), "white");
    assert_eq!(LetterState::NotInWord.color_name(), "bright black");
    assert_eq!(LetterState::IncorrectPosition.color_name(), "yellow");
    assert_eq!(LetterState::CorrectPosition.color_name(), "green");
}

#[test]
fn colored_letter_holds_the_letter() {
    let l = LetterWithState::new('a', LetterState::CorrectPosition).unwrap();
    let s = l.to_colored_string();
    assert_eq!(strip_escapes(&s), "a");
    assert!(!s.contains("green"));
}

#[test]
fn colored_guess_holds_the_letters_in_order() {
    let guess = Guess::new("plane", "crane").unwrap();
    assert_eq!(strip_escapes(&guess.to_colored_string()), "plane");
}
