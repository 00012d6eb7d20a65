use wordle::game::{Error, Game, GameState};
use wordle::letter::LetterState;
use wordle::words::Words;

use LetterState::{Green as G, Red as R, Unknown as U, Yellow as Y};

fn session(answer: &str, difficult: bool) -> Game {
    match Game::new(false, difficult, None, None, Words::new(), Some(answer)) {
        Ok(g) => g,
        Err(e) => panic!("no session: {:?}", e),
    }
}

fn rank(s: LetterState) -> u8 {
    match s {
        U => 0,
        R => 1,
        Y => 2,
        G => 3,
    }
}

#[test]
fn explicit_answer_is_lowercased() {
    let g = session("APPLE", false);
    assert_eq!(g.answer(), "apple");
    assert_eq!(g.round(), 1);
    assert_eq!(g.game_state(), GameState::InProgress);
    assert_eq!(g.answer_state(), [U; 5]);
    assert_eq!(g.hints(), [U; 26]);
    assert!(g.guesses().is_empty());
}

#[test]
fn invalid_explicit_answer_is_refused() {
    let r = Game::new(false, false, None, None, Words::new(), Some("qzxvj"));
    assert!(matches!(r, Err(Error::InvalidAnswer)));
    // a guess-only word cannot be the answer
    let r = Game::new(true, false, None, None, Words::new(), Some("aahed"));
    assert!(matches!(r, Err(Error::InvalidAnswer)));
}

#[test]
fn explicit_answer_overrides_random() {
    let g = match Game::new(true, false, Some(3), Some(42), Words::new(), Some("crane")) {
        Ok(g) => g,
        Err(e) => panic!("{:?}", e),
    };
    assert_eq!(g.answer(), "crane");
}

#[test]
fn random_answer_is_the_daily_answer() {
    let g = match Game::new(true, false, None, None, Words::new(), None) {
        Ok(g) => g,
        Err(e) => panic!("{:?}", e),
    };
    assert_eq!(g.day(), 1);
    assert_eq!(g.seed(), 2024);
    assert_eq!(g.answer(), Words::new().pick_daily_answer(2024, 1));
    let h = match Game::new(true, false, Some(3), Some(42), Words::new(), None) {
        Ok(g) => g,
        Err(e) => panic!("{:?}", e),
    };
    assert_eq!(h.answer(), Words::new().pick_daily_answer(42, 3));
}

#[test]
fn random_day_out_of_range_is_refused() {
    let r = Game::new(true, false, Some(0), None, Words::new(), None);
    assert!(matches!(r, Err(Error::InvalidAnswer)));
    let r = Game::new(true, false, Some(100000), None, Words::new(), None);
    assert!(matches!(r, Err(Error::InvalidAnswer)));
}

#[test]
fn no_answer_without_random_is_refused() {
    let r = Game::new(false, false, None, None, Words::new(), None);
    assert!(matches!(r, Err(Error::InvalidAnswer)));
}

#[test]
fn unknown_or_short_words_are_not_in_the_list() {
    let mut g = session("apple", false);
    assert_eq!(g.submit_guess("qzxvj"), Err(Error::NotInWordList));
    assert_eq!(g.submit_guess("appl"), Err(Error::NotInWordList));
    assert_eq!(g.submit_guess("apples"), Err(Error::NotInWordList));
    assert_eq!(g.submit_guess(""), Err(Error::NotInWordList));
    assert_eq!(g.round(), 1);
    assert!(g.guesses().is_empty());
}

#[test]
fn guesses_are_lowercased() {
    let mut g = session("apple", false);
    assert_eq!(g.submit_guess("BEAST"), Ok([R, Y, Y, R, R]));
    assert_eq!(g.guesses(), vec!["beast".to_string()]);
}

#[test]
fn win_in_the_second_round() {
    let mut g = session("apple", false);
    assert_eq!(g.submit_guess("beast"), Ok([R, Y, Y, R, R]));
    assert_eq!(g.game_state(), GameState::InProgress);
    assert_eq!(g.submit_guess("apple"), Ok([G; 5]));
    assert_eq!(g.game_state(), GameState::Win);
    assert_eq!(g.guesses().len(), 2);
    assert_eq!(g.guesses_state()[1], [G; 5]);
    assert_eq!(g.submit_guess("crane"), Err(Error::SessionTerminated));
    assert_eq!(g.guesses().len(), 2);
}

#[test]
fn six_misses_lose() {
    let mut g = session("apple", false);
    for w in ["beast", "crane", "crate", "count", "grape", "house"] {
        assert_eq!(g.game_state(), GameState::InProgress);
        assert!(g.submit_guess(w).is_ok());
    }
    assert_eq!(g.game_state(), GameState::Lose);
    assert_eq!(g.round(), 7);
    let history = g.guesses();
    assert_eq!(history.len(), 6);
    assert_eq!(history[5], "house");
    assert_eq!(g.answer(), "apple");
    // the answer positions revealed over the six guesses
    assert_eq!(g.answer_state(), [Y, Y, U, U, G]);
    assert_eq!(g.submit_guess("apple"), Err(Error::SessionTerminated));
}

#[test]
fn difficult_mode_keeps_a_revealed_green() {
    let mut g = session("crane", true);
    assert_eq!(g.submit_guess("crate"), Ok([G, G, G, R, G]));
    assert_eq!(g.answer_state(), [G, G, G, U, G]);
    assert_eq!(g.submit_guess("count"), Err(Error::DisobeyingDifficultConstraint));
    assert_eq!(g.round(), 2);
    assert_eq!(g.guesses().len(), 1);
    // the answer itself is always accepted
    assert_eq!(g.submit_guess("crane"), Ok([G; 5]));
    assert_eq!(g.game_state(), GameState::Win);
}

#[test]
fn difficult_mode_keeps_a_revealed_yellow() {
    let mut g = session("apple", true);
    assert_eq!(g.submit_guess("beast"), Ok([R, Y, Y, R, R]));
    assert_eq!(g.answer_state(), [Y, U, U, U, Y]);
    // drops the `a`
    assert_eq!(g.submit_guess("crime"), Err(Error::DisobeyingDifficultConstraint));
    // keeps `a` and `e`
    assert_eq!(g.submit_guess("eager"), Ok([Y, Y, R, R, R]));
}

#[test]
fn easy_mode_ignores_hints() {
    let mut g = session("crane", false);
    assert!(g.submit_guess("crate").is_ok());
    assert!(g.submit_guess("count").is_ok());
    assert_eq!(g.round(), 3);
}

#[test]
fn keyboard_hints_only_improve() {
    let mut g = session("apple", false);
    let mut last = g.hints();
    for w in ["beast", "grape", "paper", "eager", "apple"] {
        assert!(g.submit_guess(w).is_ok());
        let now = g.hints();
        for k in 0..26 {
            assert!(rank(now[k]) >= rank(last[k]));
        }
        last = now;
    }
    assert_eq!(g.letter_hint('a'), G);
    assert_eq!(g.letter_hint('b'), R);
    assert_eq!(g.letter_hint('z'), U);
    assert_eq!(g.letter_hint('?'), U);
}

#[test]
fn hints_after_one_guess() {
    let mut g = session("apple", false);
    assert!(g.submit_guess("paper").is_ok());
    assert_eq!(g.letter_hint('p'), G);
    assert_eq!(g.letter_hint('a'), Y);
    assert_eq!(g.letter_hint('e'), Y);
    assert_eq!(g.letter_hint('r'), R);
    assert_eq!(g.letter_hint('c'), U);
    assert_eq!(g.answer_state(), [Y, Y, G, U, Y]);
}

#[test]
fn check_lowercases_and_changes_nothing() {
    let g = session("crane", true);
    assert_eq!(g.check("CRATE"), Ok(()));
    assert_eq!(g.check("qzxvj"), Err(Error::NotInWordList));
    assert_eq!(g.round(), 1);
    assert!(g.guesses().is_empty());
}

#[test]
fn recording_a_guess_leaves_the_round_to_advance_round() {
    let mut g = session("apple", false);
    assert_eq!(g.letters_update("APPLE"), [G; 5]);
    assert_eq!(g.round(), 1);
    assert_eq!(g.game_state(), GameState::InProgress);
    assert_eq!(g.guesses(), vec!["apple".to_string()]);
    assert_eq!(g.answer_state(), [G; 5]);
    g.advance_round();
    assert_eq!(g.round(), 2);
    assert_eq!(g.game_state(), GameState::Win);
}

#[test]
fn advance_round_after_a_miss() {
    let mut g = session("apple", false);
    assert_eq!(g.letters_update("beast"), [R, Y, Y, R, R]);
    assert_eq!(g.round(), 1);
    g.advance_round();
    assert_eq!(g.round(), 2);
    assert_eq!(g.game_state(), GameState::InProgress);
}
