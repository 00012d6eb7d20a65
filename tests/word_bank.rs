use wordle::words::{Error, Words};

#[test]
fn builtin_bank_holds_the_corpus() {
    let w = Words::new();
    assert!(w.FINAL.len() > 100);
    assert!(w.ACCEPTABLE.len() > w.FINAL.len());
    assert!(w.FINAL.iter().all(|x| x.chars().count() == 5));
    assert!(w.FINAL.iter().all(|x| w.ACCEPTABLE.contains(x)));
    assert!(w.is_valid_answer("apple"));
    assert!(!w.is_valid_answer("aahed"));
    assert!(w.is_acceptable("aahed"));
}

#[test]
fn membership_ignores_case() {
    let w = Words::new();
    assert!(w.is_acceptable("APPLE"));
    assert!(w.is_valid_answer("CrAnE"));
    assert!(!w.is_acceptable("qzxvj"));
    assert!(!w.is_acceptable("appl"));
}

#[test]
fn load_final_sorts_and_lowercases() {
    let mut w = Words::new();
    let before_acceptable = w.ACCEPTABLE.clone();
    assert_eq!(w.FINAL_set(Some("crane\nApple\nBEAST\n")), Ok(()));
    assert_eq!(w.FINAL, vec!["apple".to_string(), "beast".to_string(), "crane".to_string()]);
    assert_eq!(w.ACCEPTABLE, before_acceptable);
}

#[test]
fn load_final_rejects_a_duplicate() {
    let mut w = Words::new();
    let before = w.FINAL.clone();
    assert_eq!(w.FINAL_set(Some("crane\napple\nCRANE")), Err(Error::DuplicateWord));
    assert_eq!(w.FINAL, before);
}

#[test]
fn load_final_rejects_a_word_outside_the_corpus() {
    let mut w = Words::new();
    let before = w.FINAL.clone();
    assert_eq!(w.FINAL_set(Some("crane\nqzxvj")), Err(Error::OutOfCorpus));
    // a guess-only word is not an answer word
    assert_eq!(w.FINAL_set(Some("aahed")), Err(Error::OutOfCorpus));
    assert_eq!(w.FINAL, before);
}

#[test]
fn load_without_a_source_fails() {
    let mut w = Words::new();
    assert_eq!(w.FINAL_set(None), Err(Error::SourceUnavailable));
    assert_eq!(w.ACCEPTABLE_set(None), Err(Error::SourceUnavailable));
}

#[test]
fn duplicate_is_reported_before_out_of_corpus() {
    let mut w = Words::new();
    assert_eq!(w.ACCEPTABLE_set(Some("qzxvj\nqzxvj")), Err(Error::DuplicateWord));
}

#[test]
fn load_acceptable_takes_guess_only_words() {
    let mut w = Words::new();
    assert_eq!(w.ACCEPTABLE_set(Some("aahed\napple")), Ok(()));
    assert_eq!(w.ACCEPTABLE, vec!["aahed".to_string(), "apple".to_string()]);
    assert!(w.is_acceptable("aahed"));
    assert!(!w.is_acceptable("crane"));
}

#[test]
fn daily_answer_is_deterministic() {
    let first = Words::new().pick_daily_answer(42, 3);
    let second = Words::new().pick_daily_answer(42, 3);
    assert_eq!(first, second);
    assert!(Words::new().FINAL.contains(&first));
}

#[test]
fn daily_answer_does_not_change_the_bank() {
    let w = Words::new();
    let before = w.FINAL.clone();
    let a = w.pick_daily_answer(7, 1);
    let b = w.pick_daily_answer(7, 1);
    assert_eq!(a, b);
    assert_eq!(w.FINAL, before);
}

#[test]
fn shuffle_permutes_the_answer_list() {
    let mut w = Words::new();
    let before = w.FINAL.clone();
    w.FINAL_RAND(2024);
    assert_ne!(w.FINAL, before);
    let mut sorted = w.FINAL.clone();
    sorted.sort();
    let mut expected = before.clone();
    expected.sort();
    assert_eq!(sorted, expected);
    assert_eq!(w.FINAL[2], Words::new().pick_daily_answer(2024, 3));
}

#[test]
fn days_differ_under_one_seed() {
    let w = Words::new();
    let days: Vec<String> = (1..=5).map(|d| w.pick_daily_answer(2024, d)).collect();
    assert!(days.iter().any(|d| *d != days[0]));
}

#[test]
fn explicit_answer_is_in_the_answer_list() {
    let w = Words::new();
    let a = wordle::game::Game::receive_answer(&w, false, 1, 2024, Some("Crane"));
    assert_eq!(a, Ok("crane".to_string()));
    let b = wordle::game::Game::receive_answer(&w, true, 2, 9, None);
    match b {
        Ok(x) => assert!(w.FINAL.contains(&x)),
        Err(e) => panic!("{:?}", e),
    }
}
