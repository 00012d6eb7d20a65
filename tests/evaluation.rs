use wordle::evaluate::evaluate;
use wordle::letter::{merge, LetterState};

use LetterState::{Green as G, Red as R, Unknown as U, Yellow as Y};

#[test]
fn crate_against_crane() {
    assert_eq!(evaluate("crane", "crate"), [G, G, G, R, G]);
}

#[test]
fn answer_against_itself_is_all_green() {
    assert_eq!(evaluate("apple", "apple"), [G; 5]);
    assert_eq!(evaluate("abbey", "abbey"), [G; 5]);
}

#[test]
fn nothing_in_common_is_all_red() {
    assert_eq!(evaluate("apple", "crush"), [R; 5]);
}

#[test]
fn exact_matches_claim_letters_before_yellows() {
    // one unclaimed `b` in the answer: the first stray `b` is Yellow, the next Red
    assert_eq!(evaluate("abbey", "bobby"), [Y, R, G, R, G]);
}

#[test]
fn repeated_letter_yellow_up_to_its_count() {
    assert_eq!(evaluate("apple", "paper"), [Y, Y, G, Y, R]);
    // the answer's only `e` is claimed by the exact match: the stray ones are Red
    assert_eq!(evaluate("crane", "eerie"), [R, R, Y, R, G]);
}

#[test]
fn green_count_equals_matching_positions() {
    let answer = "bleed";
    let guess = "breed";
    let states = evaluate(answer, guess);
    let greens = states.iter().filter(|s| **s == G).count();
    let matching = answer.chars().zip(guess.chars()).filter(|(a, g)| a == g).count();
    assert_eq!(greens, matching);
    assert_eq!(states, [G, R, G, G, G]);
}

#[test]
fn merge_is_idempotent_commutative_and_green_absorbs() {
    let all = [G, R, Y, U];
    for s in all {
        assert_eq!(merge(s, s), s);
        assert_eq!(merge(G, s), G);
        assert_eq!(merge(s, G), G);
        for t in all {
            assert_eq!(merge(s, t), merge(t, s));
        }
    }
}

#[test]
fn merge_follows_the_order() {
    assert_eq!(merge(U, R), R);
    assert_eq!(merge(R, Y), Y);
    assert_eq!(merge(Y, R), Y);
    assert_eq!(merge(Y, G), G);
    assert_eq!(merge(R, U), R);
}

#[test]
fn state_codes() {
    assert_eq!(G.to_state(), 'G');
    assert_eq!(R.to_state(), 'R');
    assert_eq!(Y.to_state(), 'Y');
    assert_eq!(U.to_state(), 'X');
}
