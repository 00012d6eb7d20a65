use vstd::prelude::*;
use crate::letter::LetterState;
use crate::text::chars_of;

verus! {

/// Number of positions `j < n` where the answer holds `c` and the guess
/// does not match the answer: the copies of `c` left over after the exact
/// matches are taken out.
pub open spec fn unclaimed(answer: Seq<char>, guess: Seq<char>, c: char, n: int) -> nat
    decreases n,
{
    if n <= 0 {
        0
    } else {
        unclaimed(answer, guess, c, n - 1) + if answer[n - 1] == c && guess[n - 1] != answer[n
            - 1] {
            1nat
        } else {
            0nat
        }
    }
}

/// Number of positions `k < n` where the guess holds `c` without matching
/// the answer there.
pub open spec fn misplaced(answer: Seq<char>, guess: Seq<char>, c: char, n: int) -> nat
    decreases n,
{
    if n <= 0 {
        0
    } else {
        misplaced(answer, guess, c, n - 1) + if guess[n - 1] == c && guess[n - 1] != answer[n
            - 1] {
            1nat
        } else {
            0nat
        }
    }
}

/// The state of position `i` of a guess: Green on an exact match; else
/// Yellow while the earlier unmatched copies of the letter in the guess have
/// not used up its unclaimed copies in the answer; else Red.
pub open spec fn cell_state(answer: Seq<char>, guess: Seq<char>, i: int) -> LetterState {
    if guess[i] == answer[i] {
        LetterState::Green
    } else if misplaced(answer, guess, guess[i], i) < unclaimed(
        answer,
        guess,
        guess[i],
        answer.len() as int,
    ) {
        LetterState::Yellow
    } else {
        LetterState::Red
    }
}

/// The states of every position of a guess.
pub open spec fn evaluation(answer: Seq<char>, guess: Seq<char>) -> Seq<LetterState> {
    Seq::new(guess.len(), |i: int| cell_state(answer, guess, i))
}

/// Number of positions `k < n` where the guess matches the answer.
pub open spec fn exact_matches(answer: Seq<char>, guess: Seq<char>, n: int) -> nat
    decreases n,
{
    if n <= 0 {
        0
    } else {
        exact_matches(answer, guess, n - 1) + if guess[n - 1] == answer[n - 1] {
            1nat
        } else {
            0nat
        }
    }
}

/// Number of positions `k < n` whose state is `s`.
pub open spec fn state_count(states: Seq<LetterState>, s: LetterState, n: int) -> nat
    decreases n,
{
    if n <= 0 {
        0
    } else {
        state_count(states, s, n - 1) + if states[n - 1] == s {
            1nat
        } else {
            0nat
        }
    }
}

/// Number of positions `k < n` where the guess holds `c` and the state is `s`.
pub open spec fn letter_state_count(
    guess: Seq<char>,
    states: Seq<LetterState>,
    c: char,
    s: LetterState,
    n: int,
) -> nat
    decreases n,
{
    if n <= 0 {
        0
    } else {
        letter_state_count(guess, states, c, s, n - 1) + if guess[n - 1] == c && states[n - 1]
            == s {
            1nat
        } else {
            0nat
        }
    }
}

fn count_unclaimed(answer: &Vec<char>, guess: &Vec<char>, c: char) -> (r: usize)
    requires
        answer@.len() == guess@.len(),
    ensures
        r == unclaimed(answer@, guess@, c, answer@.len() as int),
{
    let mut r: usize = 0;
    let mut j: usize = 0;
    while j < answer.len()
        invariant
            answer@.len() == guess@.len(),
            j <= answer@.len(),
            r == unclaimed(answer@, guess@, c, j as int),
            r <= j,
        decreases answer@.len() - j,
    {
        if answer[j] == c && guess[j] != answer[j] {
            r = r + 1;
        }
        j = j + 1;
    }
    r
}

fn count_misplaced(answer: &Vec<char>, guess: &Vec<char>, c: char, n: usize) -> (r: usize)
    requires
        answer@.len() == guess@.len(),
        n <= guess@.len(),
    ensures
        r == misplaced(answer@, guess@, c, n as int),
{
    let mut r: usize = 0;
    let mut k: usize = 0;
    while k < n
        invariant
            answer@.len() == guess@.len(),
            n <= guess@.len(),
            k <= n,
            r == misplaced(answer@, guess@, c, k as int),
            r <= k,
        decreases n - k,
    {
        if guess[k] == c && guess[k] != answer[k] {
            r = r + 1;
        }
        k = k + 1;
    }
    r
}

/// Evaluates a guess against the answer, position by position: exact matches
/// are Green; the other letters are Yellow, left to right, as long as the
/// answer holds copies of them not claimed by an exact match or an earlier
/// Yellow; the rest are Red.
pub fn evaluate(answer: &str, guess: &str) -> (r: [LetterState; 5])
    requires
        answer@.len() == 5,
        guess@.len() == 5,
    ensures
        r@ == evaluation(answer@, guess@),
{
    let a = chars_of(answer);
    let g = chars_of(guess);
    let mut out = [LetterState::Unknown; 5];
    let mut i: usize = 0;
    while i < 5
        invariant
            a@ == answer@,
            g@ == guess@,
            a@.len() == 5,
            g@.len() == 5,
            i <= 5,
            forall|k: int| 0 <= k < i ==> out@[k] == cell_state(answer@, guess@, k),
        decreases 5 - i,
    {
        if g[i] == a[i] {
            out[i] = LetterState::Green;
        } else {
            let before = count_misplaced(&a, &g, g[i], i);
            let left = count_unclaimed(&a, &g, g[i]);
            if before < left {
                out[i] = LetterState::Yellow;
            } else {
                out[i] = LetterState::Red;
            }
        }
        i = i + 1;
    }
    assert(out@ =~= evaluation(answer@, guess@));
    out
}

proof fn lemma_green_count(answer: Seq<char>, guess: Seq<char>, n: int)
    requires
        answer.len() == guess.len(),
        0 <= n <= guess.len(),
    ensures
        state_count(evaluation(answer, guess), LetterState::Green, n) == exact_matches(
            answer,
            guess,
            n,
        ),
    decreases n,
{
    if n > 0 {
        lemma_green_count(answer, guess, n - 1);
    }
}

proof fn lemma_yellow_count(answer: Seq<char>, guess: Seq<char>, c: char, n: int)
    requires
        answer.len() == guess.len(),
        0 <= n <= guess.len(),
    ensures
        letter_state_count(guess, evaluation(answer, guess), c, LetterState::Yellow, n) == if misplaced(
            answer,
            guess,
            c,
            n,
        ) < unclaimed(answer, guess, c, answer.len() as int) {
            misplaced(answer, guess, c, n)
        } else {
            unclaimed(answer, guess, c, answer.len() as int)
        },
    decreases n,
{
    if n > 0 {
        lemma_yellow_count(answer, guess, c, n - 1);
    }
}

/// For an answer and a guess of equal length, the evaluation has exactly as
/// many Greens as there are positions where the two agree, and for each
/// letter, the number of its Yellows is at most the number of its copies in
/// the answer not claimed by an exact match, and at most the number of its
/// copies in the guess that are not Green (in fact it is the smaller of the
/// two).
pub proof fn lemma_evaluation_counts(answer: Seq<char>, guess: Seq<char>, c: char)
    requires
        answer.len() == guess.len(),
    ensures
        state_count(evaluation(answer, guess), LetterState::Green, guess.len() as int)
            == exact_matches(answer, guess, guess.len() as int),
        letter_state_count(
            guess,
            evaluation(answer, guess),
            c,
            LetterState::Yellow,
            guess.len() as int,
        ) <= unclaimed(answer, guess, c, answer.len() as int),
        letter_state_count(
            guess,
            evaluation(answer, guess),
            c,
            LetterState::Yellow,
            guess.len() as int,
        ) <= misplaced(answer, guess, c, guess.len() as int),
        letter_state_count(
            guess,
            evaluation(answer, guess),
            c,
            LetterState::Yellow,
            guess.len() as int,
        ) == if misplaced(answer, guess, c, guess.len() as int) < unclaimed(
            answer,
            guess,
            c,
            answer.len() as int,
        ) {
            misplaced(answer, guess, c, guess.len() as int)
        } else {
            unclaimed(answer, guess, c, answer.len() as int)
        },
{
    lemma_green_count(answer, guess, guess.len() as int);
    lemma_yellow_count(answer, guess, c, guess.len() as int);
}

/// Evaluating the answer against itself gives Green at every position.
pub proof fn lemma_answer_is_all_green(answer: Seq<char>)
    ensures
        evaluation(answer, answer) == Seq::new(answer.len(), |i: int| LetterState::Green),
{
    assert(evaluation(answer, answer) =~= Seq::new(answer.len(), |i: int| LetterState::Green));
}

} // verus!
