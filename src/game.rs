use vstd::prelude::*;
use crate::evaluate::{evaluate, evaluation};
use crate::letter::{merge, merged, rank, LetterState};
use crate::text::{chars_of, lowercase_of, to_lower, words_view};
use crate::words::{daily_answer, Words};

verus! {

/// The number of guesses a session allows.
pub const MAX_GUESS_TIMES: u32 = 6;

/// Why a session refused a request.
#[derive(Clone, Copy, Debug, PartialEq, Eq, Structural)]
pub enum Error {
    NotInWordList,
    DisobeyingDifficultConstraint,
    InvalidAnswer,
    SessionTerminated,
}

/// Where a session stands.
#[derive(Clone, Copy, Debug, PartialEq, Eq, Structural)]
pub enum GameState {
    InProgress,
    Win,
    Lose,
}

/// The slot of a lowercase ASCII letter among the 26 keyboard hints.
pub open spec fn letter_slot(c: char) -> int {
    (c as u32) as int - ('a' as u32) as int
}

/// Whether a character is a lowercase ASCII letter.
pub open spec fn is_letter(c: char) -> bool {
    'a' <= c && c <= 'z'
}

/// The keyboard hints after merging the states of the first `n` positions
/// of a guess into them, letter by letter, left to right.
pub open spec fn hints_after(
    hints: Seq<LetterState>,
    word: Seq<char>,
    states: Seq<LetterState>,
    n: int,
) -> Seq<LetterState>
    decreases n,
{
    if n <= 0 {
        hints
    } else {
        let h = hints_after(hints, word, states, n - 1);
        let c = word[n - 1];
        if is_letter(c) {
            h.update(letter_slot(c), merged(h[letter_slot(c)], states[n - 1]))
        } else {
            h
        }
    }
}

/// The answer positions matched exactly by the guess become Green.
pub open spec fn greens_applied(
    answer_state: Seq<LetterState>,
    answer: Seq<char>,
    word: Seq<char>,
) -> Seq<LetterState> {
    Seq::new(
        answer_state.len(),
        |i: int|
            if word[i] == answer[i] {
                LetterState::Green
            } else {
                answer_state[i]
            },
    )
}

/// The first answer position from `from` on that holds `c` and is not yet
/// Green; the length of the answer if there is none.
pub open spec fn first_open(answer: Seq<char>, answer_state: Seq<LetterState>, c: char, from: int) -> int
    decreases answer.len() - from,
{
    if from < 0 || from >= answer.len() {
        answer.len() as int
    } else if answer[from] == c && answer_state[from] != LetterState::Green {
        from
    } else {
        first_open(answer, answer_state, c, from + 1)
    }
}

/// The answer state after each of the first `n` Yellow positions of a guess
/// has marked the first open answer position that holds its letter.
pub open spec fn yellows_applied(
    answer_state: Seq<LetterState>,
    answer: Seq<char>,
    word: Seq<char>,
    states: Seq<LetterState>,
    n: int,
) -> Seq<LetterState>
    decreases n,
{
    if n <= 0 {
        answer_state
    } else {
        let s = yellows_applied(answer_state, answer, word, states, n - 1);
        let k = first_open(answer, s, word[n - 1], 0);
        if states[n - 1] == LetterState::Yellow && k < answer.len() {
            s.update(k, merged(s[k], LetterState::Yellow))
        } else {
            s
        }
    }
}

/// The per-position answer state after a guess.
pub open spec fn answer_state_after(
    answer_state: Seq<LetterState>,
    answer: Seq<char>,
    word: Seq<char>,
) -> Seq<LetterState> {
    yellows_applied(
        greens_applied(answer_state, answer, word),
        answer,
        word,
        evaluation(answer, word),
        word.len() as int,
    )
}

/// A guess keeps every revealed hint: each Green answer position holds the
/// same letter in the guess, and the letter of each Yellow answer position
/// occurs somewhere in the guess.
pub open spec fn obeys_hints(
    answer: Seq<char>,
    answer_state: Seq<LetterState>,
    word: Seq<char>,
) -> bool {
    forall|i: int|
        0 <= i < answer_state.len() ==> (#[trigger] answer_state[i] == LetterState::Green
            ==> word[i] == answer[i]) && (answer_state[i] == LetterState::Yellow ==> word.contains(
            answer[i],
        ))
}

/// The verdict on a lowercase guess before it is played.
pub open spec fn guess_verdict(
    acceptable: Seq<Seq<char>>,
    answer: Seq<char>,
    answer_state: Seq<LetterState>,
    difficult: bool,
    word: Seq<char>,
) -> Result<(), Error> {
    if word.len() != 5 || !acceptable.contains(word) {
        Err(Error::NotInWordList)
    } else if difficult && word != answer && !obeys_hints(answer, answer_state, word) {
        Err(Error::DisobeyingDifficultConstraint)
    } else {
        Ok(())
    }
}

/// The answer a session starts with: the explicit word, lowercased, if it
/// is a five-letter answer word; else, in random mode, the daily answer of
/// `day` under `seed` if that day exists; else none.
pub open spec fn answer_choice(
    final_list: Seq<Seq<char>>,
    random: bool,
    day: u64,
    seed: u64,
    word: Option<Seq<char>>,
) -> Option<Seq<char>> {
    match word {
        Some(w) => if final_list.contains(lowercase_of(w)) && lowercase_of(w).len() == 5 {
            Some(lowercase_of(w))
        } else {
            None
        },
        None => if random && 1 <= day <= final_list.len() && daily_answer(final_list, seed, day).len()
            == 5 {
            Some(daily_answer(final_list, seed, day))
        } else {
            None
        },
    }
}

/// The characters of an optional string.
pub open spec fn opt_view(word: Option<&str>) -> Option<Seq<char>> {
    match word {
        Some(w) => Some(w@),
        None => None,
    }
}

/// `after` is `before` with the guess `word`, evaluated as `states`,
/// recorded and merged into the hints and the answer state; the round, the
/// state of the session and the rest are as they were.
pub open spec fn records(before: Game, after: Game, word: Seq<char>, states: Seq<LetterState>) -> bool {
    &&& after.answer_spec() == before.answer_spec()
    &&& after.guesses_spec() == before.guesses_spec().push(word)
    &&& after.guesses_state_spec() == before.guesses_state_spec().push(states)
    &&& after.hints_spec() == hints_after(before.hints_spec(), word, states, 5)
    &&& after.answer_state_spec() == answer_state_after(
        before.answer_state_spec(),
        before.answer_spec(),
        word,
    )
    &&& after.round_spec() == before.round_spec()
    &&& after.state_spec() == before.state_spec()
    &&& after.difficult_spec() == before.difficult_spec()
    &&& after.day_spec() == before.day_spec()
    &&& after.seed_spec() == before.seed_spec()
    &&& after.acceptable_spec() == before.acceptable_spec()
    &&& after.final_spec() == before.final_spec()
}

/// `after` is `before` with the round of its last guess closed: the round
/// advanced, and the session won when that guess is the answer, or lost
/// when the new round is past six; nothing else changed.
pub open spec fn advances(before: Game, after: Game) -> bool {
    &&& after.answer_spec() == before.answer_spec()
    &&& after.guesses_spec() == before.guesses_spec()
    &&& after.guesses_state_spec() == before.guesses_state_spec()
    &&& after.hints_spec() == before.hints_spec()
    &&& after.answer_state_spec() == before.answer_state_spec()
    &&& after.round_spec() == before.round_spec() + 1
    &&& after.state_spec() == if before.guesses_spec().last() == before.answer_spec() {
        GameState::Win
    } else if before.round_spec() + 1 > 6 {
        GameState::Lose
    } else {
        GameState::InProgress
    }
    &&& after.difficult_spec() == before.difficult_spec()
    &&& after.day_spec() == before.day_spec()
    &&& after.seed_spec() == before.seed_spec()
    &&& after.acceptable_spec() == before.acceptable_spec()
    &&& after.final_spec() == before.final_spec()
}

/// `after` is `before` with the guess `word`, evaluated as `states`,
/// played: recorded, merged into the hints and the answer state, the round
/// advanced, and the session won on the answer or lost after the sixth miss.
pub open spec fn plays(before: Game, after: Game, word: Seq<char>, states: Seq<LetterState>) -> bool {
    &&& after.answer_spec() == before.answer_spec()
    &&& after.guesses_spec() == before.guesses_spec().push(word)
    &&& after.guesses_state_spec() == before.guesses_state_spec().push(states)
    &&& after.hints_spec() == hints_after(before.hints_spec(), word, states, 5)
    &&& after.answer_state_spec() == answer_state_after(
        before.answer_state_spec(),
        before.answer_spec(),
        word,
    )
    &&& after.round_spec() == before.round_spec() + 1
    &&& after.state_spec() == if word == before.answer_spec() {
        GameState::Win
    } else if before.round_spec() + 1 > 6 {
        GameState::Lose
    } else {
        GameState::InProgress
    }
    &&& after.difficult_spec() == before.difficult_spec()
    &&& after.day_spec() == before.day_spec()
    &&& after.seed_spec() == before.seed_spec()
    &&& after.acceptable_spec() == before.acceptable_spec()
    &&& after.final_spec() == before.final_spec()
}

/// One submission took `before` to `after`: either it was refused and
/// nothing changed, or `word` was played.
pub open spec fn submission_step(before: Game, after: Game, word: Seq<char>) -> bool {
    after == before || plays(before, after, word, evaluation(before.answer_spec(), word))
}

/// A game session: the answer, what has been revealed of it, the guesses
/// so far and the keyboard hints.
pub struct Game {
    answer: String,
    answer_state: [LetterState; 5],
    guesses: Vec<String>,
    guesses_state: Vec<[LetterState; 5]>,
    letters: [LetterState; 26],
    difficult: bool,
    day: u64,
    seed: u64,
    word_bank: Words,
    round: u32,
    game_state: GameState,
}

impl Game {
    pub closed spec fn answer_spec(&self) -> Seq<char> {
        self.answer@
    }

    pub closed spec fn answer_state_spec(&self) -> Seq<LetterState> {
        self.answer_state@
    }

    pub closed spec fn guesses_spec(&self) -> Seq<Seq<char>> {
        words_view(self.guesses@)
    }

    pub closed spec fn guesses_state_spec(&self) -> Seq<Seq<LetterState>> {
        self.guesses_state@.map_values(|s: [LetterState; 5]| s@)
    }

    pub closed spec fn hints_spec(&self) -> Seq<LetterState> {
        self.letters@
    }

    pub closed spec fn difficult_spec(&self) -> bool {
        self.difficult
    }

    pub closed spec fn day_spec(&self) -> u64 {
        self.day
    }

    pub closed spec fn seed_spec(&self) -> u64 {
        self.seed
    }

    pub closed spec fn round_spec(&self) -> nat {
        self.round as nat
    }

    pub closed spec fn state_spec(&self) -> GameState {
        self.game_state
    }

    pub closed spec fn acceptable_spec(&self) -> Seq<Seq<char>> {
        words_view(self.word_bank.ACCEPTABLE@)
    }

    pub closed spec fn final_spec(&self) -> Seq<Seq<char>> {
        words_view(self.word_bank.FINAL@)
    }

    /// The session's internal consistency: a five-letter answer, one state
    /// array per guess, a round one past the number of guesses, at most six
    /// guesses, and a state that agrees with them: only a won session holds
    /// the answer among its guesses, as the last one. No answer position is
    /// ever Red.
    pub closed spec fn wf(&self) -> bool {
        &&& self.answer@.len() == 5
        &&& self.guesses@.len() == self.guesses_state@.len()
        &&& self.round == self.guesses@.len() + 1
        &&& self.guesses@.len() <= 6
        &&& self.game_state == GameState::InProgress ==> self.guesses@.len() < 6
        &&& self.game_state == GameState::Lose ==> self.guesses@.len() == 6
        &&& self.game_state == GameState::Win ==> self.guesses@.len() > 0
            && self.guesses@.last()@ == self.answer@
        &&& self.game_state != GameState::Win ==> forall|i: int|
            0 <= i < self.guesses@.len() ==> (#[trigger] self.guesses@[i])@ != self.answer@
        &&& forall|k: int| 0 <= k < 5 ==> #[trigger] self.answer_state@[k] != LetterState::Red
    }

    /// The consistency of a session between recording a guess and closing
    /// its round: the round still counts the guess just recorded, the
    /// session is in progress, and only that last guess may be the answer.
    pub closed spec fn recorded(&self) -> bool {
        &&& self.answer@.len() == 5
        &&& self.guesses@.len() == self.guesses_state@.len()
        &&& self.round == self.guesses@.len()
        &&& 1 <= self.guesses@.len() <= 6
        &&& self.game_state == GameState::InProgress
        &&& forall|i: int|
            0 <= i < self.guesses@.len() - 1 ==> (#[trigger] self.guesses@[i])@ != self.answer@
        &&& forall|k: int| 0 <= k < 5 ==> #[trigger] self.answer_state@[k] != LetterState::Red
    }
}


fn contains_char(w: &Vec<char>, c: char) -> (r: bool)
    ensures
        r == w@.contains(c),
{
    let mut i: usize = 0;
    while i < w.len()
        invariant
            i <= w@.len(),
            forall|k: int| 0 <= k < i ==> w@[k] != c,
        decreases w@.len() - i,
    {
        if w[i] == c {
            assert(w@[i as int] == c);
            return true;
        }
        i = i + 1;
    }
    false
}

fn keeps_hints(a: &Vec<char>, answer_state: &[LetterState; 5], w: &Vec<char>) -> (r: bool)
    requires
        a@.len() == 5,
        w@.len() == 5,
    ensures
        r == obeys_hints(a@, answer_state@, w@),
{
    let mut i: usize = 0;
    while i < 5
        invariant
            a@.len() == 5,
            w@.len() == 5,
            i <= 5,
            forall|k: int|
                0 <= k < i ==> (#[trigger] answer_state@[k] == LetterState::Green ==> w@[k]
                    == a@[k]) && (answer_state@[k] == LetterState::Yellow ==> w@.contains(a@[k])),
        decreases 5 - i,
    {
        if answer_state[i] == LetterState::Green {
            if w[i] != a[i] {
                return false;
            }
        } else if answer_state[i] == LetterState::Yellow {
            if !contains_char(w, a[i]) {
                return false;
            }
        }
        i = i + 1;
    }
    true
}

fn first_open_slot(a: &Vec<char>, answer_state: &[LetterState; 5], c: char) -> (r: usize)
    requires
        a@.len() == 5,
    ensures
        r == first_open(a@, answer_state@, c, 0),
        r <= 5,
{
    let mut j: usize = 0;
    while j < 5
        invariant
            a@.len() == 5,
            j <= 5,
            first_open(a@, answer_state@, c, j as int) == first_open(a@, answer_state@, c, 0),
        decreases 5 - j,
    {
        if a[j] == c && answer_state[j] != LetterState::Green {
            return j;
        }
        j = j + 1;
    }
    5
}

fn updated_hints(hints: [LetterState; 26], w: &Vec<char>, states: &[LetterState; 5]) -> (r: [LetterState; 26])
    requires
        w@.len() == 5,
    ensures
        r@ == hints_after(hints@, w@, states@, 5),
{
    let mut h = hints;
    let mut i: usize = 0;
    while i < 5
        invariant
            w@.len() == 5,
            i <= 5,
            h@ == hints_after(hints@, w@, states@, i as int),
        decreases 5 - i,
    {
        let c = w[i];
        if 'a' <= c && c <= 'z' {
            let k = (c as u32 - 'a' as u32) as usize;
            h[k] = merge(h[k], states[i]);
        }
        i = i + 1;
    }
    h
}

fn updated_answer_state(
    answer_state: [LetterState; 5],
    a: &Vec<char>,
    w: &Vec<char>,
    states: &[LetterState; 5],
) -> (r: [LetterState; 5])
    requires
        a@.len() == 5,
        w@.len() == 5,
        states@ == evaluation(a@, w@),
    ensures
        r@ == answer_state_after(answer_state@, a@, w@),
{
    let mut s = answer_state;
    let mut i: usize = 0;
    while i < 5
        invariant
            a@.len() == 5,
            w@.len() == 5,
            i <= 5,
            forall|k: int| 0 <= k < i ==> s@[k] == greens_applied(answer_state@, a@, w@)[k],
            forall|k: int| i <= k < 5 ==> s@[k] == answer_state@[k],
        decreases 5 - i,
    {
        if w[i] == a[i] {
            s[i] = LetterState::Green;
        }
        i = i + 1;
    }
    let ghost greens = s@;
    assert(greens =~= greens_applied(answer_state@, a@, w@));
    i = 0;
    while i < 5
        invariant
            a@.len() == 5,
            w@.len() == 5,
            states@ == evaluation(a@, w@),
            i <= 5,
            s@ == yellows_applied(greens, a@, w@, states@, i as int),
        decreases 5 - i,
    {
        if states[i] == LetterState::Yellow {
            let k = first_open_slot(a, &s, w[i]);
            if k < 5 {
                s[k] = merge(s[k], LetterState::Yellow);
            }
        }
        i = i + 1;
    }
    s
}


impl Game {
    /// Chooses the answer of a session. An explicit `word` is lowercased and
    /// must be a five-letter word of the answer list; without one, random
    /// mode draws the daily answer of `day` under `seed`, and the day must
    /// exist. Anything else fails with `InvalidAnswer`.
    pub fn receive_answer(
        word_bank: &Words,
        random: bool,
        day: u64,
        seed: u64,
        word: Option<&str>,
    ) -> (r: Result<String, Error>)
        ensures
            match answer_choice(words_view(word_bank.FINAL@), random, day, seed, opt_view(word)) {
                Some(a) => r is Ok && r->Ok_0@ == a,
                None => r == Err::<String, Error>(Error::InvalidAnswer),
            },
            r is Ok ==> words_view(word_bank.FINAL@).contains(r->Ok_0@),
    {
        match word {
            Some(w) => {
                let lowered = to_lower(w);
                if lowered.as_str().unicode_len() == 5 && word_bank.has_answer(&lowered) {
                    Ok(lowered)
                } else {
                    Err(Error::InvalidAnswer)
                }
            },
            None => {
                if random && 1 <= day && day <= word_bank.FINAL.len() as u64 {
                    let a = word_bank.pick_daily_answer(seed, day);
                    if a.as_str().unicode_len() == 5 {
                        Ok(a)
                    } else {
                        Err(Error::InvalidAnswer)
                    }
                } else {
                    Err(Error::InvalidAnswer)
                }
            },
        }
    }

    /// Starts a session on `word_bank`. `day` defaults to 1 and `seed` to
    /// 2024; the answer is chosen as `receive_answer` says. The session
    /// starts in round 1 with no guesses and every hint Unknown.
    pub fn new(
        random: bool,
        difficult: bool,
        day: Option<u64>,
        seed: Option<u64>,
        word_bank: Words,
        word: Option<&str>,
    ) -> (r: Result<Game, Error>)
        ensures
            match answer_choice(
                words_view(word_bank.FINAL@),
                random,
                day.unwrap_or(1),
                seed.unwrap_or(2024),
                opt_view(word),
            ) {
                Some(a) => r is Ok && r->Ok_0.wf() && r->Ok_0.answer_spec() == a
                    && r->Ok_0.answer_state_spec() == Seq::new(5, |i: int| LetterState::Unknown)
                    && r->Ok_0.hints_spec() == Seq::new(26, |i: int| LetterState::Unknown)
                    && r->Ok_0.guesses_spec() == Seq::<Seq<char>>::empty()
                    && r->Ok_0.guesses_state_spec() == Seq::<Seq<LetterState>>::empty()
                    && r->Ok_0.round_spec() == 1 && r->Ok_0.state_spec() == GameState::InProgress
                    && r->Ok_0.difficult_spec() == difficult && r->Ok_0.day_spec() == day.unwrap_or(1)
                    && r->Ok_0.seed_spec() == seed.unwrap_or(2024) && r->Ok_0.acceptable_spec()
                    == words_view(word_bank.ACCEPTABLE@) && r->Ok_0.final_spec() == words_view(
                    word_bank.FINAL@,
                ),
                None => r is Err && r->Err_0 == Error::InvalidAnswer,
            },
            r is Ok ==> r->Ok_0.final_spec().contains(r->Ok_0.answer_spec()),
    {
        let day = match day {
            Some(d) => d,
            None => 1,
        };
        let seed = match seed {
            Some(s) => s,
            None => 2024,
        };
        let answer = match Game::receive_answer(&word_bank, random, day, seed, word) {
            Ok(a) => a,
            Err(e) => {
                return Err(e);
            },
        };
        let g = Game {
            answer,
            answer_state: [LetterState::Unknown; 5],
            guesses: Vec::new(),
            guesses_state: Vec::new(),
            letters: [LetterState::Unknown; 26],
            difficult,
            day,
            seed,
            word_bank,
            round: 1,
            game_state: GameState::InProgress,
        };
        proof {
            assert(g.answer_state@ =~= Seq::new(5, |i: int| LetterState::Unknown));
            assert(g.letters@ =~= Seq::new(26, |i: int| LetterState::Unknown));
            assert(g.guesses_spec() =~= Seq::<Seq<char>>::empty());
            assert(g.guesses_state_spec() =~= Seq::<Seq<LetterState>>::empty());
        }
        Ok(g)
    }

    fn verdict(&self, word: &String) -> (r: Result<(), Error>)
        requires
            self.answer@.len() == 5,
        ensures
            r == guess_verdict(
                self.acceptable_spec(),
                self.answer_spec(),
                self.answer_state_spec(),
                self.difficult_spec(),
                word@,
            ),
    {
        if word.as_str().unicode_len() != 5 || !self.word_bank.accepts(word) {
            return Err(Error::NotInWordList);
        }
        if self.difficult && *word != self.answer {
            let a = chars_of(self.answer.as_str());
            let w = chars_of(word.as_str());
            if !keeps_hints(&a, &self.answer_state, &w) {
                return Err(Error::DisobeyingDifficultConstraint);
            }
        }
        Ok(())
    }

    /// Checks a guess before it is played. The guess is lowercased; it must
    /// then be a five-letter accepted word, and in difficult mode a word other
    /// than the answer must keep every revealed hint.
    pub fn check(&self, word: &str) -> (r: Result<(), Error>)
        requires
            self.wf(),
        ensures
            r == guess_verdict(
                self.acceptable_spec(),
                self.answer_spec(),
                self.answer_state_spec(),
                self.difficult_spec(),
                lowercase_of(word@),
            ),
    {
        let w = to_lower(word);
        self.verdict(&w)
    }

    /// Records a guess, lowercased: evaluates it against the answer, merges
    /// the result into the keyboard hints and the answer state, and appends
    /// the guess and its evaluation. The round and the state of the session
    /// stay as they are, until `advance_round`.
    pub fn letters_update(&mut self, word: &str) -> (r: [LetterState; 5])
        requires
            old(self).wf(),
            old(self).state_spec() == GameState::InProgress,
            lowercase_of(word@).len() == 5,
        ensures
            final(self).recorded(),
            r@ == evaluation(old(self).answer_spec(), lowercase_of(word@)),
            records(*old(self), *final(self), lowercase_of(word@), r@),
            forall|k: int|
                0 <= k < 5 ==> rank(#[trigger] final(self).answer_state_spec()[k]) >= rank(
                    old(self).answer_state_spec()[k],
                ) && (r@[k] == LetterState::Green ==> final(self).answer_state_spec()[k]
                    == LetterState::Green),
            forall|k: int|
                0 <= k < 26 ==> rank(#[trigger] final(self).hints_spec()[k]) >= rank(
                    old(self).hints_spec()[k],
                ),
    {
        let word = to_lower(word);
        let ghost before = *self;
        let a = chars_of(self.answer.as_str());
        let w = chars_of(word.as_str());
        let states = evaluate(self.answer.as_str(), word.as_str());
        self.letters = updated_hints(self.letters, &w, &states);
        self.answer_state = updated_answer_state(self.answer_state, &a, &w, &states);
        let ghost old_guesses = self.guesses@;
        let ghost old_states = self.guesses_state@;
        self.guesses.push(word.clone());
        self.guesses_state.push(states);
        proof {
            assert(words_view(self.guesses@) =~= words_view(old_guesses).push(word@));
            assert(self.guesses_state@.map_values(|s: [LetterState; 5]| s@) =~= old_states.map_values(
                |s: [LetterState; 5]| s@,
            ).push(states@));
            assert forall|k: int| 0 <= k < 5 implies rank(
                #[trigger] self.answer_state_spec()[k],
            ) >= rank(before.answer_state_spec()[k]) && (states@[k] == LetterState::Green
                ==> self.answer_state_spec()[k] == LetterState::Green) && self.answer_state@[k]
                != LetterState::Red by {
                lemma_answer_state_after(before.answer_state@, a@, w@, k);
            }
            assert forall|k: int| 0 <= k < 26 implies rank(#[trigger] self.hints_spec()[k]) >= rank(
                before.hints_spec()[k],
            ) by {
                lemma_hints_monotone(before.hints_spec(), w@, states@, 5, k);
            }
            assert forall|i: int| 0 <= i < self.guesses@.len() - 1 implies (
            #[trigger] self.guesses@[i])@ != self.answer@ by {
                assert(self.guesses@[i] == old_guesses[i]);
            }
        }
        states
    }

    /// Closes the round of the guess just recorded: the round advances; the
    /// session is won when that guess is the answer, and lost when it was the
    /// sixth guess and missed.
    pub fn advance_round(&mut self)
        requires
            old(self).recorded(),
        ensures
            final(self).wf(),
            advances(*old(self), *final(self)),
    {
        self.round = self.round + 1;
        let last = self.guesses.len() - 1;
        if self.guesses[last] == self.answer {
            self.game_state = GameState::Win;
        } else if self.round > MAX_GUESS_TIMES {
            self.game_state = GameState::Lose;
        }
        proof {
            if self.game_state != GameState::Win {
                assert forall|i: int| 0 <= i < self.guesses@.len() implies (
                #[trigger] self.guesses@[i])@ != self.answer@ by {
                    if i < last {
                    } else {
                        assert(self.guesses@[i] == self.guesses@.last());
                    }
                }
            }
        }
    }
}


impl Game {
    /// Submits a guess as typed. A finished session fails with
    /// `SessionTerminated`; a guess that `check` refuses fails with its
    /// error; either way nothing changes. Otherwise the guess is recorded as
    /// `letters_update` says, the round is closed as `advance_round` says,
    /// and the evaluation of the guess is returned.
    pub fn submit_guess(&mut self, raw: &str) -> (r: Result<[LetterState; 5], Error>)
        requires
            old(self).wf(),
        ensures
            final(self).wf(),
            old(self).state_spec() != GameState::InProgress ==> r == Err::<
                [LetterState; 5],
                Error,
            >(Error::SessionTerminated) && *final(self) == *old(self),
            old(self).state_spec() == GameState::InProgress ==> match guess_verdict(
                old(self).acceptable_spec(),
                old(self).answer_spec(),
                old(self).answer_state_spec(),
                old(self).difficult_spec(),
                lowercase_of(raw@),
            ) {
                Err(e) => r == Err::<[LetterState; 5], Error>(e) && *final(self) == *old(self),
                Ok(_) => r is Ok && r->Ok_0@ == evaluation(
                    old(self).answer_spec(),
                    lowercase_of(raw@),
                ) && plays(*old(self), *final(self), lowercase_of(raw@), r->Ok_0@),
            },
            forall|k: int|
                0 <= k < 26 ==> rank(#[trigger] final(self).hints_spec()[k]) >= rank(
                    old(self).hints_spec()[k],
                ),
            submission_step(*old(self), *final(self), lowercase_of(raw@)),
    {
        if self.game_state != GameState::InProgress {
            return Err(Error::SessionTerminated);
        }
        match self.check(raw) {
            Err(e) => Err(e),
            Ok(()) => {
                let r = self.letters_update(raw);
                self.advance_round();
                Ok(r)
            },
        }
    }

    /// The answer.
    pub fn answer(&self) -> (r: String)
        ensures
            r@ == self.answer_spec(),
    {
        self.answer.clone()
    }

    /// The guesses played so far, in order.
    pub fn guesses(&self) -> (r: Vec<String>)
        ensures
            words_view(r@) == self.guesses_spec(),
    {
        let mut r: Vec<String> = Vec::new();
        let mut i: usize = 0;
        while i < self.guesses.len()
            invariant
                i <= self.guesses@.len(),
                words_view(r@) == words_view(self.guesses@).subrange(0, i as int),
            decreases self.guesses@.len() - i,
        {
            let ghost before = r@;
            r.push(self.guesses[i].clone());
            assert(words_view(r@) =~= words_view(before).push(self.guesses@[i as int]@));
            assert(words_view(r@) =~= words_view(self.guesses@).subrange(0, i + 1));
            i = i + 1;
        }
        assert(words_view(r@) =~= words_view(self.guesses@));
        r
    }

    /// The evaluation of each guess played so far, in order.
    pub fn guesses_state(&self) -> (r: Vec<[LetterState; 5]>)
        ensures
            r@.map_values(|s: [LetterState; 5]| s@) == self.guesses_state_spec(),
    {
        let mut r: Vec<[LetterState; 5]> = Vec::new();
        let mut i: usize = 0;
        while i < self.guesses_state.len()
            invariant
                i <= self.guesses_state@.len(),
                r@ == self.guesses_state@.subrange(0, i as int),
            decreases self.guesses_state@.len() - i,
        {
            r.push(self.guesses_state[i]);
            assert(r@ =~= self.guesses_state@.subrange(0, i + 1));
            i = i + 1;
        }
        assert(r@ =~= self.guesses_state@);
        r
    }

    /// What has been revealed of each position of the answer.
    pub fn answer_state(&self) -> (r: [LetterState; 5])
        ensures
            r@ == self.answer_state_spec(),
    {
        self.answer_state
    }

    /// The keyboard hints, one per letter from `a` to `z`.
    pub fn hints(&self) -> (r: [LetterState; 26])
        ensures
            r@ == self.hints_spec(),
    {
        self.letters
    }

    /// The keyboard hint of a letter; Unknown for anything but `a` to `z`.
    pub fn letter_hint(&self, c: char) -> (r: LetterState)
        ensures
            is_letter(c) ==> r == self.hints_spec()[letter_slot(c)],
            !is_letter(c) ==> r == LetterState::Unknown,
    {
        if 'a' <= c && c <= 'z' {
            self.letters[(c as u32 - 'a' as u32) as usize]
        } else {
            LetterState::Unknown
        }
    }

    /// The round the next guess would be played in, from 1.
    pub fn round(&self) -> (r: u32)
        ensures
            r == self.round_spec(),
    {
        self.round
    }

    /// Where the session stands.
    pub fn game_state(&self) -> (r: GameState)
        ensures
            r == self.state_spec(),
    {
        self.game_state
    }

    /// Whether difficult mode is on.
    pub fn difficult(&self) -> (r: bool)
        ensures
            r == self.difficult_spec(),
    {
        self.difficult
    }

    /// The day the session was started for.
    pub fn day(&self) -> (r: u64)
        ensures
            r == self.day_spec(),
    {
        self.day
    }

    /// The seed the session was started with.
    pub fn seed(&self) -> (r: u64)
        ensures
            r == self.seed_spec(),
    {
        self.seed
    }
}

proof fn lemma_yellows_applied(
    s0: Seq<LetterState>,
    answer: Seq<char>,
    word: Seq<char>,
    states: Seq<LetterState>,
    n: int,
    k: int,
)
    requires
        s0.len() == answer.len(),
        0 <= k < s0.len(),
    ensures
        yellows_applied(s0, answer, word, states, n).len() == s0.len(),
        rank(yellows_applied(s0, answer, word, states, n)[k]) >= rank(s0[k]),
        s0[k] == LetterState::Green ==> yellows_applied(s0, answer, word, states, n)[k]
            == LetterState::Green,
        s0[k] != LetterState::Red ==> yellows_applied(s0, answer, word, states, n)[k]
            != LetterState::Red,
    decreases n,
{
    if n > 0 {
        lemma_yellows_applied(s0, answer, word, states, n - 1, k);
        let s = yellows_applied(s0, answer, word, states, n - 1);
        lemma_first_open_bound(answer, s, word[n - 1], 0);
    }
}

proof fn lemma_first_open_bound(answer: Seq<char>, answer_state: Seq<LetterState>, c: char, from: int)
    requires
        0 <= from,
    ensures
        from <= answer.len() ==> from <= first_open(answer, answer_state, c, from),
        first_open(answer, answer_state, c, from) <= answer.len(),
    decreases answer.len() - from,
{
    if from < answer.len() {
        lemma_first_open_bound(answer, answer_state, c, from + 1);
    }
}

/// Recording a guess never lowers what is known of an answer position, makes
/// every exactly matched position Green, and never makes a position Red.
pub proof fn lemma_answer_state_after(
    answer_state: Seq<LetterState>,
    answer: Seq<char>,
    word: Seq<char>,
    k: int,
)
    requires
        answer_state.len() == 5,
        answer.len() == 5,
        word.len() == 5,
        0 <= k < 5,
    ensures
        answer_state_after(answer_state, answer, word).len() == 5,
        rank(answer_state_after(answer_state, answer, word)[k]) >= rank(answer_state[k]),
        word[k] == answer[k] ==> answer_state_after(answer_state, answer, word)[k]
            == LetterState::Green,
        answer_state[k] != LetterState::Red ==> answer_state_after(answer_state, answer, word)[k]
            != LetterState::Red,
{
    let g = greens_applied(answer_state, answer, word);
    lemma_yellows_applied(g, answer, word, evaluation(answer, word), 5, k);
}

/// Merging the states of a guess into the keyboard hints never lowers the
/// hint of any letter.
pub proof fn lemma_hints_monotone(
    hints: Seq<LetterState>,
    word: Seq<char>,
    states: Seq<LetterState>,
    n: int,
    k: int,
)
    requires
        hints.len() == 26,
        0 <= k < 26,
    ensures
        hints_after(hints, word, states, n).len() == 26,
        rank(hints_after(hints, word, states, n)[k]) >= rank(hints[k]),
    decreases n,
{
    if n > 0 {
        lemma_hints_monotone(hints, word, states, n - 1, k);
        let h = hints_after(hints, word, states, n - 1);
        let c = word[n - 1];
        if is_letter(c) {
            assert(0 <= letter_slot(c) < 26);
        }
    }
}

/// Playing a guess never lowers the keyboard hint of any letter.
pub proof fn lemma_session_hints_monotone(
    before: Game,
    after: Game,
    word: Seq<char>,
    states: Seq<LetterState>,
)
    requires
        before.hints_spec().len() == 26,
        plays(before, after, word, states),
    ensures
        forall|k: int|
            0 <= k < 26 ==> rank(#[trigger] after.hints_spec()[k]) >= rank(before.hints_spec()[k]),
{
    assert forall|k: int| 0 <= k < 26 implies rank(#[trigger] after.hints_spec()[k]) >= rank(
        before.hints_spec()[k],
    ) by {
        lemma_hints_monotone(before.hints_spec(), word, states, 5, k);
    }
}

/// Across any run of submissions, accepted or refused, the keyboard hint of
/// every letter never goes down in the order Unknown < Red < Yellow < Green.
pub proof fn lemma_hints_never_drop(sessions: Seq<Game>, words: Seq<Seq<char>>, i: int, j: int)
    requires
        sessions.len() == words.len() + 1,
        forall|m: int| 0 <= m < sessions.len() ==> #[trigger] sessions[m].wf(),
        forall|m: int|
            0 <= m < words.len() ==> submission_step(
                #[trigger] sessions[m],
                sessions[m + 1],
                words[m],
            ),
        0 <= i <= j < sessions.len(),
    ensures
        forall|k: int|
            0 <= k < 26 ==> rank(#[trigger] sessions[j].hints_spec()[k]) >= rank(
                sessions[i].hints_spec()[k],
            ),
    decreases j - i,
{
    if i < j {
        lemma_hints_never_drop(sessions, words, i, j - 1);
        let before = sessions[j - 1];
        let after = sessions[j];
        assert(submission_step(before, after, words[j - 1]));
        if after != before {
            let w = words[j - 1];
            let states = evaluation(before.answer_spec(), w);
            assert forall|k: int| 0 <= k < 26 implies rank(#[trigger] after.hints_spec()[k])
                >= rank(before.hints_spec()[k]) by {
                lemma_hints_monotone(before.hints_spec(), w, states, 5, k);
            }
        }
    }
}

/// A finished session holds what it ended with: a win has the answer as its
/// last guess; a loss has exactly six guesses, none of them the answer; a
/// session in progress has fewer than six guesses, none of them the answer.
/// What is revealed of the answer never marks a position Red.
pub proof fn lemma_finished_session(g: Game)
    requires
        g.wf(),
    ensures
        g.state_spec() == GameState::Win ==> g.guesses_spec().len() >= 1 && g.guesses_spec().last()
            == g.answer_spec() && g.round_spec() == g.guesses_spec().len() + 1,
        g.state_spec() == GameState::Lose ==> g.guesses_spec().len() == 6 && g.round_spec() == 7,
        g.state_spec() == GameState::InProgress ==> g.guesses_spec().len() < 6,
        g.state_spec() != GameState::Win ==> !g.guesses_spec().contains(g.answer_spec()),
        forall|k: int| 0 <= k < 5 ==> #[trigger] g.answer_state_spec()[k] != LetterState::Red,
{
    if g.state_spec() != GameState::Win && g.guesses_spec().contains(g.answer_spec()) {
        let i = choose|i: int| 0 <= i < g.guesses_spec().len() && g.guesses_spec()[i] == g.answer_spec();
        assert(g.guesses@[i]@ == g.answer@);
    }
}

} // verus!
