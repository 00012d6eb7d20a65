use vstd::prelude::*;
use vstd::utf8::encode_utf8;
use rand::rngs::StdRng;
use rand::seq::SliceRandom;
use rand::SeedableRng;
use crate::corpus::{acceptable_corpus, acceptable_words, final_corpus, final_words};
use crate::text::{lines_of, lowercase_of, split_lines, to_lower, words_view};

verus! {

/// Why a replacement word list was refused.
#[derive(Clone, Copy, Debug, PartialEq, Eq, Structural)]
pub enum Error {
    SourceUnavailable,
    DuplicateWord,
    OutOfCorpus,
}

/// The word bank of a session: the words that may be the answer, and the
/// words accepted as guesses.
#[allow(non_snake_case)]
pub struct Words {
    pub FINAL: Vec<String>,
    pub ACCEPTABLE: Vec<String>,
}

/// The order in which `StdRng` seeded with `seed` shuffles a list.
pub uninterp spec fn seeded_shuffle(seed: u64, words: Seq<Seq<char>>) -> Seq<Seq<char>>;

/// Relies on rand's `StdRng::seed_from_u64` and `SliceRandom::shuffle`: a
/// generator made from the seed alone, and a Fisher-Yates shuffle that only
/// swaps elements, so the result is a permutation fixed by seed and list.
#[verifier::external_body]
fn shuffle_with_seed(seed: u64, words: &Vec<String>) -> (r: Vec<String>)
    ensures
        words_view(r@) == seeded_shuffle(seed, words_view(words@)),
        words_view(r@).to_multiset() == words_view(words@).to_multiset(),
{
    let mut rng = StdRng::seed_from_u64(seed);
    let mut r = words.clone();
    r.shuffle(&mut rng);
    r
}

/// Lexicographic order on byte strings, a prefix first.
pub open spec fn bytes_le(a: Seq<u8>, b: Seq<u8>) -> bool
    decreases a.len(),
{
    if a.len() == 0 {
        true
    } else if b.len() == 0 {
        false
    } else if a[0] != b[0] {
        a[0] < b[0]
    } else {
        bytes_le(a.drop_first(), b.drop_first())
    }
}

/// The words stand in ascending order of their UTF-8 bytes, as `String`
/// orders them.
pub open spec fn sorted_words(v: Seq<Seq<char>>) -> bool {
    forall|i: int, j: int|
        0 <= i < j < v.len() ==> bytes_le(#[trigger] encode_utf8(v[i]), #[trigger] encode_utf8(v[j]))
}

/// Relies on `slice::sort`: it permutes the strings into ascending order,
/// and `String` orders lexicographically by bytes.
#[verifier::external_body]
fn sort_words(v: &mut Vec<String>)
    ensures
        words_view(final(v)@).to_multiset() == words_view(old(v)@).to_multiset(),
        sorted_words(words_view(final(v)@)),
{
    v.sort();
}

/// Some word occurs twice.
pub open spec fn has_duplicate(v: Seq<Seq<char>>) -> bool {
    exists|i: int, j: int| 0 <= i < j < v.len() && v[i] == v[j]
}

/// Every word of `v` is in `corpus`.
pub open spec fn all_within(v: Seq<Seq<char>>, corpus: Seq<Seq<char>>) -> bool {
    forall|i: int| 0 <= i < v.len() ==> corpus.contains(#[trigger] v[i])
}

/// The lines of a text, each in lowercase.
pub open spec fn lowered_lines(text: Seq<char>) -> Seq<Seq<char>> {
    lines_of(text).map_values(|l: Seq<char>| lowercase_of(l))
}

/// The characters of a text that could be read, or nothing.
pub open spec fn source_view(source: Option<&str>) -> Option<Seq<char>> {
    match source {
        Some(t) => Some(t@),
        None => None,
    }
}

/// The outcome of loading a word list from `source` against `corpus`.
pub open spec fn load_outcome(source: Option<Seq<char>>, corpus: Seq<Seq<char>>) -> Result<(), Error> {
    match source {
        None => Err(Error::SourceUnavailable),
        Some(t) => if has_duplicate(lowered_lines(t)) {
            Err(Error::DuplicateWord)
        } else if !all_within(lowered_lines(t), corpus) {
            Err(Error::OutOfCorpus)
        } else {
            Ok(())
        },
    }
}

/// The answer of day `day` (counted from 1): that place of the answer list
/// shuffled with `seed`.
pub open spec fn daily_answer(final_list: Seq<Seq<char>>, seed: u64, day: u64) -> Seq<char> {
    seeded_shuffle(seed, final_list)[day - 1]
}

pub(crate) fn contains_word(list: &Vec<String>, w: &String) -> (r: bool)
    ensures
        r == words_view(list@).contains(w@),
{
    let mut i: usize = 0;
    while i < list.len()
        invariant
            i <= list@.len(),
            forall|k: int| 0 <= k < i ==> list@[k]@ != w@,
        decreases list@.len() - i,
    {
        if list[i] == *w {
            assert(words_view(list@)[i as int] == w@);
            return true;
        }
        i = i + 1;
    }
    assert forall|k: int| 0 <= k < words_view(list@).len() implies words_view(list@)[k] != w@ by {}
    false
}

fn find_duplicate(v: &Vec<String>) -> (r: bool)
    ensures
        r == has_duplicate(words_view(v@)),
{
    let ghost wv = words_view(v@);
    let mut j: usize = 0;
    while j < v.len()
        invariant
            wv == words_view(v@),
            j <= v@.len(),
            forall|a: int, b: int| 0 <= a < b < j ==> wv[a] != wv[b],
        decreases v@.len() - j,
    {
        let mut i: usize = 0;
        while i < j
            invariant
                wv == words_view(v@),
                i <= j < v@.len(),
                forall|a: int| 0 <= a < i ==> wv[a] != wv[j as int],
            decreases j - i,
        {
            if v[i] == v[j] {
                assert(wv[i as int] == wv[j as int]);
                return true;
            }
            i = i + 1;
        }
        j = j + 1;
    }
    false
}

fn all_in(v: &Vec<String>, corpus: &Vec<String>) -> (r: bool)
    ensures
        r == all_within(words_view(v@), words_view(corpus@)),
{
    let mut i: usize = 0;
    while i < v.len()
        invariant
            i <= v@.len(),
            forall|k: int| 0 <= k < i ==> words_view(corpus@).contains(#[trigger] words_view(v@)[k]),
        decreases v@.len() - i,
    {
        if !contains_word(corpus, &v[i]) {
            assert(!words_view(corpus@).contains(words_view(v@)[i as int]));
            return false;
        }
        i = i + 1;
    }
    true
}

/// Reads a word list: one word per line, lowercased, no word twice, every
/// word in `corpus`; on success, the words in ascending order.
fn load_list(source: Option<&str>, corpus: &Vec<String>) -> (r: Result<Vec<String>, Error>)
    ensures
        match r {
            Ok(_) => load_outcome(source_view(source), words_view(corpus@)) == Ok::<(), Error>(()),
            Err(e) => load_outcome(source_view(source), words_view(corpus@)) == Err::<(), Error>(e),
        },
        r is Ok ==> words_view(r->Ok_0@).to_multiset() == lowered_lines(
            source.unwrap()@,
        ).to_multiset() && sorted_words(words_view(r->Ok_0@)),
{
    let text = match source {
        Some(t) => t,
        None => {
            return Err(Error::SourceUnavailable);
        },
    };
    let lines = split_lines(text);
    let mut lowered: Vec<String> = Vec::new();
    let mut i: usize = 0;
    while i < lines.len()
        invariant
            words_view(lines@) == lines_of(text@),
            i <= lines@.len(),
            words_view(lowered@) == lowered_lines(text@).subrange(0, i as int),
        decreases lines@.len() - i,
    {
        let w = to_lower(lines[i].as_str());
        let ghost before = lowered@;
        lowered.push(w);
        assert(words_view(lowered@) =~= words_view(before).push(w@));
        assert(words_view(lowered@) =~= lowered_lines(text@).subrange(0, i + 1));
        i = i + 1;
    }
    assert(words_view(lowered@) =~= lowered_lines(text@));
    if find_duplicate(&lowered) {
        return Err(Error::DuplicateWord);
    }
    if !all_in(&lowered, corpus) {
        return Err(Error::OutOfCorpus);
    }
    sort_words(&mut lowered);
    Ok(lowered)
}

#[allow(non_snake_case)]
impl Words {
    /// A word bank holding the built-in lists.
    pub fn new() -> (r: Words)
        ensures
            words_view(r.FINAL@) == final_corpus(),
            words_view(r.ACCEPTABLE@) == acceptable_corpus(),
    {
        Words { FINAL: final_words(), ACCEPTABLE: acceptable_words() }
    }

    /// Replaces the answer list by the words of `source`, one per line,
    /// lowercased. `None` stands for a source that could not be read. The
    /// list is refused when a word repeats, or when a word is outside the
    /// built-in answer corpus; the bank is then left as it was. On success
    /// the new list is sorted.
    pub fn FINAL_set(&mut self, source: Option<&str>) -> (r: Result<(), Error>)
        ensures
            r == load_outcome(source_view(source), final_corpus()),
            r is Ok ==> words_view(final(self).FINAL@).to_multiset() == lowered_lines(
                source.unwrap()@,
            ).to_multiset() && sorted_words(words_view(final(self).FINAL@)) && final(self).ACCEPTABLE
                == old(self).ACCEPTABLE,
            r is Err ==> *final(self) == *old(self),
    {
        let corpus = final_words();
        match load_list(source, &corpus) {
            Ok(v) => {
                self.FINAL = v;
                Ok(())
            },
            Err(e) => Err(e),
        }
    }

    /// Replaces the guess list by the words of `source`, with the same rules
    /// as `FINAL_set`, against the built-in guess corpus.
    pub fn ACCEPTABLE_set(&mut self, source: Option<&str>) -> (r: Result<(), Error>)
        ensures
            r == load_outcome(source_view(source), acceptable_corpus()),
            r is Ok ==> words_view(final(self).ACCEPTABLE@).to_multiset() == lowered_lines(
                source.unwrap()@,
            ).to_multiset() && sorted_words(words_view(final(self).ACCEPTABLE@))
                && final(self).FINAL == old(self).FINAL,
            r is Err ==> *final(self) == *old(self),
    {
        let corpus = acceptable_words();
        match load_list(source, &corpus) {
            Ok(v) => {
                self.ACCEPTABLE = v;
                Ok(())
            },
            Err(e) => Err(e),
        }
    }

    /// Shuffles the answer list in place with a generator seeded by `seed`.
    pub fn FINAL_RAND(&mut self, seed: u64)
        ensures
            words_view(final(self).FINAL@) == seeded_shuffle(seed, words_view(old(self).FINAL@)),
            words_view(final(self).FINAL@).to_multiset() == words_view(
                old(self).FINAL@,
            ).to_multiset(),
            final(self).ACCEPTABLE == old(self).ACCEPTABLE,
    {
        self.FINAL = shuffle_with_seed(seed, &self.FINAL);
    }

    /// The answer of day `day` (from 1) under `seed`: the list is shuffled
    /// afresh from its present order on every call, and is not changed.
    pub fn pick_daily_answer(&self, seed: u64, day: u64) -> (r: String)
        requires
            1 <= day <= self.FINAL@.len(),
        ensures
            r@ == daily_answer(words_view(self.FINAL@), seed, day),
            words_view(self.FINAL@).contains(r@),
    {
        let shuffled = shuffle_with_seed(seed, &self.FINAL);
        let ghost s = words_view(shuffled@);
        let ghost f = words_view(self.FINAL@);
        proof {
            s.to_multiset_ensures();
            f.to_multiset_ensures();
            assert(s.len() == f.len());
        }
        let k = (day - 1) as usize;
        let r = shuffled[k].clone();
        proof {
            assert(s[k as int] == r@);
            assert(s.contains(r@));
            assert(s.to_multiset().count(r@) > 0);
        }
        r
    }

    /// Whether `word`, in lowercase, is an accepted guess.
    pub fn is_acceptable(&self, word: &str) -> (r: bool)
        ensures
            r == words_view(self.ACCEPTABLE@).contains(lowercase_of(word@)),
    {
        let w = to_lower(word);
        contains_word(&self.ACCEPTABLE, &w)
    }

    /// Whether `word`, in lowercase, may be the answer.
    pub fn is_valid_answer(&self, word: &str) -> (r: bool)
        ensures
            r == words_view(self.FINAL@).contains(lowercase_of(word@)),
    {
        let w = to_lower(word);
        contains_word(&self.FINAL, &w)
    }

    /// Whether `word`, taken as it is, is an accepted guess.
    pub fn accepts(&self, word: &String) -> (r: bool)
        ensures
            r == words_view(self.ACCEPTABLE@).contains(word@),
    {
        contains_word(&self.ACCEPTABLE, word)
    }

    /// Whether `word`, taken as it is, may be the answer.
    pub fn has_answer(&self, word: &String) -> (r: bool)
        ensures
            r == words_view(self.FINAL@).contains(word@),
    {
        contains_word(&self.FINAL, word)
    }
}

/// The daily answer depends on the seed, the day and the content of the
/// answer list alone: two banks with the same answer list give the same word.
pub proof fn lemma_daily_answer_deterministic(a: Words, b: Words, seed: u64, day: u64)
    requires
        words_view(a.FINAL@) == words_view(b.FINAL@),
        1 <= day <= a.FINAL@.len(),
    ensures
        daily_answer(words_view(a.FINAL@), seed, day) == daily_answer(
            words_view(b.FINAL@),
            seed,
            day,
        ),
{
}

} // verus!
