use vstd::prelude::*;
use crate::text::{chars_of, words_view};
use crate::words::contains_word;

verus! {

/// Lexicographic order on character sequences by code point, a proper
/// prefix first: the order of `String` comparison.
pub open spec fn chars_lt(a: Seq<char>, b: Seq<char>) -> bool
    decreases a.len(),
{
    if b.len() == 0 {
        false
    } else if a.len() == 0 {
        true
    } else if a[0] != b[0] {
        a[0] < b[0]
    } else {
        chars_lt(a.drop_first(), b.drop_first())
    }
}

/// No sequence comes before itself, and of two sequences at most one comes
/// before the other.
pub proof fn lemma_chars_lt_asymmetric(a: Seq<char>, b: Seq<char>)
    ensures
        chars_lt(a, b) ==> !chars_lt(b, a),
        !chars_lt(a, a),
    decreases a.len(),
{
    if a.len() > 0 && b.len() > 0 && a[0] == b[0] {
        lemma_chars_lt_asymmetric(a.drop_first(), b.drop_first());
    }
    if a.len() > 0 {
        lemma_chars_lt_asymmetric(a.drop_first(), a.drop_first());
    }
}

/// The order is transitive.
pub proof fn lemma_chars_lt_transitive(a: Seq<char>, b: Seq<char>, c: Seq<char>)
    requires
        chars_lt(a, b),
        chars_lt(b, c),
    ensures
        chars_lt(a, c),
    decreases a.len(),
{
    if a.len() > 0 && a[0] == b[0] && b[0] == c[0] {
        lemma_chars_lt_transitive(a.drop_first(), b.drop_first(), c.drop_first());
    }
}

/// Of two different sequences, one comes before the other.
pub proof fn lemma_chars_lt_total(a: Seq<char>, b: Seq<char>)
    requires
        a != b,
    ensures
        chars_lt(a, b) || chars_lt(b, a),
    decreases a.len(),
{
    if a.len() == 0 && b.len() == 0 {
        assert(a =~= b);
    } else if a.len() > 0 && b.len() > 0 && a[0] == b[0] {
        if a.drop_first() == b.drop_first() {
            assert(a =~= seq![a[0]] + a.drop_first());
            assert(b =~= seq![b[0]] + b.drop_first());
        } else {
            lemma_chars_lt_total(a.drop_first(), b.drop_first());
        }
    }
}

fn word_lt(a: &String, b: &String) -> (r: bool)
    ensures
        r == chars_lt(a@, b@),
{
    let x = chars_of(a.as_str());
    let y = chars_of(b.as_str());
    let mut i: usize = 0;
    assert(a@.skip(0) =~= a@);
    assert(b@.skip(0) =~= b@);
    while i < x.len() && i < y.len()
        invariant
            x@ == a@,
            y@ == b@,
            i <= x@.len(),
            i <= y@.len(),
            chars_lt(a@, b@) == chars_lt(a@.skip(i as int), b@.skip(i as int)),
        decreases x@.len() - i,
    {
        if x[i] != y[i] {
            return x[i] < y[i];
        }
        assert(a@.skip(i as int).drop_first() =~= a@.skip(i + 1));
        assert(b@.skip(i as int).drop_first() =~= b@.skip(i + 1));
        i = i + 1;
    }
    i < y.len()
}


/// `x` is listed before `y`: guessed more often, or as often and earlier in
/// the order of words.
pub open spec fn ranks_before(x: (Seq<char>, u64), y: (Seq<char>, u64)) -> bool {
    x.1 > y.1 || (x.1 == y.1 && chars_lt(x.0, y.0))
}

/// The words and counts of a list of entries.
pub open spec fn entries_view(v: Seq<(String, u64)>) -> Seq<(Seq<char>, u64)> {
    v.map_values(|e: (String, u64)| (e.0@, e.1))
}

/// No word has two entries.
pub open spec fn distinct_keys(e: Seq<(Seq<char>, u64)>) -> bool {
    forall|i: int, j: int| 0 <= i < j < e.len() ==> e[i].0 != e[j].0
}

/// The count that a list of entries gives a word: that of its last entry,
/// 0 without one.
pub open spec fn count_in(e: Seq<(Seq<char>, u64)>, w: Seq<char>) -> nat
    decreases e.len(),
{
    if e.len() == 0 {
        0
    } else if e.last().0 == w {
        e.last().1 as nat
    } else {
        count_in(e.drop_last(), w)
    }
}

/// How often `w` occurs in `words`.
pub open spec fn occurrences(words: Seq<Seq<char>>, w: Seq<char>) -> nat
    decreases words.len(),
{
    if words.len() == 0 {
        0
    } else {
        occurrences(words.drop_last(), w) + if words.last() == w {
            1nat
        } else {
            0nat
        }
    }
}

proof fn lemma_ranks_before_asymmetric(x: (Seq<char>, u64), y: (Seq<char>, u64))
    ensures
        ranks_before(x, y) ==> !ranks_before(y, x),
{
    lemma_chars_lt_asymmetric(x.0, y.0);
}

proof fn lemma_ranks_before_transitive(
    x: (Seq<char>, u64),
    y: (Seq<char>, u64),
    z: (Seq<char>, u64),
)
    requires
        ranks_before(x, y),
        ranks_before(y, z),
    ensures
        ranks_before(x, z),
{
    if x.1 == y.1 && y.1 == z.1 {
        lemma_chars_lt_transitive(x.0, y.0, z.0);
    }
}

proof fn lemma_ranks_before_total(x: (Seq<char>, u64), y: (Seq<char>, u64))
    requires
        x.0 != y.0,
    ensures
        ranks_before(x, y) || ranks_before(y, x),
{
    lemma_chars_lt_total(x.0, y.0);
}

proof fn lemma_count_absent(e: Seq<(Seq<char>, u64)>, w: Seq<char>)
    requires
        forall|i: int| 0 <= i < e.len() ==> e[i].0 != w,
    ensures
        count_in(e, w) == 0,
    decreases e.len(),
{
    if e.len() > 0 {
        lemma_count_absent(e.drop_last(), w);
    }
}

proof fn lemma_count_at(e: Seq<(Seq<char>, u64)>, j: int)
    requires
        distinct_keys(e),
        0 <= j < e.len(),
    ensures
        count_in(e, e[j].0) == e[j].1,
    decreases e.len(),
{
    if j < e.len() - 1 {
        lemma_count_at(e.drop_last(), j);
    }
}

proof fn lemma_count_update(e: Seq<(Seq<char>, u64)>, j: int, v: u64, w: Seq<char>)
    requires
        distinct_keys(e),
        0 <= j < e.len(),
    ensures
        count_in(e.update(j, (e[j].0, v)), w) == if w == e[j].0 {
            v as nat
        } else {
            count_in(e, w)
        },
    decreases e.len(),
{
    let f = e.update(j, (e[j].0, v));
    if j < e.len() - 1 {
        assert(f.drop_last() =~= e.drop_last().update(j, (e[j].0, v)));
        lemma_count_update(e.drop_last(), j, v, w);
    } else {
        assert(f.drop_last() =~= e.drop_last());
    }
}

fn entry_before(x: &(String, u64), y: &(String, u64)) -> (r: bool)
    ensures
        r == ranks_before((x.0@, x.1), (y.0@, y.1)),
{
    x.1 > y.1 || (x.1 == y.1 && word_lt(&x.0, &y.0))
}

/// Adds one to the count of `w`, or gives it an entry with count 1.
fn bump(counts: &mut Vec<(String, u64)>, w: &String, cap: u64)
    requires
        cap >= 1,
        distinct_keys(entries_view(old(counts)@)),
        forall|i: int| 0 <= i < old(counts)@.len() ==> #[trigger] old(counts)@[i].1 < cap,
    ensures
        distinct_keys(entries_view(final(counts)@)),
        forall|i: int| 0 <= i < final(counts)@.len() ==> #[trigger] final(counts)@[i].1 <= cap,
        forall|u: Seq<char>|
            #[trigger] count_in(entries_view(final(counts)@), u) == count_in(
                entries_view(old(counts)@),
                u,
            ) + if u == w@ {
                1nat
            } else {
                0nat
            },
{
    let ghost e = entries_view(counts@);
    let ghost c0 = counts@;
    let mut j: usize = 0;
    while j < counts.len()
        invariant
            e == entries_view(counts@),
            counts@ == c0,
            c0 == old(counts)@,
            distinct_keys(e),
            cap >= 1,
            forall|i: int| 0 <= i < c0.len() ==> #[trigger] c0[i].1 < cap,
            j <= counts@.len(),
            forall|q: int| 0 <= q < j ==> counts@[q].0@ != w@,
        decreases counts@.len() - j,
    {
        if counts[j].0 == *w {
            assert(e[j as int].0 == w@ && e[j as int].1 == counts@[j as int].1);
            let v = counts[j].1 + 1;
            let key = counts[j].0.clone();
            counts[j] = (key, v);
            proof {
                assert(entries_view(counts@) =~= e.update(j as int, (e[j as int].0, v)));
                lemma_count_at(e, j as int);
                assert forall|u: Seq<char>| #[trigger]
                    count_in(entries_view(counts@), u) == count_in(e, u) + if u == w@ {
                        1nat
                    } else {
                        0nat
                    } by {
                    lemma_count_update(e, j as int, v, u);
                }
            }
            return;
        }
        j = j + 1;
    }
    counts.push((w.clone(), 1));
    proof {
        let f = entries_view(counts@);
        assert(f =~= e.push((w@, 1u64)));
        assert(f.drop_last() =~= e);
        lemma_count_absent(e, w@);
    }
}

/// Results of the sessions played: wins, sessions, the guesses used in won
/// sessions, and how often each word was guessed.
pub struct Stats {
    wins: u64,
    total: u64,
    win_rounds: u64,
    guess_total: u64,
    counts: Vec<(String, u64)>,
}

impl Stats {
    pub closed spec fn wins_spec(&self) -> nat {
        self.wins as nat
    }

    pub closed spec fn total_spec(&self) -> nat {
        self.total as nat
    }

    pub closed spec fn win_rounds_spec(&self) -> nat {
        self.win_rounds as nat
    }

    pub closed spec fn guess_total_spec(&self) -> nat {
        self.guess_total as nat
    }

    pub closed spec fn entries_spec(&self) -> Seq<(Seq<char>, u64)> {
        entries_view(self.counts@)
    }

    /// No more wins than sessions, no count above the number of guesses,
    /// and one entry per word.
    pub closed spec fn wf(&self) -> bool {
        &&& self.wins <= self.total
        &&& self.win_rounds <= self.guess_total
        &&& distinct_keys(entries_view(self.counts@))
        &&& forall|i: int| 0 <= i < self.counts@.len() ==> #[trigger] self.counts@[i].1 <= self.guess_total
    }

    /// No sessions yet.
    pub fn new() -> (r: Stats)
        ensures
            r.wf(),
            r.wins_spec() == 0,
            r.total_spec() == 0,
            r.win_rounds_spec() == 0,
            r.guess_total_spec() == 0,
            r.entries_spec() == Seq::<(Seq<char>, u64)>::empty(),
            forall|w: Seq<char>| #[trigger] count_in(r.entries_spec(), w) == 0,
    {
        let r = Stats { wins: 0, total: 0, win_rounds: 0, guess_total: 0, counts: Vec::new() };
        proof {
            assert(r.entries_spec() =~= Seq::<(Seq<char>, u64)>::empty());
        }
        r
    }

    /// Records a finished session: it is won when its guesses hold the
    /// answer, and then its guesses count as the rounds it took; every guess
    /// adds one to the count of its word.
    pub fn record(&mut self, answer: &String, guesses: &Vec<String>)
        requires
            old(self).wf(),
            old(self).total_spec() < u64::MAX,
            old(self).guess_total_spec() + guesses@.len() <= u64::MAX,
        ensures
            final(self).wf(),
            final(self).total_spec() == old(self).total_spec() + 1,
            final(self).guess_total_spec() == old(self).guess_total_spec() + guesses@.len(),
            words_view(guesses@).contains(answer@) ==> final(self).wins_spec() == old(
                self,
            ).wins_spec() + 1 && final(self).win_rounds_spec() == old(self).win_rounds_spec()
                + guesses@.len(),
            !words_view(guesses@).contains(answer@) ==> final(self).wins_spec() == old(
                self,
            ).wins_spec() && final(self).win_rounds_spec() == old(self).win_rounds_spec(),
            forall|w: Seq<char>|
                #[trigger] count_in(final(self).entries_spec(), w) == count_in(
                    old(self).entries_spec(),
                    w,
                ) + occurrences(words_view(guesses@), w),
    {
        let ghost e0 = entries_view(self.counts@);
        let ghost ws = words_view(guesses@);
        let mut i: usize = 0;
        while i < guesses.len()
            invariant
                ws == words_view(guesses@),
                i <= guesses@.len(),
                self.wins == old(self).wins,
                self.total == old(self).total,
                self.win_rounds == old(self).win_rounds,
                self.guess_total == old(self).guess_total,
                old(self).guess_total + guesses@.len() <= u64::MAX,
                distinct_keys(entries_view(self.counts@)),
                forall|q: int|
                    0 <= q < self.counts@.len() ==> #[trigger] self.counts@[q].1 <= self.guess_total
                        + i,
                forall|w: Seq<char>|
                    #[trigger] count_in(entries_view(self.counts@), w) == count_in(e0, w)
                        + occurrences(ws.subrange(0, i as int), w),
            decreases guesses@.len() - i,
        {
            let ghost before = entries_view(self.counts@);
            bump(&mut self.counts, &guesses[i], self.guess_total + i as u64 + 1);
            proof {
                assert(ws.subrange(0, i + 1).drop_last() =~= ws.subrange(0, i as int));
                assert forall|w: Seq<char>| #[trigger]
                    count_in(entries_view(self.counts@), w) == count_in(e0, w) + occurrences(
                        ws.subrange(0, i + 1),
                        w,
                    ) by {
                    assert(count_in(before, w) == count_in(e0, w) + occurrences(
                        ws.subrange(0, i as int),
                        w,
                    ));
                }
            }
            i = i + 1;
        }
        proof {
            assert(ws.subrange(0, guesses@.len() as int) =~= ws);
        }
        self.guess_total = self.guess_total + guesses.len() as u64;
        self.total = self.total + 1;
        if contains_word(guesses, answer) {
            self.wins = self.wins + 1;
            self.win_rounds = self.win_rounds + guesses.len() as u64;
        }
    }

    /// Sessions won.
    pub fn wins(&self) -> (r: u64)
        ensures
            r == self.wins_spec(),
    {
        self.wins
    }

    /// Sessions lost.
    pub fn losses(&self) -> (r: u64)
        requires
            self.wf(),
        ensures
            r == self.total_spec() - self.wins_spec(),
    {
        self.total - self.wins
    }

    /// Sessions recorded.
    pub fn total(&self) -> (r: u64)
        ensures
            r == self.total_spec(),
    {
        self.total
    }

    /// Guesses used in the sessions won, all together.
    pub fn win_rounds(&self) -> (r: u64)
        ensures
            r == self.win_rounds_spec(),
    {
        self.win_rounds
    }

    /// Guesses recorded, all together.
    pub fn guess_total(&self) -> (r: u64)
        ensures
            r == self.guess_total_spec(),
    {
        self.guess_total
    }

    /// How often `w` was guessed.
    pub fn count_of(&self, w: &String) -> (r: u64)
        requires
            self.wf(),
        ensures
            r == count_in(self.entries_spec(), w@),
    {
        let ghost e = entries_view(self.counts@);
        let mut j: usize = 0;
        while j < self.counts.len()
            invariant
                e == entries_view(self.counts@),
                distinct_keys(e),
                j <= self.counts@.len(),
                forall|q: int| 0 <= q < j ==> self.counts@[q].0@ != w@,
            decreases self.counts@.len() - j,
        {
            if self.counts[j].0 == *w {
                proof {
                    lemma_count_at(e, j as int);
                }
                return self.counts[j].1;
            }
            j = j + 1;
        }
        proof {
            lemma_count_absent(e, w@);
        }
        0
    }

    /// The `k` words guessed most often with their counts, most often first;
    /// words guessed equally often in the order of words.
    pub fn top_words(&self, k: usize) -> (r: Vec<(String, u64)>)
        requires
            self.wf(),
        ensures
            entries_view(r@).len() == if k < self.entries_spec().len() {
                k as int
            } else {
                self.entries_spec().len() as int
            },
            forall|i: int|
                0 <= i < r@.len() ==> self.entries_spec().contains(#[trigger] entries_view(r@)[i]),
            forall|i: int, j: int|
                0 <= i < j < r@.len() ==> ranks_before(
                    #[trigger] entries_view(r@)[i],
                    #[trigger] entries_view(r@)[j],
                ),
            forall|x: (Seq<char>, u64)|
                #![trigger self.entries_spec().contains(x)]
                self.entries_spec().contains(x) && !entries_view(r@).contains(x) ==> forall|i: int|
                    0 <= i < r@.len() ==> ranks_before(#[trigger] entries_view(r@)[i], x),
    {
        let ghost e = entries_view(self.counts@);
        let n = self.counts.len();
        let m = if k < n {
            k
        } else {
            n
        };
        let mut rest: Vec<(String, u64)> = Vec::new();
        let mut j: usize = 0;
        while j < n
            invariant
                n == self.counts@.len(),
                j <= n,
                rest@ == self.counts@.subrange(0, j as int),
            decreases n - j,
        {
            let key = self.counts[j].0.clone();
            rest.push((key, self.counts[j].1));
            assert(rest@ =~= self.counts@.subrange(0, j + 1));
            j = j + 1;
        }
        assert(rest@ =~= self.counts@);
        let mut r: Vec<(String, u64)> = Vec::new();
        while r.len() < m
            invariant
                e == entries_view(self.counts@),
                m <= n == e.len(),
                r@.len() <= m,
                r@.len() + rest@.len() == n,
                distinct_keys(entries_view(rest@)),
                forall|i: int| 0 <= i < r@.len() ==> e.contains(#[trigger] entries_view(r@)[i]),
                forall|q: int|
                    0 <= q < rest@.len() ==> e.contains(#[trigger] entries_view(rest@)[q]),
                forall|x: (Seq<char>, u64)|
                    #![trigger e.contains(x)]
                    e.contains(x) ==> entries_view(r@).contains(x) || entries_view(
                        rest@,
                    ).contains(x),
                forall|i: int, j: int|
                    0 <= i < j < r@.len() ==> ranks_before(
                        #[trigger] entries_view(r@)[i],
                        #[trigger] entries_view(r@)[j],
                    ),
                forall|i: int, q: int|
                    0 <= i < r@.len() && 0 <= q < rest@.len() ==> ranks_before(
                        #[trigger] entries_view(r@)[i],
                        #[trigger] entries_view(rest@)[q],
                    ),
            decreases m - r@.len(),
        {
            let ghost rv = entries_view(rest@);
            let mut p: usize = 0;
            let mut q: usize = 1;
            while q < rest.len()
                invariant
                    rv == entries_view(rest@),
                    distinct_keys(rv),
                    rest@.len() > 0,
                    p < q <= rest@.len(),
                    forall|t: int| 0 <= t < q && t != p ==> ranks_before(rv[p as int], #[trigger] rv[t]),
                decreases rest@.len() - q,
            {
                if entry_before(&rest[q], &rest[p]) {
                    proof {
                        assert forall|t: int| 0 <= t < q + 1 && t != q implies ranks_before(
                            rv[q as int],
                            #[trigger] rv[t],
                        ) by {
                            if t != p {
                                lemma_ranks_before_transitive(rv[q as int], rv[p as int], rv[t]);
                            }
                        }
                    }
                    p = q;
                } else {
                    proof {
                        lemma_ranks_before_total(rv[p as int], rv[q as int]);
                    }
                }
                q = q + 1;
            }
            let ghost rv0 = entries_view(r@);
            let b = rest.remove(p);
            r.push(b);
            proof {
                let bv = rv[p as int];
                assert(entries_view(rest@) =~= rv.remove(p as int));
                assert(entries_view(r@) =~= rv0.push(bv));
                assert forall|x: (Seq<char>, u64)| #![trigger e.contains(x)]
                    e.contains(x) implies entries_view(r@).contains(x) || entries_view(rest@).contains(x) by {
                    if rv0.contains(x) {
                        let i = choose|i: int| 0 <= i < rv0.len() && rv0[i] == x;
                        assert(entries_view(r@)[i] == x);
                    } else if x == bv {
                        assert(entries_view(r@)[rv0.len() as int] == x);
                    } else {
                        assert(rv.contains(x));
                        let t = choose|t: int| 0 <= t < rv.len() && rv[t] == x;
                        if t < p {
                            assert(entries_view(rest@)[t] == x);
                        } else {
                            assert(t != p);
                            assert(entries_view(rest@)[t - 1] == x);
                        }
                    }
                }
                assert forall|i: int, q: int|
                    0 <= i < r@.len() && 0 <= q < rest@.len() implies ranks_before(
                    #[trigger] entries_view(r@)[i],
                    #[trigger] entries_view(rest@)[q],
                ) by {
                    let t = if q < p {
                        q
                    } else {
                        q + 1
                    };
                    assert(entries_view(rest@)[q] == rv[t]);
                    if i < rv0.len() {
                        assert(entries_view(r@)[i] == rv0[i]);
                    }
                }
                assert forall|q: int| 0 <= q < rest@.len() implies e.contains(
                    #[trigger] entries_view(rest@)[q],
                ) by {
                    let t = if q < p {
                        q
                    } else {
                        q + 1
                    };
                    assert(entries_view(rest@)[q] == rv[t]);
                }
                assert forall|i: int, j: int|
                    0 <= i < j < r@.len() implies ranks_before(
                    #[trigger] entries_view(r@)[i],
                    #[trigger] entries_view(r@)[j],
                ) by {
                    if j < rv0.len() {
                        assert(entries_view(r@)[i] == rv0[i]);
                        assert(entries_view(r@)[j] == rv0[j]);
                    } else {
                        assert(entries_view(r@)[i] == rv0[i]);
                    }
                }
                assert forall|a: int, c: int|
                    0 <= a < c < entries_view(rest@).len() implies entries_view(rest@)[a].0
                    != entries_view(rest@)[c].0 by {
                    let ta = if a < p {
                        a
                    } else {
                        a + 1
                    };
                    let tc = if c < p {
                        c
                    } else {
                        c + 1
                    };
                    assert(entries_view(rest@)[a] == rv[ta]);
                    assert(entries_view(rest@)[c] == rv[tc]);
                }
            }
        }
        proof {
            assert forall|x: (Seq<char>, u64)| #![trigger e.contains(x)]
                e.contains(x) && !entries_view(r@).contains(x) implies forall|i: int|
                0 <= i < r@.len() ==> ranks_before(#[trigger] entries_view(r@)[i], x) by {
                let t = choose|t: int| 0 <= t < rest@.len() && entries_view(rest@)[t] == x;
                assert forall|i: int| 0 <= i < r@.len() implies ranks_before(
                    #[trigger] entries_view(r@)[i],
                    x,
                ) by {
                    assert(ranks_before(entries_view(r@)[i], entries_view(rest@)[t]));
                }
            }
        }
        r
    }
}

} // verus!
