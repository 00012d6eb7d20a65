use vstd::prelude::*;

verus! {

/// What a guessed letter reveals about the answer.
#[derive(Clone, Copy, Debug, PartialEq, Eq, Structural)]
pub enum LetterState {
    Green,
    Red,
    Yellow,
    Unknown,
}

/// Position of a state in the order Unknown < Red < Yellow < Green.
pub open spec fn rank(s: LetterState) -> nat {
    match s {
        LetterState::Unknown => 0,
        LetterState::Red => 1,
        LetterState::Yellow => 2,
        LetterState::Green => 3,
    }
}

/// The better-informed of two states: the one of higher rank.
pub open spec fn merged(current: LetterState, observed: LetterState) -> LetterState {
    if rank(observed) > rank(current) {
        observed
    } else {
        current
    }
}

impl LetterState {
    /// The one-letter code of a state: `G`, `R`, `Y`, or `X` for unknown.
    pub open spec fn code(self) -> char {
        match self {
            LetterState::Green => 'G',
            LetterState::Red => 'R',
            LetterState::Yellow => 'Y',
            LetterState::Unknown => 'X',
        }
    }

    pub fn to_state(&self) -> (r: char)
        ensures
            r == self.code(),
    {
        match self {
            LetterState::Green => 'G',
            LetterState::Red => 'R',
            LetterState::Yellow => 'Y',
            LetterState::Unknown => 'X',
        }
    }

    fn rank_of(&self) -> (r: u8)
        ensures
            r as nat == rank(*self),
    {
        match self {
            LetterState::Unknown => 0,
            LetterState::Red => 1,
            LetterState::Yellow => 2,
            LetterState::Green => 3,
        }
    }
}

/// Combines a known state with a newly observed one; a state only moves up.
pub fn merge(current: LetterState, observed: LetterState) -> (r: LetterState)
    ensures
        r == merged(current, observed),
        rank(r) >= rank(current),
        rank(r) >= rank(observed),
{
    if observed.rank_of() > current.rank_of() {
        observed
    } else {
        current
    }
}

/// Merging a state with itself leaves it as it is.
pub proof fn lemma_merge_idempotent(s: LetterState)
    ensures
        merged(s, s) == s,
{
}

/// The order of the two arguments of a merge does not matter.
pub proof fn lemma_merge_commutative(s: LetterState, t: LetterState)
    ensures
        merged(s, t) == merged(t, s),
{
}

/// Green absorbs every other state, on either side.
pub proof fn lemma_merge_green_absorbs(s: LetterState)
    ensures
        merged(LetterState::Green, s) == LetterState::Green,
        merged(s, LetterState::Green) == LetterState::Green,
{
}

} // verus!
