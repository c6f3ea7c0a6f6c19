//! The three strategies and their fixed ordinals.

use vstd::prelude::*;

verus! {

/// What an agent plays. The ordinal of a strategy (0, 1, 2 in the order of the
/// variants) is the slot it occupies in the payoff matrix and in every
/// three-slot score vector.
#[derive(Clone, Copy, Debug, PartialEq, Eq, Structural)]
pub enum Strategy {
    Rock,
    Paper,
    Scissors,
}

impl Strategy {
    /// The ordinal of the strategy as a mathematical integer.
    pub open spec fn ordinal(self) -> int {
        match self {
            Strategy::Rock => 0,
            Strategy::Paper => 1,
            Strategy::Scissors => 2,
        }
    }

    /// The strategy with the given ordinal; `Rock` stands in outside 0..3.
    pub open spec fn of_ordinal(i: int) -> Strategy {
        if i == 1 {
            Strategy::Paper
        } else if i == 2 {
            Strategy::Scissors
        } else {
            Strategy::Rock
        }
    }

    /// The slot of this strategy in a payoff row or a score vector.
    pub fn to_index(self) -> (i: usize)
        ensures
            i == self.ordinal(),
            i < 3,
    {
        match self {
            Strategy::Rock => 0,
            Strategy::Paper => 1,
            Strategy::Scissors => 2,
        }
    }

    /// The strategy that occupies slot `i`, if there is such a slot.
    pub fn from_index(i: usize) -> (s: Option<Strategy>)
        ensures
            i < 3 ==> s == Some(Strategy::of_ordinal(i as int)),
            i >= 3 ==> s.is_none(),
    {
        if i == 0 {
            Some(Strategy::Rock)
        } else if i == 1 {
            Some(Strategy::Paper)
        } else if i == 2 {
            Some(Strategy::Scissors)
        } else {
            None
        }
    }

    /// The strategy that a random byte stands for: the one whose ordinal is the
    /// byte's remainder by three.
    pub fn from_byte(byte: u8) -> (s: Strategy)
        ensures
            s == Strategy::of_ordinal(byte as int % 3),
    {
        let slot: u8 = byte % 3;
        if slot == 0 {
            Strategy::Rock
        } else if slot == 1 {
            Strategy::Paper
        } else {
            Strategy::Scissors
        }
    }

    /// Ordinals and strategies correspond one to one.
    pub proof fn lemma_ordinal_round_trip(s: Strategy, i: int)
        ensures
            0 <= s.ordinal() < 3,
            Strategy::of_ordinal(s.ordinal()) == s,
            0 <= i < 3 ==> Strategy::of_ordinal(i).ordinal() == i,
    {
    }
}

} // verus!
