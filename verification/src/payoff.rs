//! The pairwise game: who beats whom, and what each side gains.

use vstd::prelude::*;
use crate::strategy::Strategy;

verus! {

/// The gain of the row strategy against the column strategy, both by ordinal.
pub const PAYOFF_MATRIX: [[i32; 3]; 3] = [[1, 0, 2], [2, 1, 0], [0, 2, 1]];

/// Rock blunts scissors, paper wraps rock, scissors cut paper.
pub open spec fn beats(a: Strategy, b: Strategy) -> bool {
    ||| a == Strategy::Rock && b == Strategy::Scissors
    ||| a == Strategy::Paper && b == Strategy::Rock
    ||| a == Strategy::Scissors && b == Strategy::Paper
}

/// What `a` gains from one game against `b`: 2 for a win, 1 for a tie, 0 for
/// a loss. Each side's gain is looked up on its own, and the game is not
/// zero-sum: the two gains of a game add up to 2.
pub open spec fn payoff(a: Strategy, b: Strategy) -> int {
    if a == b {
        1
    } else if beats(a, b) {
        2
    } else {
        0
    }
}

/// The outcome of one game: what the first agent gains, then what the second.
pub open spec fn game(a: Strategy, b: Strategy) -> (int, int) {
    (payoff(a, b), payoff(b, a))
}

/// Plays one game and returns the gains of the first and of the second agent.
pub fn play_game(agent_1_strategy: Strategy, agent_2_strategy: Strategy) -> (gains: (i32, i32))
    ensures
        (gains.0 as int, gains.1 as int) == game(agent_1_strategy, agent_2_strategy),
{
    let first = agent_1_strategy.to_index();
    let second = agent_2_strategy.to_index();
    let agent_1_payoff = PAYOFF_MATRIX[first][second];
    let agent_2_payoff = PAYOFF_MATRIX[second][first];
    (agent_1_payoff, agent_2_payoff)
}

/// The matrix holds the payoff of every pair of strategies, row against
/// column.
pub proof fn lemma_matrix_holds_payoffs(a: Strategy, b: Strategy)
    ensures
        PAYOFF_MATRIX[a.ordinal()][b.ordinal()] == payoff(a, b),
{
}

/// Of two strategies either they are the same or exactly one beats the other.
/// The winner of a game gains 2 and the loser nothing; a tie pays 1 to each.
pub proof fn lemma_game_outcomes(a: Strategy, b: Strategy)
    ensures
        a == b ==> !beats(a, b) && !beats(b, a) && game(a, b) == (1int, 1int),
        a != b ==> (beats(a, b) <==> !beats(b, a)),
        beats(a, b) ==> game(a, b) == (2int, 0int),
        beats(b, a) ==> game(a, b) == (0int, 2int),
        game(a, b).0 + game(a, b).1 == 2,
{
}

/// Changing seats swaps the gains: the game of `b` against `a` is the game of
/// `a` against `b` read backwards.
pub proof fn lemma_game_mirrored(a: Strategy, b: Strategy)
    ensures
        game(a, b) == (game(b, a).1, game(b, a).0),
{
}

} // verus!
