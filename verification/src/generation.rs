//! One generation: a tournament pass, then the update pass.

use vstd::prelude::*;
use crate::local_scores::{local_scores_fit, local_scores_in_range};
use crate::network::Network;
use crate::strategy::Strategy;
use crate::tournament::{play_tournament, scores_after, tournament_fits, tournament_in_range};
use crate::update::{answers_every_draw, is_update_under_some_draws, update_strategies};

verus! {

/// Why a generation was not run.
#[derive(Clone, Copy, Debug, PartialEq, Eq, Structural)]
pub enum GenerationError {
    /// There is not exactly one strategy and one score for each vertex.
    LengthMismatch,
    /// The tournament would take a score out of the range of `i32`.
    ScoreOverflow,
    /// After the tournament a slot of a local score vector would not fit in an
    /// `i32`.
    LocalScoreOverflow,
}

/// Runs one generation: every edge plays its game and the gains are added to
/// the scores; then every vertex chooses its next strategy from the strategies
/// as they were and the scores as they have become. Where the generation
/// cannot be run whole, nothing is changed. `select` has to accept every draw
/// below `DRAW_SCALE` with every local score vector that the update pass will
/// show it; a rule without a precondition does.
pub fn run_generation<F: Fn(u32, &[i32; 3]) -> Strategy>(
    strategies: &mut Vec<Strategy>,
    scores: &mut Vec<i32>,
    network: &Network,
    select: F,
) -> (outcome: Result<(), GenerationError>)
    requires
        network.wf(),
        tournament_in_range(old(strategies)@, old(scores)@, network@) ==> answers_every_draw(
            select,
            old(strategies)@,
            scores_after(old(strategies)@, old(scores)@, network@.edges),
            network@,
        ),
    ensures
        match outcome {
            Ok(_) => {
                &&& tournament_in_range(old(strategies)@, old(scores)@, network@)
                &&& final(scores)@ == scores_after(
                    old(strategies)@,
                    old(scores)@,
                    network@.edges,
                )
                &&& local_scores_in_range(old(strategies)@, final(scores)@, network@)
                &&& is_update_under_some_draws(
                    select,
                    old(strategies)@,
                    final(scores)@,
                    network@,
                    final(strategies)@,
                )
            },
            Err(GenerationError::LengthMismatch) => {
                &&& old(strategies)@.len() != network@.vertex_count || old(scores)@.len()
                    != network@.vertex_count
                &&& final(strategies)@ == old(strategies)@
                &&& final(scores)@ == old(scores)@
            },
            Err(GenerationError::ScoreOverflow) => {
                &&& old(strategies)@.len() == network@.vertex_count
                &&& old(scores)@.len() == network@.vertex_count
                &&& !tournament_in_range(old(strategies)@, old(scores)@, network@)
                &&& final(strategies)@ == old(strategies)@
                &&& final(scores)@ == old(scores)@
            },
            Err(GenerationError::LocalScoreOverflow) => {
                &&& tournament_in_range(old(strategies)@, old(scores)@, network@)
                &&& !local_scores_in_range(
                    old(strategies)@,
                    scores_after(old(strategies)@, old(scores)@, network@.edges),
                    network@,
                )
                &&& final(strategies)@ == old(strategies)@
                &&& final(scores)@ == old(scores)@
            },
        },
{
    let n = network.vertex_count();
    if strategies.len() != n || scores.len() != n {
        return Err(GenerationError::LengthMismatch);
    }
    if !tournament_fits(strategies.as_slice(), scores.as_slice(), network) {
        return Err(GenerationError::ScoreOverflow);
    }
    let mut played = scores.clone();
    play_tournament(strategies.as_slice(), played.as_mut_slice(), network);
    if !local_scores_fit(strategies.as_slice(), played.as_slice(), network) {
        return Err(GenerationError::LocalScoreOverflow);
    }
    update_strategies(strategies, played.as_slice(), network, select);
    *scores = played;
    Ok(())
}

} // verus!
