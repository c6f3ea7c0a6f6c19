//! Rock-paper-scissors played by agents on the vertices of a fixed network.
//!
//! Every edge of the network is one game per tournament pass; the payoffs pile
//! up in a score per vertex. Between passes each vertex revises its strategy
//! from the scores it sees among its neighbours and itself. The caller owns the
//! strategies and the scores and decides how many generations to run.

pub mod color;
pub mod exp_table;
pub mod generation;
pub mod history;
pub mod local_scores;
pub mod network;
pub mod payoff;
pub mod population;
mod random;
pub mod strategy;
pub mod tournament;
pub mod update;

pub use crate::color::{pack_rgb, strategy_to_color};
pub use crate::exp_table::{table_argument, table_index, TABLE_LEN, TABLE_REACH};
pub use crate::generation::{run_generation, GenerationError};
pub use crate::history::{history_counts, new_histories, record, record_generation, HISTORY_LENGTH};
pub use crate::local_scores::{get_local_scores, local_scores_fit};
pub use crate::network::{Network, NetworkError, NUM_VERTICES};
pub use crate::payoff::{play_game, PAYOFF_MATRIX};
pub use crate::population::{random_strategies, strategies_from_bytes};
pub use crate::strategy::Strategy;
pub use crate::tournament::{play_tournament, tournament_fits};
pub use crate::update::{draw_from_word, update_strategies, update_strategies_from, DRAW_SCALE};
