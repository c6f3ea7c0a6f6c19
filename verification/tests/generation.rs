use rps::{run_generation, GenerationError, Network, Strategy};

fn keep_rock_or_turn_paper(_draw: u32, row: &[i32; 3]) -> Strategy {
    if row[0] >= row[1] {
        Strategy::Rock
    } else {
        Strategy::Paper
    }
}

#[test]
fn a_generation_plays_and_then_updates() {
    // A path 0 - 1 - 2.
    let mut network = Network::with_capacity(3, 2);
    assert_eq!(network.add_edge(0, 1), Ok(()));
    assert_eq!(network.add_edge(1, 2), Ok(()));
    let mut strategies = vec![Strategy::Rock, Strategy::Paper, Strategy::Paper];
    let mut scores = vec![0, 0, 0];
    let outcome = run_generation(&mut strategies, &mut scores, &network, keep_rock_or_turn_paper);
    assert_eq!(outcome, Ok(()));
    // Paper beats rock along (0,1); the two papers tie along (1,2).
    assert_eq!(scores, vec![0, 3, 1]);
    // With the new scores the rows are [0,3,0], [0,4,0] and [0,4,0].
    assert_eq!(strategies, vec![Strategy::Paper; 3]);
}

#[test]
fn generations_accumulate_the_scores() {
    let network = Network::new(3);
    let mut strategies = vec![Strategy::Rock; 3];
    let mut scores = vec![10, 10, 10];
    for round in 1..=5 {
        let outcome = run_generation(&mut strategies, &mut scores, &network, |_, _| Strategy::Rock);
        assert_eq!(outcome, Ok(()));
        assert_eq!(scores, vec![10 + 2 * round; 3]);
    }
}

#[test]
fn a_generation_needs_a_strategy_and_a_score_for_each_vertex() {
    let network = Network::new(3);
    let mut strategies = vec![Strategy::Rock; 2];
    let mut scores = vec![1, 2, 3];
    let outcome = run_generation(&mut strategies, &mut scores, &network, |_, _| Strategy::Paper);
    assert_eq!(outcome, Err(GenerationError::LengthMismatch));
    assert_eq!(strategies, vec![Strategy::Rock; 2]);
    assert_eq!(scores, vec![1, 2, 3]);

    let mut strategies = vec![Strategy::Rock; 3];
    let mut scores = vec![1, 2, 3, 4];
    let outcome = run_generation(&mut strategies, &mut scores, &network, |_, _| Strategy::Paper);
    assert_eq!(outcome, Err(GenerationError::LengthMismatch));
    assert_eq!(scores, vec![1, 2, 3, 4]);
}

#[test]
fn a_generation_stops_before_a_score_overflows() {
    let mut network = Network::with_capacity(2, 1);
    assert_eq!(network.add_edge(0, 1), Ok(()));
    let mut strategies = vec![Strategy::Paper, Strategy::Rock];
    let mut scores = vec![i32::MAX - 1, -5];
    let outcome = run_generation(&mut strategies, &mut scores, &network, |_, _| Strategy::Scissors);
    assert_eq!(outcome, Err(GenerationError::ScoreOverflow));
    assert_eq!(strategies, vec![Strategy::Paper, Strategy::Rock]);
    assert_eq!(scores, vec![i32::MAX - 1, -5]);
}

#[test]
fn a_generation_stops_before_a_local_score_overflows() {
    let mut network = Network::with_capacity(2, 1);
    assert_eq!(network.add_edge(0, 1), Ok(()));
    // The tournament fits: both tie and gain one. Then vertex 0 would see
    // (MAX - 1) + 1 under rock from itself and 1 more from its neighbour.
    let mut strategies = vec![Strategy::Rock, Strategy::Rock];
    let mut scores = vec![i32::MAX - 1, 0];
    let outcome = run_generation(&mut strategies, &mut scores, &network, |_, _| Strategy::Scissors);
    assert_eq!(outcome, Err(GenerationError::LocalScoreOverflow));
    assert_eq!(strategies, vec![Strategy::Rock, Strategy::Rock]);
    assert_eq!(scores, vec![i32::MAX - 1, 0]);

    // One point less and the generation runs.
    let mut scores = vec![i32::MAX - 2, 0];
    let outcome = run_generation(&mut strategies, &mut scores, &network, |_, _| Strategy::Scissors);
    assert_eq!(outcome, Ok(()));
    assert_eq!(scores, vec![i32::MAX - 1, 1]);
    assert_eq!(strategies, vec![Strategy::Scissors, Strategy::Scissors]);
}
