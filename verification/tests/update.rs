use rps::{
    draw_from_word, update_strategies, update_strategies_from, Network, Strategy, DRAW_SCALE,
    NUM_VERTICES,
};
use rand::{Rng, RngCore};
use std::cell::RefCell;

// A generator that gives the same word again and again.
struct Fixed(u32);

impl RngCore for Fixed {
    fn next_u32(&mut self) -> u32 {
        self.0
    }

    fn next_u64(&mut self) -> u64 {
        u64::from(self.0) << 32 | u64::from(self.0)
    }

    fn fill_bytes(&mut self, dest: &mut [u8]) {
        for (k, byte) in dest.iter_mut().enumerate() {
            *byte = self.0.to_le_bytes()[k % 4];
        }
    }
}

fn network_with_filler(edges_vec: &[(usize, usize)]) -> Network {
    let filler = (NUM_VERTICES - 1, NUM_VERTICES - 1);
    let mut network = Network::with_capacity(NUM_VERTICES, NUM_VERTICES);
    for k in 0..NUM_VERTICES {
        let (i, j) = if k < edges_vec.len() { edges_vec[k] } else { filler };
        assert_eq!(network.add_edge(i, j), Ok(()));
    }
    network
}

fn weight(score: i32) -> f32 {
    (score as f32).exp()
}

// The Boltzmann rule on a draw from the unit interval.
fn boltzmann(random_number: f32, scores: &[i32; 3]) -> Strategy {
    let probabilities = [weight(scores[0]), weight(scores[1]), weight(scores[2])];
    let total: f32 = probabilities.iter().sum();
    let threshold = random_number * total;
    let mut cumulative = probabilities[0];
    if threshold < cumulative {
        return Strategy::Rock;
    }
    cumulative += probabilities[1];
    if threshold < cumulative {
        return Strategy::Paper;
    }
    Strategy::Scissors
}

fn unit_interval(draw: u32) -> f32 {
    draw as f32 / DRAW_SCALE as f32
}

fn least_slot(row: &[i32; 3]) -> Strategy {
    let mut best = 0;
    for s in 1..3 {
        if row[s] < row[best] {
            best = s;
        }
    }
    match Strategy::from_index(best) {
        Some(strategy) => strategy,
        None => unreachable!(),
    }
}

#[test]
fn test_update_strategies_statistical() {
    let iterations = 1000;
    let mut counts = [0; 3]; // counts for Rock, Paper, Scissors

    // Network with a single meaningful edge at index 0 (self-edge for vertex 0).
    let network = network_with_filler(&[(0, 0)]);

    // Scores array with zeros -> uniform probabilities.
    let scores = [0_i32; NUM_VERTICES];

    for _ in 0..iterations {
        // Full-size strategies array; we inspect index 0 only.
        let mut strategies = vec![Strategy::Rock; NUM_VERTICES];
        update_strategies(&mut strategies, &scores, &network, |draw, row| {
            boltzmann(unit_interval(draw), row)
        });
        match strategies[0] {
            Strategy::Rock => counts[0] += 1,
            Strategy::Paper => counts[1] += 1,
            Strategy::Scissors => counts[2] += 1,
        }
    }
    // With uniform probabilities, each strategy should be chosen ~iterations/3 times.
    let expected = iterations as f32 / 3.0;
    let tolerance = iterations as f32 * 0.1; // 10% tolerance.
    for (i, &count) in counts.iter().enumerate() {
        assert!(
            (count as f32 - expected).abs() <= tolerance,
            "Strategy {} occurred {} times; expected approx {} (±{})",
            i,
            count,
            expected,
            tolerance
        );
    }
}

#[test]
fn every_vertex_chooses_from_the_snapshot() {
    // A path 0 - 1 - 2. Each vertex takes the strategy with the least local score.
    let mut network = Network::with_capacity(3, 2);
    assert_eq!(network.add_edge(0, 1), Ok(()));
    assert_eq!(network.add_edge(1, 2), Ok(()));
    let mut strategies = vec![Strategy::Rock, Strategy::Paper, Strategy::Scissors];
    let scores = [5, 1, 3];
    // Rows in the snapshot: [5,1,0], [5,1,3], [0,1,3]. Had vertex 1 seen the new
    // strategy of vertex 0, its row would have been [0,1,8] and its choice rock.
    update_strategies_from(&mut strategies, &scores, &network, &[0, 0, 0], |_, row| {
        least_slot(row)
    });
    assert_eq!(strategies, vec![Strategy::Scissors, Strategy::Paper, Strategy::Rock]);
}

#[test]
fn the_selector_is_asked_once_per_vertex_in_order() {
    let network = Network::new(3);
    let mut strategies = vec![Strategy::Rock, Strategy::Paper, Strategy::Scissors];
    let scores = [10, 20, 30];
    let asked: RefCell<Vec<(u32, [i32; 3])>> = RefCell::new(Vec::new());
    update_strategies_from(&mut strategies, &scores, &network, &[7, 8, 9], |draw, row| {
        asked.borrow_mut().push((draw, *row));
        Strategy::Paper
    });
    assert_eq!(
        asked.into_inner(),
        vec![(7, [10, 20, 30]), (8, [10, 20, 30]), (9, [10, 20, 30])]
    );
    assert_eq!(strategies, vec![Strategy::Paper; 3]);
}

#[test]
fn each_vertex_gets_its_own_draw() {
    let network = Network::with_capacity(4, 0);
    let mut strategies = vec![Strategy::Rock; 4];
    let draws = [2, 0, 1, 5];
    update_strategies_from(&mut strategies, &[0; 4], &network, &draws, |draw, _| {
        Strategy::from_byte((draw % 3) as u8)
    });
    assert_eq!(
        strategies,
        vec![Strategy::Scissors, Strategy::Rock, Strategy::Paper, Strategy::Scissors]
    );
}

#[test]
fn the_same_draws_give_the_same_generation() {
    let network = Network::new(6);
    let start = vec![
        Strategy::Rock,
        Strategy::Paper,
        Strategy::Scissors,
        Strategy::Scissors,
        Strategy::Paper,
        Strategy::Rock,
    ];
    let scores = [1, 0, 2, 1, 0, 3];
    let draws = [0, 3_000_000, 6_000_000, 9_000_000, 12_000_000, DRAW_SCALE - 1];
    let mut first = start.clone();
    let mut second = start.clone();
    update_strategies_from(&mut first, &scores, &network, &draws, |draw, row| {
        boltzmann(unit_interval(draw), row)
    });
    update_strategies_from(&mut second, &scores, &network, &draws, |draw, row| {
        boltzmann(unit_interval(draw), row)
    });
    assert_eq!(first, second);
    // Each vertex on its own, from the rows of the snapshot.
    let rows = rps::get_local_scores(&start, &scores, &network);
    for v in (0..6).rev() {
        assert_eq!(first[v], boltzmann(unit_interval(draws[v]), &rows[v]));
    }
}

#[test]
fn update_replaces_the_whole_assignment() {
    let network = Network::new(5);
    let mut strategies = vec![Strategy::Rock; 5];
    update_strategies(&mut strategies, &[1, 2, 3, 4, 5], &network, |_, _| Strategy::Scissors);
    assert_eq!(strategies, vec![Strategy::Scissors; 5]);
}

#[test]
fn update_on_no_vertices_gives_no_strategies() {
    let network = Network::new(0);
    let mut strategies: Vec<Strategy> = Vec::new();
    update_strategies(&mut strategies, &[], &network, |_, _| Strategy::Paper);
    assert!(strategies.is_empty());
}

#[test]
fn random_draws_stay_below_the_scale() {
    let network = Network::new(512);
    let mut strategies = vec![Strategy::Rock; 512];
    let seen: RefCell<Vec<u32>> = RefCell::new(Vec::new());
    update_strategies(&mut strategies, &[0; 512], &network, |draw, _| {
        seen.borrow_mut().push(draw);
        Strategy::Rock
    });
    let seen = seen.into_inner();
    assert_eq!(seen.len(), 512);
    assert!(seen.iter().all(|&draw| draw < DRAW_SCALE));
    // 512 draws of 24 bits that are all equal would be no draws at all.
    assert!(seen.iter().any(|&draw| draw != seen[0]));
}

#[test]
fn a_draw_is_the_top_24_bits_of_a_word() {
    assert_eq!(DRAW_SCALE, 1 << 24);
    assert_eq!(draw_from_word(0), 0);
    assert_eq!(draw_from_word(0xFF), 0);
    assert_eq!(draw_from_word(0x100), 1);
    assert_eq!(draw_from_word(0x1234_5678), 0x12_3456);
    assert_eq!(draw_from_word(u32::MAX), DRAW_SCALE - 1);
}

#[test]
fn a_draw_is_the_single_precision_sample_of_its_word() {
    let words = [0, 1, 0xFF, 0x100, 0x1234_5678, 0x8000_0000, 0xFFFF_FF00, u32::MAX];
    for word in words {
        let sample: f32 = Fixed(word).random();
        assert_eq!(sample, unit_interval(draw_from_word(word)));
        assert!(sample < 1.0);
    }
}
