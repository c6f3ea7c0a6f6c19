use rps::{Network, NetworkError, NUM_VERTICES};

#[test]
fn new_builds_the_ring() {
    let network = Network::new(3);
    assert_eq!(network.vertex_count(), 3);
    assert_eq!(network.edge_count(), 3);
    assert_eq!(network.edge_capacity(), 3);
    assert_eq!(network.edges(), &[(0, 1), (1, 2), (2, 0)]);
}

#[test]
fn ring_neighbors_are_successor_and_predecessor() {
    let network = Network::new(5);
    assert_eq!(network.neighbors(0), &[1, 4]);
    assert_eq!(network.neighbors(1), &[0, 2]);
    assert_eq!(network.neighbors(2), &[1, 3]);
    assert_eq!(network.neighbors(3), &[2, 4]);
    assert_eq!(network.neighbors(4), &[3, 0]);
}

#[test]
fn ring_of_nothing_and_of_one() {
    let empty = Network::new(0);
    assert_eq!(empty.vertex_count(), 0);
    assert_eq!(empty.edge_count(), 0);
    assert!(empty.neighbors(0).is_empty());

    let single = Network::new(1);
    assert_eq!(single.edges(), &[(0, 0)]);
    assert_eq!(single.neighbors(0), &[0, 0]);
}

#[test]
fn ring_of_two_joins_the_pair_twice() {
    let network = Network::new(2);
    assert_eq!(network.edges(), &[(0, 1), (1, 0)]);
    assert_eq!(network.neighbors(0), &[1, 1]);
    assert_eq!(network.neighbors(1), &[0, 0]);
}

#[test]
fn the_ring_is_full() {
    let mut network = Network::new(4);
    assert_eq!(network.add_edge(0, 2), Err(NetworkError::CapacityExceeded));
    assert_eq!(network.edge_count(), 4);
    assert_eq!(network.neighbors(0), &[1, 3]);
}

#[test]
fn default_is_the_ring_on_the_default_size() {
    assert_eq!(NUM_VERTICES, 4096);
    let network = Network::default();
    assert_eq!(network.vertex_count(), NUM_VERTICES);
    assert_eq!(network.edge_count(), NUM_VERTICES);
    assert_eq!(network.edges()[0], (0, 1));
    assert_eq!(network.edges()[NUM_VERTICES - 1], (NUM_VERTICES - 1, 0));
    assert_eq!(network.neighbors(0), &[1, NUM_VERTICES - 1]);
}

#[test]
fn with_capacity_starts_empty() {
    let network = Network::with_capacity(4, 10);
    assert_eq!(network.vertex_count(), 4);
    assert_eq!(network.edge_capacity(), 10);
    assert_eq!(network.edge_count(), 0);
    assert!(network.edges().is_empty());
    for i in 0..4 {
        assert!(network.neighbors(i).is_empty());
    }
}

#[test]
fn add_edge_extends_both_neighbor_lists_in_order() {
    let mut network = Network::with_capacity(4, 10);
    assert_eq!(network.add_edge(0, 1), Ok(()));
    assert_eq!(network.add_edge(2, 0), Ok(()));
    assert_eq!(network.add_edge(0, 3), Ok(()));
    assert_eq!(network.edges(), &[(0, 1), (2, 0), (0, 3)]);
    assert_eq!(network.neighbors(0), &[1, 2, 3]);
    assert_eq!(network.neighbors(1), &[0]);
    assert_eq!(network.neighbors(2), &[0]);
    assert_eq!(network.neighbors(3), &[0]);
}

#[test]
fn add_edge_does_not_deduplicate() {
    let mut network = Network::with_capacity(2, 4);
    assert_eq!(network.add_edge(0, 1), Ok(()));
    assert_eq!(network.add_edge(0, 1), Ok(()));
    assert_eq!(network.add_edge(1, 0), Ok(()));
    assert_eq!(network.edge_count(), 3);
    assert_eq!(network.neighbors(0), &[1, 1, 1]);
    assert_eq!(network.neighbors(1), &[0, 0, 0]);
}

#[test]
fn a_self_loop_lists_the_vertex_twice() {
    let mut network = Network::with_capacity(3, 4);
    assert_eq!(network.add_edge(1, 1), Ok(()));
    assert_eq!(network.neighbors(1), &[1, 1]);
    assert!(network.neighbors(0).is_empty());
}

#[test]
fn add_edge_rejects_a_stranger() {
    let mut network = Network::with_capacity(3, 4);
    assert_eq!(network.add_edge(3, 0), Err(NetworkError::VertexOutOfRange));
    assert_eq!(network.add_edge(0, 3), Err(NetworkError::VertexOutOfRange));
    assert_eq!(network.add_edge(7, 9), Err(NetworkError::VertexOutOfRange));
    assert_eq!(network.add_edge(usize::MAX, 0), Err(NetworkError::VertexOutOfRange));
    assert_eq!(network.edge_count(), 0);
    assert!(network.neighbors(0).is_empty());
    assert_eq!(network.add_edge(2, 0), Ok(()));
}

#[test]
fn add_edge_stops_at_the_capacity() {
    let mut network = Network::with_capacity(3, 2);
    assert_eq!(network.add_edge(0, 1), Ok(()));
    assert_eq!(network.add_edge(1, 2), Ok(()));
    assert_eq!(network.add_edge(2, 0), Err(NetworkError::CapacityExceeded));
    assert_eq!(network.edges(), &[(0, 1), (1, 2)]);
    assert_eq!(network.neighbors(2), &[1]);
    assert_eq!(network.neighbors(0), &[1]);
}

#[test]
fn a_stranger_is_reported_before_a_full_list() {
    let mut network = Network::with_capacity(2, 0);
    assert_eq!(network.add_edge(0, 1), Err(NetworkError::CapacityExceeded));
    assert_eq!(network.add_edge(0, 2), Err(NetworkError::VertexOutOfRange));
}

#[test]
fn no_edge_meets_an_index_that_is_no_vertex() {
    let network = Network::new(3);
    assert!(network.neighbors(3).is_empty());
    assert!(network.neighbors(usize::MAX).is_empty());
}

#[test]
fn neighbors_are_mutual() {
    let mut network = Network::with_capacity(4, 8);
    let pairs = [(0, 1), (1, 2), (2, 2), (0, 1), (3, 0), (1, 0)];
    for (i, j) in pairs {
        assert_eq!(network.add_edge(i, j), Ok(()));
    }
    for u in 0..4 {
        for v in 0..4 {
            let u_at_v = network.neighbors(v).iter().filter(|&&w| w == u).count();
            let v_at_u = network.neighbors(u).iter().filter(|&&w| w == v).count();
            assert_eq!(u_at_v, v_at_u);
        }
    }
}
