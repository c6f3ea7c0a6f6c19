//! The network: a fixed set of vertices and a bounded list of undirected edges.

use vstd::prelude::*;
use vstd::seq_lib::{lemma_multiset_commutative, to_multiset_build, to_multiset_contains};

verus! {

/// The number of vertices of the default network: a 64 by 64 lattice's worth.
pub const NUM_VERTICES: usize = 64 * 64;

/// The mathematical content of a network.
pub struct Topology {
    /// The vertices are the integers below this count.
    pub vertex_count: nat,
    /// The most edges the network will ever hold.
    pub edge_capacity: nat,
    /// The edges in the order they were added. An edge is a record, not an
    /// identity: the same pair may occur several times, and a pair may join a
    /// vertex to itself.
    pub edges: Seq<(usize, usize)>,
}

/// Both endpoints of every edge are vertices of a network of `n` vertices.
pub open spec fn edges_within(edges: Seq<(usize, usize)>, n: nat) -> bool {
    forall|k: int| 0 <= k < edges.len() ==> (#[trigger] edges[k]).0 < n && edges[k].1 < n
}

impl Topology {
    /// The edge list respects the capacity and names vertices only.
    pub open spec fn wf(self) -> bool {
        &&& self.edges.len() <= self.edge_capacity
        &&& edges_within(self.edges, self.vertex_count)
    }
}

/// What one edge adds to the neighbour list of `v`: the other endpoint, once
/// for each end of the edge that is `v`.
pub open spec fn edge_neighbors(e: (usize, usize), v: int) -> Seq<usize> {
    (if e.0 == v {
        seq![e.1]
    } else {
        Seq::<usize>::empty()
    }) + (if e.1 == v {
        seq![e.0]
    } else {
        Seq::<usize>::empty()
    })
}

/// The neighbour list of `v`: for each edge in order, what that edge adds.
pub open spec fn neighbors_of(edges: Seq<(usize, usize)>, v: int) -> Seq<usize>
    decreases edges.len(),
{
    if edges.len() == 0 {
        Seq::<usize>::empty()
    } else {
        neighbors_of(edges.drop_last(), v) + edge_neighbors(edges.last(), v)
    }
}

/// An index that is not a vertex has no neighbours.
pub proof fn lemma_stranger_has_no_neighbors(edges: Seq<(usize, usize)>, n: nat, v: int)
    requires
        edges_within(edges, n),
        v >= n,
    ensures
        neighbors_of(edges, v) == Seq::<usize>::empty(),
    decreases edges.len(),
{
    if edges.len() > 0 {
        lemma_stranger_has_no_neighbors(edges.drop_last(), n, v);
    }
}

/// One more edge extends the neighbour list of `v` by what that edge adds.
pub proof fn lemma_neighbors_push(edges: Seq<(usize, usize)>, e: (usize, usize), v: int)
    ensures
        neighbors_of(edges.push(e), v) == neighbors_of(edges, v) + edge_neighbors(e, v),
{
    assert(edges.push(e).drop_last() == edges);
}

/// How often `u` is among what edge `e` adds to the neighbours of `v`: once
/// for each way of reading the edge as running from `v` to `u`.
spec fn edge_joins(e: (usize, usize), v: usize, u: usize) -> nat {
    (if e.0 == v && e.1 == u {
        1nat
    } else {
        0nat
    }) + (if e.1 == v && e.0 == u {
        1nat
    } else {
        0nat
    })
}

/// Counts `u` in what one edge adds to the neighbours of `v`.
proof fn lemma_edge_neighbors_count(e: (usize, usize), v: usize, u: usize)
    ensures
        edge_neighbors(e, v as int).to_multiset().count(u) == edge_joins(e, v, u),
{
    let none = Seq::<usize>::empty();
    let from_first = if e.0 == v {
        seq![e.1]
    } else {
        none
    };
    let from_second = if e.1 == v {
        seq![e.0]
    } else {
        none
    };
    none.to_multiset_ensures();
    to_multiset_build(none, e.0);
    to_multiset_build(none, e.1);
    assert(seq![e.0] == none.push(e.0));
    assert(seq![e.1] == none.push(e.1));
    lemma_multiset_commutative(from_first, from_second);
}

/// Edges are undirected: `u` is a neighbour of `v` exactly as often as `v` is
/// a neighbour of `u`.
pub proof fn lemma_neighbors_symmetric(edges: Seq<(usize, usize)>, u: usize, v: usize)
    ensures
        neighbors_of(edges, v as int).to_multiset().count(u) == neighbors_of(
            edges,
            u as int,
        ).to_multiset().count(v),
    decreases edges.len(),
{
    broadcast use vstd::multiset::group_multiset_axioms;

    if edges.len() == 0 {
        to_multiset_contains(Seq::<usize>::empty(), u);
        to_multiset_contains(Seq::<usize>::empty(), v);
    } else {
        let rest = edges.drop_last();
        let e = edges.last();
        lemma_neighbors_symmetric(rest, u, v);
        lemma_multiset_commutative(neighbors_of(rest, v as int), edge_neighbors(e, v as int));
        lemma_multiset_commutative(neighbors_of(rest, u as int), edge_neighbors(e, u as int));
        lemma_edge_neighbors_count(e, v, u);
        lemma_edge_neighbors_count(e, u, v);
    }
}

/// The vertex after `v` on the ring of `n` vertices.
pub open spec fn ring_successor(n: nat, v: int) -> int {
    if v + 1 == n {
        0
    } else {
        v + 1
    }
}

/// The vertex before `v` on the ring of `n` vertices.
pub open spec fn ring_predecessor(n: nat, v: int) -> int {
    if v == 0 {
        n - 1
    } else {
        v - 1
    }
}

/// The ring on `n` vertices: each vertex is joined to its successor, the last
/// one to vertex 0.
pub open spec fn ring_edges(n: nat) -> Seq<(usize, usize)> {
    Seq::new(n, |i: int| (i as usize, ring_successor(n, i) as usize))
}

/// The neighbour list of `v` after the first `k` edges of the ring.
spec fn ring_neighbors_so_far(n: nat, k: int, v: int) -> Seq<usize> {
    let before = seq![ring_predecessor(n, v) as usize];
    let after = seq![ring_successor(n, v) as usize];
    let none = Seq::<usize>::empty();
    if v == 0 {
        (if k > 0 {
            after
        } else {
            none
        }) + (if k > n - 1 {
            before
        } else {
            none
        })
    } else {
        (if k > v - 1 {
            before
        } else {
            none
        }) + (if k > v {
            after
        } else {
            none
        })
    }
}

/// The neighbour lists grow along the ring as `ring_neighbors_so_far` says.
proof fn lemma_ring_prefix(n: nat, k: int, v: int)
    requires
        0 <= v < n <= usize::MAX,
        0 <= k <= n,
    ensures
        neighbors_of(ring_edges(n).take(k), v) == ring_neighbors_so_far(n, k, v),
    decreases k,
{
    let ring = ring_edges(n);
    if k == 0 {
        assert(ring.take(0) == Seq::<(usize, usize)>::empty());
    } else {
        lemma_ring_prefix(n, k - 1, v);
        assert(ring.take(k) == ring.take(k - 1).push(ring[k - 1]));
        lemma_neighbors_push(ring.take(k - 1), ring[k - 1], v);
        assert(neighbors_of(ring.take(k), v) =~= ring_neighbors_so_far(n, k, v));
    }
}

/// On the ring every vertex has two neighbour entries, its predecessor and
/// its successor. Vertex 0 meets its successor first, every other vertex its
/// predecessor.
pub proof fn lemma_ring_neighbors(n: nat, v: int)
    requires
        0 <= v < n <= usize::MAX,
    ensures
        neighbors_of(ring_edges(n), v) == (if v == 0 {
            seq![ring_successor(n, v) as usize, ring_predecessor(n, v) as usize]
        } else {
            seq![ring_predecessor(n, v) as usize, ring_successor(n, v) as usize]
        }),
{
    lemma_ring_prefix(n, n as int, v);
    assert(ring_edges(n).take(n as int) == ring_edges(n));
    assert(neighbors_of(ring_edges(n), v) =~= (if v == 0 {
        seq![ring_successor(n, v) as usize, ring_predecessor(n, v) as usize]
    } else {
        seq![ring_predecessor(n, v) as usize, ring_successor(n, v) as usize]
    }));
}

/// Why an edge was not added.
#[derive(Clone, Copy, Debug, PartialEq, Eq, Structural)]
pub enum NetworkError {
    /// An endpoint is not a vertex of the network.
    VertexOutOfRange,
    /// The network already holds as many edges as it was made for.
    CapacityExceeded,
}

/// A fixed number of vertices joined by a bounded list of undirected edges,
/// with the neighbour list of every vertex kept beside the edge list.
pub struct Network {
    vertex_count: usize,
    edge_capacity: usize,
    edges: Vec<(usize, usize)>,
    neighbors: Vec<Vec<usize>>,
}

impl View for Network {
    type V = Topology;

    closed spec fn view(&self) -> Topology {
        Topology {
            vertex_count: self.vertex_count as nat,
            edge_capacity: self.edge_capacity as nat,
            edges: self.edges@,
        }
    }
}

impl Network {
    /// The stored neighbour lists are the ones the edge list gives.
    pub closed spec fn adjacency_consistent(&self) -> bool {
        &&& self.neighbors@.len() == self.vertex_count
        &&& forall|v: int|
            0 <= v < self.vertex_count ==> (#[trigger] self.neighbors@[v])@ == neighbors_of(
                self.edges@,
                v,
            )
    }

    /// The invariant of every network that this module hands out.
    pub open spec fn wf(&self) -> bool {
        &&& self@.wf()
        &&& self.adjacency_consistent()
    }

    /// A network of `vertex_count` vertices without edges, which will take up to
    /// `edge_capacity` of them.
    pub fn with_capacity(vertex_count: usize, edge_capacity: usize) -> (net: Network)
        ensures
            net.wf(),
            net@.vertex_count == vertex_count,
            net@.edge_capacity == edge_capacity,
            net@.edges == Seq::<(usize, usize)>::empty(),
    {
        let mut neighbors: Vec<Vec<usize>> = Vec::new();
        let mut v: usize = 0;
        while v < vertex_count
            invariant
                v <= vertex_count,
                neighbors@.len() == v,
                forall|u: int| 0 <= u < v ==> (#[trigger] neighbors@[u])@ == Seq::<usize>::empty(),
            decreases vertex_count - v,
        {
            neighbors.push(Vec::new());
            v += 1;
        }
        Network { vertex_count, edge_capacity, edges: Vec::new(), neighbors }
    }

    /// The default topology on `vertex_count` vertices: the ring, with room for
    /// no further edge.
    pub fn new(vertex_count: usize) -> (net: Network)
        ensures
            net.wf(),
            net@.vertex_count == vertex_count,
            net@.edge_capacity == vertex_count,
            net@.edges == ring_edges(vertex_count as nat),
    {
        let mut net = Network::with_capacity(vertex_count, vertex_count);
        let mut i: usize = 0;
        while i < vertex_count
            invariant
                i <= vertex_count,
                net.wf(),
                net@.vertex_count == vertex_count,
                net@.edge_capacity == vertex_count,
                net@.edges == ring_edges(vertex_count as nat).take(i as int),
            decreases vertex_count - i,
        {
            let successor: usize = if i + 1 == vertex_count {
                0
            } else {
                i + 1
            };
            net.push_edge(i, successor);
            proof {
                let ring = ring_edges(vertex_count as nat);
                assert(ring[i as int] == (i, successor));
                assert(ring.take(i + 1) == ring.take(i as int).push(ring[i as int]));
            }
            i += 1;
        }
        net
    }

    /// The number of vertices.
    pub fn vertex_count(&self) -> (n: usize)
        ensures
            n == self@.vertex_count,
    {
        self.vertex_count
    }

    /// The most edges this network will hold.
    pub fn edge_capacity(&self) -> (n: usize)
        ensures
            n == self@.edge_capacity,
    {
        self.edge_capacity
    }

    /// The number of edges added so far, each occurrence counted.
    pub fn edge_count(&self) -> (n: usize)
        ensures
            n == self@.edges.len(),
    {
        self.edges.len()
    }

    /// The edges in the order they were added.
    pub fn edges(&self) -> (list: &[(usize, usize)])
        ensures
            list@ == self@.edges,
    {
        self.edges.as_slice()
    }

    /// The vertices joined to `i`, in the order their edges were added and once
    /// for each end of an edge that meets `i`. No edge meets an index that is
    /// not a vertex, so the list is then empty.
    pub fn neighbors(&self, i: usize) -> (list: &[usize])
        requires
            self.wf(),
        ensures
            list@ == neighbors_of(self@.edges, i as int),
    {
        if i < self.vertex_count {
            self.neighbors[i].as_slice()
        } else {
            proof {
                lemma_stranger_has_no_neighbors(self@.edges, self@.vertex_count, i as int);
            }
            &[]
        }
    }

    /// Appends the edge and extends the neighbour lists of its endpoints.
    fn push_edge(&mut self, i: usize, j: usize)
        requires
            old(self).wf(),
            i < old(self)@.vertex_count,
            j < old(self)@.vertex_count,
            old(self)@.edges.len() < old(self)@.edge_capacity,
        ensures
            final(self).wf(),
            final(self)@.vertex_count == old(self)@.vertex_count,
            final(self)@.edge_capacity == old(self)@.edge_capacity,
            final(self)@.edges == old(self)@.edges.push((i, j)),
    {
        let ghost before = self.edges@;
        self.edges.push((i, j));
        self.neighbors[i].push(j);
        self.neighbors[j].push(i);
        proof {
            assert(self.edges@.drop_last() == before);
            assert forall|v: int| 0 <= v < self.vertex_count implies (
            #[trigger] self.neighbors@[v])@ == neighbors_of(self.edges@, v) by {
                assert(old(self).neighbors@[v]@ == neighbors_of(before, v));
            }
        }
    }

    /// Adds the undirected edge between `i` and `j`. Nothing is deduplicated:
    /// adding a pair again doubles its weight in every later pass.
    pub fn add_edge(&mut self, i: usize, j: usize) -> (outcome: Result<(), NetworkError>)
        requires
            old(self).wf(),
        ensures
            final(self).wf(),
            final(self)@.vertex_count == old(self)@.vertex_count,
            final(self)@.edge_capacity == old(self)@.edge_capacity,
            match outcome {
                Ok(_) => {
                    &&& i < old(self)@.vertex_count
                    &&& j < old(self)@.vertex_count
                    &&& old(self)@.edges.len() < old(self)@.edge_capacity
                    &&& final(self)@.edges == old(self)@.edges.push((i, j))
                },
                Err(NetworkError::VertexOutOfRange) => {
                    &&& i >= old(self)@.vertex_count || j >= old(self)@.vertex_count
                    &&& final(self)@.edges == old(self)@.edges
                },
                Err(NetworkError::CapacityExceeded) => {
                    &&& i < old(self)@.vertex_count
                    &&& j < old(self)@.vertex_count
                    &&& old(self)@.edges.len() >= old(self)@.edge_capacity
                    &&& final(self)@.edges == old(self)@.edges
                },
            },
    {
        if i >= self.vertex_count || j >= self.vertex_count {
            return Err(NetworkError::VertexOutOfRange);
        }
        if self.edges.len() >= self.edge_capacity {
            return Err(NetworkError::CapacityExceeded);
        }
        self.push_edge(i, j);
        Ok(())
    }
}

impl Default for Network {
    /// The ring on `NUM_VERTICES` vertices.
    fn default() -> (net: Network)
        ensures
            net.wf(),
            net@.vertex_count == NUM_VERTICES,
            net@.edge_capacity == NUM_VERTICES,
            net@.edges == ring_edges(NUM_VERTICES as nat),
    {
        Network::new(NUM_VERTICES)
    }
}

} // verus!
