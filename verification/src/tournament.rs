//! The tournament pass: one game along every edge, the gains added to the scores.

use vstd::prelude::*;
use vstd::seq_lib::{to_multiset_build, to_multiset_contains, to_multiset_len, to_multiset_remove};
use crate::network::{edges_within, Network, Topology};
use crate::payoff::{payoff, play_game};
use crate::strategy::Strategy;

verus! {

/// What the game along edge `e` adds to the score of `v`. An edge from a vertex
/// to itself is a tie that pays that vertex at both ends.
pub open spec fn edge_gain(strategies: Seq<Strategy>, e: (usize, usize), v: int) -> int {
    (if e.0 == v {
        payoff(strategies[e.0 as int], strategies[e.1 as int])
    } else {
        0
    }) + (if e.1 == v {
        payoff(strategies[e.1 as int], strategies[e.0 as int])
    } else {
        0
    })
}

/// What one pass over `edges` adds to the score of `v`.
pub open spec fn tournament_gain(strategies: Seq<Strategy>, edges: Seq<(usize, usize)>, v: int) -> int
    decreases edges.len(),
{
    if edges.len() == 0 {
        0
    } else {
        tournament_gain(strategies, edges.drop_last(), v) + edge_gain(strategies, edges.last(), v)
    }
}

/// There is a strategy and a score for each vertex, and no score leaves the
/// range of `i32` in one pass.
pub open spec fn tournament_in_range(
    strategies: Seq<Strategy>,
    scores: Seq<i32>,
    net: Topology,
) -> bool {
    &&& strategies.len() == net.vertex_count
    &&& scores.len() == net.vertex_count
    &&& forall|v: int|
        #![trigger scores[v]]
        0 <= v < net.vertex_count ==> scores[v] + tournament_gain(strategies, net.edges, v)
            <= i32::MAX
}

/// The scores after one pass, where `tournament_in_range` holds of the
/// arguments.
pub open spec fn scores_after(
    strategies: Seq<Strategy>,
    scores: Seq<i32>,
    edges: Seq<(usize, usize)>,
) -> Seq<i32> {
    Seq::new(scores.len(), |v: int| (scores[v] + tournament_gain(strategies, edges, v)) as i32)
}

/// One more edge adds its own gain to the pass.
pub proof fn lemma_gain_push(
    strategies: Seq<Strategy>,
    edges: Seq<(usize, usize)>,
    e: (usize, usize),
    v: int,
)
    ensures
        tournament_gain(strategies, edges.push(e), v) == tournament_gain(strategies, edges, v)
            + edge_gain(strategies, e, v),
{
    assert(edges.push(e).drop_last() == edges);
}

/// The gain over the first `k` edges is neither negative, nor more than two
/// per edge, nor more than the gain of the whole pass.
pub proof fn lemma_gain_prefix(
    strategies: Seq<Strategy>,
    edges: Seq<(usize, usize)>,
    k: int,
    v: int,
)
    requires
        0 <= k <= edges.len(),
    ensures
        0 <= tournament_gain(strategies, edges.take(k), v) <= 2 * k,
        tournament_gain(strategies, edges.take(k), v) <= tournament_gain(strategies, edges, v),
    decreases edges.len(),
{
    if k == edges.len() {
        assert(edges.take(k) == edges);
        if k > 0 {
            lemma_gain_prefix(strategies, edges.drop_last(), k - 1, v);
            assert(edges.drop_last().take(k - 1) == edges.drop_last());
        }
    } else {
        lemma_gain_prefix(strategies, edges.drop_last(), k, v);
        assert(edges.drop_last().take(k) == edges.take(k));
    }
}

/// Leaving one edge out takes its gain away.
pub proof fn lemma_gain_remove(
    strategies: Seq<Strategy>,
    edges: Seq<(usize, usize)>,
    i: int,
    v: int,
)
    requires
        0 <= i < edges.len(),
    ensures
        tournament_gain(strategies, edges, v) == tournament_gain(strategies, edges.remove(i), v)
            + edge_gain(strategies, edges[i], v),
    decreases edges.len(),
{
    if i == edges.len() - 1 {
        assert(edges.remove(i) == edges.drop_last());
    } else {
        lemma_gain_remove(strategies, edges.drop_last(), i, v);
        assert(edges.remove(i).drop_last() == edges.drop_last().remove(i));
        assert(edges.remove(i).last() == edges.last());
    }
}

/// The order of the edges does not matter to what a pass adds: two edge lists
/// that hold the same pairs equally often give every vertex the same gain.
pub proof fn lemma_gain_ignores_order(
    strategies: Seq<Strategy>,
    first: Seq<(usize, usize)>,
    second: Seq<(usize, usize)>,
    v: int,
)
    requires
        first.to_multiset() == second.to_multiset(),
    ensures
        tournament_gain(strategies, first, v) == tournament_gain(strategies, second, v),
    decreases first.len(),
{
    to_multiset_len(first);
    to_multiset_len(second);
    if first.len() > 0 {
        let e = first.last();
        let rest = first.drop_last();
        assert(first == rest.push(e));
        to_multiset_build(rest, e);
        to_multiset_contains(second, e);
        let i = choose|i: int| 0 <= i < second.len() && second[i] == e;
        to_multiset_remove(second, i);
        assert(rest.to_multiset() =~= second.remove(i).to_multiset());
        lemma_gain_ignores_order(strategies, rest, second.remove(i), v);
        lemma_gain_remove(strategies, second, i, v);
    }
}

/// A pass over two edge lists, one after the other, adds what each adds.
pub proof fn lemma_gain_concat(
    strategies: Seq<Strategy>,
    first: Seq<(usize, usize)>,
    second: Seq<(usize, usize)>,
    v: int,
)
    ensures
        tournament_gain(strategies, first + second, v) == tournament_gain(strategies, first, v)
            + tournament_gain(strategies, second, v),
    decreases second.len(),
{
    if second.len() == 0 {
        assert(first + second == first);
    } else {
        lemma_gain_concat(strategies, first, second.drop_last(), v);
        assert((first + second).drop_last() == first + second.drop_last());
    }
}

/// Plays one game along every edge of the network, in list order, and adds
/// what each endpoint gains to its score. The strategies are not touched.
pub fn play_tournament(strategies: &[Strategy], scores: &mut [i32], network: &Network)
    requires
        network.wf(),
        tournament_in_range(strategies@, old(scores)@, network@),
    ensures
        final(scores)@.len() == old(scores)@.len(),
        forall|v: int|
            0 <= v < old(scores)@.len() ==> #[trigger] final(scores)@[v] == old(scores)@[v]
                + tournament_gain(strategies@, network@.edges, v),
        final(scores)@ == scores_after(strategies@, old(scores)@, network@.edges),
        forall|v: int|
            0 <= v < old(scores)@.len() ==> old(scores)@[v] <= #[trigger] final(scores)@[v]
                <= old(scores)@[v] + 2 * network@.edges.len(),
{
    let ghost before = scores@;
    let edges = network.edges();
    let mut k: usize = 0;
    while k < edges.len()
        invariant
            k <= edges.len(),
            edges@ == network@.edges,
            edges_within(edges@, network@.vertex_count),
            strategies@.len() == network@.vertex_count,
            scores@.len() == before.len(),
            tournament_in_range(strategies@, before, network@),
            forall|v: int|
                0 <= v < before.len() ==> #[trigger] scores@[v] == before[v] + tournament_gain(
                    strategies@,
                    edges@.take(k as int),
                    v,
                ),
        decreases edges.len() - k,
    {
        let (i, j) = edges[k];
        let (gain_i, gain_j) = play_game(strategies[i], strategies[j]);
        proof {
            assert(edges@.take(k + 1) == edges@.take(k as int).push(edges@[k as int]));
            assert forall|v: int| 0 <= v < before.len() implies tournament_gain(
                strategies@,
                edges@.take(k + 1),
                v,
            ) == tournament_gain(strategies@, edges@.take(k as int), v) + edge_gain(
                strategies@,
                edges@[k as int],
                v,
            ) && before[v] + tournament_gain(strategies@, edges@.take(k + 1), v) <= i32::MAX by {
                lemma_gain_push(strategies@, edges@.take(k as int), edges@[k as int], v);
                lemma_gain_prefix(strategies@, edges@, k + 1, v);
            }
        }
        scores[i] = scores[i] + gain_i;
        scores[j] = scores[j] + gain_j;
        k += 1;
    }
    proof {
        assert(edges@.take(k as int) == edges@);
        assert forall|v: int| 0 <= v < before.len() implies before[v] <= #[trigger] scores@[v]
            <= before[v] + 2 * edges@.len() by {
            lemma_gain_prefix(strategies@, edges@, edges@.len() as int, v);
        }
        assert(scores@ =~= scores_after(strategies@, before, network@.edges));
    }
}

/// Tells whether `play_tournament` may be called on these arguments: whether
/// there is a strategy and a score for each vertex and every score stays in
/// range. The scores a pass would give are summed in `i128`, where two per edge
/// cannot overflow.
pub fn tournament_fits(strategies: &[Strategy], scores: &[i32], network: &Network) -> (fits: bool)
    requires
        network.wf(),
    ensures
        fits == tournament_in_range(strategies@, scores@, network@),
{
    let n = network.vertex_count();
    if strategies.len() != n || scores.len() != n {
        return false;
    }
    let mut totals: Vec<i128> = Vec::new();
    let mut v: usize = 0;
    while v < n
        invariant
            v <= n,
            scores@.len() == n,
            totals@.len() == v,
            forall|u: int| 0 <= u < v ==> #[trigger] totals@[u] == scores@[u],
        decreases n - v,
    {
        totals.push(scores[v] as i128);
        v += 1;
    }
    let edges = network.edges();
    let mut k: usize = 0;
    while k < edges.len()
        invariant
            k <= edges.len(),
            edges@ == network@.edges,
            edges_within(edges@, network@.vertex_count),
            n == network@.vertex_count,
            strategies@.len() == n,
            scores@.len() == n,
            totals@.len() == n,
            forall|u: int|
                0 <= u < n ==> #[trigger] totals@[u] == scores@[u] + tournament_gain(
                    strategies@,
                    edges@.take(k as int),
                    u,
                ),
        decreases edges.len() - k,
    {
        let (i, j) = edges[k];
        let (gain_i, gain_j) = play_game(strategies[i], strategies[j]);
        proof {
            assert(edges@.take(k + 1) == edges@.take(k as int).push(edges@[k as int]));
            assert forall|u: int| 0 <= u < n implies tournament_gain(
                strategies@,
                edges@.take(k + 1),
                u,
            ) == tournament_gain(strategies@, edges@.take(k as int), u) + edge_gain(
                strategies@,
                edges@[k as int],
                u,
            ) by {
                lemma_gain_push(strategies@, edges@.take(k as int), edges@[k as int], u);
            }
            lemma_gain_prefix(strategies@, edges@, k as int, i as int);
            lemma_gain_prefix(strategies@, edges@, k as int, j as int);
        }
        totals[i] = totals[i] + gain_i as i128;
        totals[j] = totals[j] + gain_j as i128;
        k += 1;
    }
    proof {
        assert(edges@.take(k as int) == edges@);
    }
    let mut w: usize = 0;
    while w < n
        invariant
            w <= n,
            n == network@.vertex_count,
            strategies@.len() == n,
            scores@.len() == n,
            totals@.len() == n,
            forall|u: int|
                0 <= u < n ==> #[trigger] totals@[u] == scores@[u] + tournament_gain(
                    strategies@,
                    network@.edges,
                    u,
                ),
            forall|u: int| 0 <= u < w ==> #[trigger] totals@[u] <= i32::MAX,
        decreases n - w,
    {
        if totals[w] > i32::MAX as i128 {
            return false;
        }
        w += 1;
    }
    proof {
        assert forall|u: int| 0 <= u < n implies #[trigger] scores@[u] + tournament_gain(
            strategies@,
            network@.edges,
            u,
        ) <= i32::MAX by {
            assert(totals@[u] <= i32::MAX);
        }
    }
    true
}

} // verus!
