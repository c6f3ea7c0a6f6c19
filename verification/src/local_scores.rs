//! What each vertex sees: the scores around it, sorted by strategy.

use vstd::prelude::*;
use crate::network::{
    edge_neighbors, edges_within, lemma_ring_neighbors, neighbors_of, ring_edges,
    ring_predecessor, ring_successor, Network, Topology,
};
use crate::strategy::Strategy;

verus! {

/// What vertex `u` puts in slot `s` wherever it is counted: its score if `s` is
/// the slot of its strategy, nothing otherwise.
pub open spec fn share(strategies: Seq<Strategy>, scores: Seq<i32>, u: int, s: int) -> int {
    if strategies[u].ordinal() == s {
        scores[u] as int
    } else {
        0
    }
}

/// What edge `e` adds to slot `s` of vertex `v`: the share of the other
/// endpoint, once for each end of the edge that is `v`.
pub open spec fn edge_share(
    strategies: Seq<Strategy>,
    scores: Seq<i32>,
    e: (usize, usize),
    v: int,
    s: int,
) -> int {
    (if e.1 == v {
        share(strategies, scores, e.0 as int, s)
    } else {
        0
    }) + (if e.0 == v {
        share(strategies, scores, e.1 as int, s)
    } else {
        0
    })
}

/// What the edges add to slot `s` of vertex `v`.
pub open spec fn neighbor_score(
    strategies: Seq<Strategy>,
    scores: Seq<i32>,
    edges: Seq<(usize, usize)>,
    v: int,
    s: int,
) -> int
    decreases edges.len(),
{
    if edges.len() == 0 {
        0
    } else {
        neighbor_score(strategies, scores, edges.drop_last(), v, s) + edge_share(
            strategies,
            scores,
            edges.last(),
            v,
            s,
        )
    }
}

/// Slot `s` of the local score vector of `v`: the scores of the neighbours of
/// `v` that play the strategy of slot `s`, and the score of `v` itself if it
/// plays that strategy.
pub open spec fn local_score(
    strategies: Seq<Strategy>,
    scores: Seq<i32>,
    edges: Seq<(usize, usize)>,
    v: int,
    s: int,
) -> int {
    neighbor_score(strategies, scores, edges, v, s) + share(strategies, scores, v, s)
}

/// There is a strategy and a score for each vertex, and every slot of every
/// local score vector is in the range of `i32`.
pub open spec fn local_scores_in_range(
    strategies: Seq<Strategy>,
    scores: Seq<i32>,
    net: Topology,
) -> bool {
    &&& strategies.len() == net.vertex_count
    &&& scores.len() == net.vertex_count
    &&& forall|v: int, s: int|
        0 <= v < net.vertex_count && 0 <= s < 3 ==> i32::MIN <= #[trigger] local_score(
            strategies,
            scores,
            net.edges,
            v,
            s,
        ) <= i32::MAX
}

/// `row` is the local score vector of `v`.
pub open spec fn is_local_row(
    row: [i32; 3],
    strategies: Seq<Strategy>,
    scores: Seq<i32>,
    edges: Seq<(usize, usize)>,
    v: int,
) -> bool {
    forall|s: int| 0 <= s < 3 ==> #[trigger] row[s] == local_score(strategies, scores, edges, v, s)
}

/// One more edge adds its own share.
pub proof fn lemma_neighbor_score_push(
    strategies: Seq<Strategy>,
    scores: Seq<i32>,
    edges: Seq<(usize, usize)>,
    e: (usize, usize),
    v: int,
    s: int,
)
    ensures
        neighbor_score(strategies, scores, edges.push(e), v, s) == neighbor_score(
            strategies,
            scores,
            edges,
            v,
            s,
        ) + edge_share(strategies, scores, e, v, s),
{
    assert(edges.push(e).drop_last() == edges);
}

/// The edges add to a slot at most two scores each, so the sum stays well
/// inside `i128` whatever the number of edges.
pub proof fn lemma_neighbor_score_bound(
    strategies: Seq<Strategy>,
    scores: Seq<i32>,
    edges: Seq<(usize, usize)>,
    v: int,
    s: int,
)
    ensures
        -2 * edges.len() * 0x8000_0000 <= neighbor_score(strategies, scores, edges, v, s) <= 2
            * edges.len() * 0x8000_0000,
    decreases edges.len(),
{
    if edges.len() > 0 {
        lemma_neighbor_score_bound(strategies, scores, edges.drop_last(), v, s);
    }
}

/// What the vertices of `list` put in slot `s`, each as often as it is listed.
pub open spec fn list_score(
    strategies: Seq<Strategy>,
    scores: Seq<i32>,
    list: Seq<usize>,
    s: int,
) -> int
    decreases list.len(),
{
    if list.len() == 0 {
        0
    } else {
        list_score(strategies, scores, list.drop_last(), s) + share(
            strategies,
            scores,
            list.last() as int,
            s,
        )
    }
}

/// Two lists, one after the other, put in a slot what each puts in it.
pub proof fn lemma_list_score_concat(
    strategies: Seq<Strategy>,
    scores: Seq<i32>,
    first: Seq<usize>,
    second: Seq<usize>,
    s: int,
)
    ensures
        list_score(strategies, scores, first + second, s) == list_score(
            strategies,
            scores,
            first,
            s,
        ) + list_score(strategies, scores, second, s),
    decreases second.len(),
{
    if second.len() == 0 {
        assert(first + second == first);
    } else {
        lemma_list_score_concat(strategies, scores, first, second.drop_last(), s);
        assert((first + second).drop_last() == first + second.drop_last());
    }
}

/// The pass over the edge list gives each vertex what its neighbour list
/// holds: slot `s` of `v` is the score of every neighbour of `v` that plays
/// strategy `s`, counted as often as it is listed, and the score of `v` itself
/// if it plays `s`.
pub proof fn lemma_local_score_by_neighbors(
    strategies: Seq<Strategy>,
    scores: Seq<i32>,
    edges: Seq<(usize, usize)>,
    v: int,
    s: int,
)
    ensures
        local_score(strategies, scores, edges, v, s) == list_score(
            strategies,
            scores,
            neighbors_of(edges, v),
            s,
        ) + share(strategies, scores, v, s),
    decreases edges.len(),
{
    if edges.len() > 0 {
        let e = edges.last();
        lemma_local_score_by_neighbors(strategies, scores, edges.drop_last(), v, s);
        lemma_list_score_concat(
            strategies,
            scores,
            neighbors_of(edges.drop_last(), v),
            edge_neighbors(e, v),
            s,
        );
        let added = edge_neighbors(e, v);
        assert(list_score(strategies, scores, added, s) == edge_share(strategies, scores, e, v, s))
            by {
            reveal_with_fuel(list_score, 3);
            if e.0 == v && e.1 == v {
                assert(added == seq![e.1, e.0]);
                assert(added.drop_last() == seq![e.1]);
                assert(added.drop_last().drop_last() == Seq::<usize>::empty());
            } else if e.0 == v {
                assert(added == seq![e.1]);
                assert(added.drop_last() == Seq::<usize>::empty());
            } else if e.1 == v {
                assert(added == seq![e.0]);
                assert(added.drop_last() == Seq::<usize>::empty());
            } else {
                assert(added == Seq::<usize>::empty());
            }
        }
    }
}

/// On the ring a vertex sees three scores: its predecessor's, its successor's
/// and its own, each in the slot of the strategy that vertex plays.
pub proof fn lemma_ring_local_score(
    strategies: Seq<Strategy>,
    scores: Seq<i32>,
    n: nat,
    v: int,
    s: int,
)
    requires
        0 <= v < n <= usize::MAX,
    ensures
        local_score(strategies, scores, ring_edges(n), v, s) == share(
            strategies,
            scores,
            ring_predecessor(n, v),
            s,
        ) + share(strategies, scores, ring_successor(n, v), s) + share(strategies, scores, v, s),
{
    lemma_local_score_by_neighbors(strategies, scores, ring_edges(n), v, s);
    lemma_ring_neighbors(n, v);
    let list = neighbors_of(ring_edges(n), v);
    assert(list.drop_last().drop_last() == Seq::<usize>::empty());
    reveal_with_fuel(list_score, 3);
}

/// The local score vectors in `i128`, where no sum of scores can overflow.
fn local_totals(strategies: &[Strategy], scores: &[i32], network: &Network) -> (totals: Vec<
    [i128; 3],
>)
    requires
        network.wf(),
        strategies@.len() == network@.vertex_count,
        scores@.len() == network@.vertex_count,
    ensures
        totals@.len() == network@.vertex_count,
        forall|v: int, s: int|
            0 <= v < network@.vertex_count && 0 <= s < 3 ==> #[trigger] totals@[v][s]
                == local_score(strategies@, scores@, network@.edges, v, s),
{
    let n = network.vertex_count();
    let mut totals: Vec<[i128; 3]> = Vec::new();
    let mut v: usize = 0;
    while v < n
        invariant
            v <= n,
            totals@.len() == v,
            forall|u: int, s: int| 0 <= u < v && 0 <= s < 3 ==> #[trigger] totals@[u][s] == 0,
        decreases n - v,
    {
        totals.push([0, 0, 0]);
        v += 1;
    }
    let edges = network.edges();
    let mut k: usize = 0;
    while k < edges.len()
        invariant
            k <= edges.len(),
            edges@ == network@.edges,
            edges_within(edges@, network@.vertex_count),
            n == network@.vertex_count,
            strategies@.len() == n,
            scores@.len() == n,
            totals@.len() == n,
            forall|u: int, s: int|
                0 <= u < n && 0 <= s < 3 ==> #[trigger] totals@[u][s] == neighbor_score(
                    strategies@,
                    scores@,
                    edges@.take(k as int),
                    u,
                    s,
                ),
        decreases edges.len() - k,
    {
        let (i, j) = edges[k];
        let slot_i = strategies[i].to_index();
        let slot_j = strategies[j].to_index();
        proof {
            assert(edges@.take(k + 1) == edges@.take(k as int).push(edges@[k as int]));
            assert forall|u: int, s: int| 0 <= u < n && 0 <= s < 3 implies neighbor_score(
                strategies@,
                scores@,
                edges@.take(k + 1),
                u,
                s,
            ) == #[trigger] neighbor_score(strategies@, scores@, edges@.take(k as int), u, s)
                + edge_share(strategies@, scores@, edges@[k as int], u, s) by {
                lemma_neighbor_score_push(
                    strategies@,
                    scores@,
                    edges@.take(k as int),
                    edges@[k as int],
                    u,
                    s,
                );
            }
            lemma_neighbor_score_bound(strategies@, scores@, edges@.take(k as int), j as int, slot_i as int);
            lemma_neighbor_score_bound(strategies@, scores@, edges@.take(k as int), i as int, slot_j as int);
        }
        totals[j][slot_i] = totals[j][slot_i] + scores[i] as i128;
        totals[i][slot_j] = totals[i][slot_j] + scores[j] as i128;
        k += 1;
    }
    proof {
        assert(edges@.take(k as int) == edges@);
        assert(edges@.len() == edges.len());
    }
    let mut w: usize = 0;
    while w < n
        invariant
            w <= n,
            n == network@.vertex_count,
            network@.edges.len() <= usize::MAX,
            strategies@.len() == n,
            scores@.len() == n,
            totals@.len() == n,
            forall|u: int, s: int|
                0 <= u < w && 0 <= s < 3 ==> #[trigger] totals@[u][s] == local_score(
                    strategies@,
                    scores@,
                    network@.edges,
                    u,
                    s,
                ),
            forall|u: int, s: int|
                w <= u < n && 0 <= s < 3 ==> #[trigger] totals@[u][s] == neighbor_score(
                    strategies@,
                    scores@,
                    network@.edges,
                    u,
                    s,
                ),
        decreases n - w,
    {
        let slot = strategies[w].to_index();
        proof {
            lemma_neighbor_score_bound(strategies@, scores@, network@.edges, w as int, slot as int);
        }
        totals[w][slot] = totals[w][slot] + scores[w] as i128;
        w += 1;
    }
    totals
}

/// The local score vector of every vertex, computed from one snapshot of the
/// strategies and scores, which are not changed. Slot `s` of vertex `v` holds
/// the scores of the neighbours of `v` that play strategy `s`, each as often as
/// an edge end joins it to `v`, and the score of `v` itself under its own
/// strategy. The sums are formed in `i128`: only the results have to fit in an
/// `i32`, not what is reached on the way.
pub fn get_local_scores(strategies: &[Strategy], scores: &[i32], network: &Network) -> (results:
    Vec<[i32; 3]>)
    requires
        network.wf(),
        local_scores_in_range(strategies@, scores@, network@),
    ensures
        results@.len() == network@.vertex_count,
        forall|v: int|
            0 <= v < network@.vertex_count ==> is_local_row(
                #[trigger] results@[v],
                strategies@,
                scores@,
                network@.edges,
                v,
            ),
{
    let totals = local_totals(strategies, scores, network);
    let n = totals.len();
    let mut results: Vec<[i32; 3]> = Vec::new();
    let mut v: usize = 0;
    while v < n
        invariant
            v <= n,
            n == network@.vertex_count,
            totals@.len() == n,
            local_scores_in_range(strategies@, scores@, network@),
            forall|u: int, s: int|
                0 <= u < n && 0 <= s < 3 ==> #[trigger] totals@[u][s] == local_score(
                    strategies@,
                    scores@,
                    network@.edges,
                    u,
                    s,
                ),
            results@.len() == v,
            forall|u: int|
                0 <= u < v ==> is_local_row(
                    #[trigger] results@[u],
                    strategies@,
                    scores@,
                    network@.edges,
                    u,
                ),
        decreases n - v,
    {
        let wide = totals[v];
        let row: [i32; 3] = [wide[0] as i32, wide[1] as i32, wide[2] as i32];
        results.push(row);
        v += 1;
    }
    results
}

/// Tells whether `get_local_scores` may be called on these arguments: whether
/// there is a strategy and a score for each vertex and every slot of every
/// local score vector fits in an `i32`.
pub fn local_scores_fit(strategies: &[Strategy], scores: &[i32], network: &Network) -> (fits: bool)
    requires
        network.wf(),
    ensures
        fits == local_scores_in_range(strategies@, scores@, network@),
{
    let n = network.vertex_count();
    if strategies.len() != n || scores.len() != n {
        return false;
    }
    let totals = local_totals(strategies, scores, network);
    let mut v: usize = 0;
    while v < n
        invariant
            v <= n,
            n == network@.vertex_count,
            strategies@.len() == n,
            scores@.len() == n,
            totals@.len() == n,
            forall|u: int, s: int|
                0 <= u < n && 0 <= s < 3 ==> #[trigger] totals@[u][s] == local_score(
                    strategies@,
                    scores@,
                    network@.edges,
                    u,
                    s,
                ),
            forall|u: int, s: int|
                0 <= u < v && 0 <= s < 3 ==> i32::MIN <= #[trigger] local_score(
                    strategies@,
                    scores@,
                    network@.edges,
                    u,
                    s,
                ) <= i32::MAX,
        decreases n - v,
    {
        let wide = totals[v];
        let mut s: usize = 0;
        while s < 3
            invariant
                s <= 3,
                v < n,
                n == network@.vertex_count,
                totals@.len() == n,
                wide == totals@[v as int],
                forall|t: int|
                    0 <= t < 3 ==> #[trigger] totals@[v as int][t] == local_score(
                        strategies@,
                        scores@,
                        network@.edges,
                        v as int,
                        t,
                    ),
                forall|t: int|
                    0 <= t < s ==> i32::MIN <= #[trigger] local_score(
                        strategies@,
                        scores@,
                        network@.edges,
                        v as int,
                        t,
                    ) <= i32::MAX,
            decreases 3 - s,
        {
            if wide[s] < i32::MIN as i128 || wide[s] > i32::MAX as i128 {
                return false;
            }
            s += 1;
        }
        v += 1;
    }
    true
}

} // verus!
