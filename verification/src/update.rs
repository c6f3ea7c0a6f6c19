//! The update pass: every vertex chooses its next strategy from one snapshot.

use vstd::prelude::*;
use crate::local_scores::{get_local_scores, is_local_row, local_scores_in_range};
use crate::network::{Network, Topology};
use crate::random::{next_word, thread_generator};
use crate::strategy::Strategy;

verus! {

/// A draw from the unit interval is held as a numerator over this scale, so
/// that draw `d` stands for the real number `d / DRAW_SCALE` in `[0, 1)`. The
/// scale is the number of points of the single-precision grid on that interval.
pub const DRAW_SCALE: u32 = 0x0100_0000;

/// The draw that a 32-bit random word gives: its 24 most significant bits.
pub fn draw_from_word(word: u32) -> (draw: u32)
    ensures
        draw == word / 256,
        draw < DRAW_SCALE,
{
    assert(word >> 8 == word / 256 && word >> 8 < 0x0100_0000u32) by (bit_vector);
    word >> 8
}

/// `choice` is an answer of `select` to the draw and the local score vector
/// of `v` in the given snapshot.
pub open spec fn chosen_by<F: Fn(u32, &[i32; 3]) -> Strategy>(
    select: F,
    draw: u32,
    strategies: Seq<Strategy>,
    scores: Seq<i32>,
    edges: Seq<(usize, usize)>,
    v: int,
    choice: Strategy,
) -> bool {
    exists|row: [i32; 3]| #[trigger]
        is_local_row(row, strategies, scores, edges, v) && call_ensures(
            select,
            (draw, &row),
            choice,
        )
}

/// `select` accepts the draw together with the local score vector of `v`.
pub open spec fn selectable<F: Fn(u32, &[i32; 3]) -> Strategy>(
    select: F,
    draw: u32,
    strategies: Seq<Strategy>,
    scores: Seq<i32>,
    edges: Seq<(usize, usize)>,
    v: int,
) -> bool {
    forall|row: [i32; 3]| #[trigger]
        is_local_row(row, strategies, scores, edges, v) ==> call_requires(select, (draw, &row))
}

/// `next` is a generation after the snapshot: it has a strategy for each
/// vertex, and the strategy of `v` is an answer of `select` to the draw of
/// `v` and to what `v` saw in the snapshot. No entry of `next` is mentioned
/// on the right-hand side.
pub open spec fn is_update<F: Fn(u32, &[i32; 3]) -> Strategy>(
    select: F,
    draws: Seq<u32>,
    strategies: Seq<Strategy>,
    scores: Seq<i32>,
    net: Topology,
    next: Seq<Strategy>,
) -> bool {
    &&& next.len() == net.vertex_count
    &&& forall|v: int|
        0 <= v < net.vertex_count ==> chosen_by(
            select,
            draws[v],
            strategies,
            scores,
            net.edges,
            v,
            #[trigger] next[v],
        )
}

/// Replaces the strategies by the next generation, using the given draws: the
/// local score vectors are taken from the strategies and scores as they are on
/// entry, `select` answers for each vertex in turn, and only then is the whole
/// assignment exchanged. The scores are read only.
pub fn update_strategies_from<F: Fn(u32, &[i32; 3]) -> Strategy>(
    strategies: &mut Vec<Strategy>,
    scores: &[i32],
    network: &Network,
    draws: &[u32],
    select: F,
)
    requires
        network.wf(),
        local_scores_in_range(old(strategies)@, scores@, network@),
        draws@.len() == network@.vertex_count,
        forall|v: int|
            0 <= v < network@.vertex_count ==> selectable(
                select,
                #[trigger] draws@[v],
                old(strategies)@,
                scores@,
                network@.edges,
                v,
            ),
    ensures
        is_update(select, draws@, old(strategies)@, scores@, network@, final(strategies)@),
{
    let local = get_local_scores(strategies.as_slice(), scores, network);
    let n = local.len();
    let mut next: Vec<Strategy> = Vec::new();
    let mut v: usize = 0;
    while v < n
        invariant
            v <= n,
            n == network@.vertex_count,
            local@.len() == n,
            draws@.len() == n,
            strategies@ == old(strategies)@,
            forall|u: int|
                0 <= u < n ==> is_local_row(
                    #[trigger] local@[u],
                    strategies@,
                    scores@,
                    network@.edges,
                    u,
                ),
            forall|u: int|
                0 <= u < n ==> selectable(
                    select,
                    #[trigger] draws@[u],
                    strategies@,
                    scores@,
                    network@.edges,
                    u,
                ),
            next@.len() == v,
            forall|u: int|
                0 <= u < v ==> chosen_by(
                    select,
                    draws@[u],
                    strategies@,
                    scores@,
                    network@.edges,
                    u,
                    #[trigger] next@[u],
                ),
        decreases n - v,
    {
        let draw = draws[v];
        let choice = select(draw, &local[v]);
        next.push(choice);
        v += 1;
    }
    *strategies = next;
}

/// Every draw is below `DRAW_SCALE`.
pub open spec fn draws_in_scale(draws: Seq<u32>) -> bool {
    forall|v: int| 0 <= v < draws.len() ==> #[trigger] draws[v] < DRAW_SCALE
}

/// `select` accepts every draw below `DRAW_SCALE` together with the local
/// score vector of any vertex in the snapshot.
pub open spec fn answers_every_draw<F: Fn(u32, &[i32; 3]) -> Strategy>(
    select: F,
    strategies: Seq<Strategy>,
    scores: Seq<i32>,
    net: Topology,
) -> bool {
    forall|draw: u32, v: int|
        draw < DRAW_SCALE && 0 <= v < net.vertex_count ==> #[trigger] selectable(
            select,
            draw,
            strategies,
            scores,
            net.edges,
            v,
        )
}

/// `next` is a generation after the snapshot under some draws, one for each
/// vertex and all below `DRAW_SCALE`.
pub open spec fn is_update_under_some_draws<F: Fn(u32, &[i32; 3]) -> Strategy>(
    select: F,
    strategies: Seq<Strategy>,
    scores: Seq<i32>,
    net: Topology,
    next: Seq<Strategy>,
) -> bool {
    exists|draws: Seq<u32>|
        draws.len() == net.vertex_count && draws_in_scale(draws) && #[trigger] is_update(
            select,
            draws,
            strategies,
            scores,
            net,
            next,
        )
}

/// Replaces the strategies by the next generation, with one fresh draw for
/// each vertex. All the draws are made first, in vertex order, from the
/// generator of the running thread; the rest is `update_strategies_from`.
/// Which draws were made is not known beforehand: there are some, all below
/// `DRAW_SCALE`, of which the result is the update.
pub fn update_strategies<F: Fn(u32, &[i32; 3]) -> Strategy>(
    strategies: &mut Vec<Strategy>,
    scores: &[i32],
    network: &Network,
    select: F,
)
    requires
        network.wf(),
        local_scores_in_range(old(strategies)@, scores@, network@),
        answers_every_draw(select, old(strategies)@, scores@, network@),
    ensures
        is_update_under_some_draws(
            select,
            old(strategies)@,
            scores@,
            network@,
            final(strategies)@,
        ),
{
    let n = network.vertex_count();
    let mut generator = thread_generator();
    let mut draws: Vec<u32> = Vec::new();
    let mut v: usize = 0;
    while v < n
        invariant
            v <= n,
            draws@.len() == v,
            draws_in_scale(draws@),
        decreases n - v,
    {
        let word = next_word(&mut generator);
        draws.push(draw_from_word(word));
        v += 1;
    }
    update_strategies_from(strategies, scores, network, draws.as_slice(), select);
}

/// `select` gives one answer to each question.
pub open spec fn deterministic<F: Fn(u32, &[i32; 3]) -> Strategy>(select: F) -> bool {
    forall|draw: u32, row: [i32; 3], a: Strategy, b: Strategy|
        #![trigger call_ensures(select, (draw, &row), a), call_ensures(select, (draw, &row), b)]
        call_ensures(select, (draw, &row), a) && call_ensures(select, (draw, &row), b) ==> a == b
}

/// A generation is settled by the snapshot and the draws alone. With a rule
/// that gives one answer to each question, any two updates of the same
/// snapshot under the same draws agree, in whatever order the vertices were
/// served: no vertex can have seen the new strategy of another.
pub proof fn lemma_update_is_determined<F: Fn(u32, &[i32; 3]) -> Strategy>(
    select: F,
    draws: Seq<u32>,
    strategies: Seq<Strategy>,
    scores: Seq<i32>,
    net: Topology,
    first: Seq<Strategy>,
    second: Seq<Strategy>,
)
    requires
        deterministic(select),
        is_update(select, draws, strategies, scores, net, first),
        is_update(select, draws, strategies, scores, net, second),
    ensures
        first == second,
{
    assert forall|v: int| 0 <= v < first.len() implies first[v] == second[v] by {
        assert(chosen_by(select, draws[v], strategies, scores, net.edges, v, first[v]));
        assert(chosen_by(select, draws[v], strategies, scores, net.edges, v, second[v]));
        let row_1 = choose|row: [i32; 3]| #[trigger]
            is_local_row(row, strategies, scores, net.edges, v) && call_ensures(
                select,
                (draws[v], &row),
                first[v],
            );
        let row_2 = choose|row: [i32; 3]| #[trigger]
            is_local_row(row, strategies, scores, net.edges, v) && call_ensures(
                select,
                (draws[v], &row),
                second[v],
            );
        assert(row_1 =~= row_2);
    }
    assert(first =~= second);
}

} // verus!
