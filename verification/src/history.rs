//! A bounded trail of the strategies a vertex has played, newest last.

use std::collections::VecDeque;
use vstd::prelude::*;
use crate::strategy::Strategy;

verus! {

/// The number of generations a trail remembers.
pub const HISTORY_LENGTH: usize = 40;

/// The trail after one more generation: a full trail forgets its oldest entry,
/// then the new strategy is appended.
pub open spec fn trail(history: Seq<Strategy>, strategy: Strategy) -> Seq<Strategy> {
    (if history.len() == HISTORY_LENGTH {
        history.skip(1)
    } else {
        history
    }).push(strategy)
}

/// The trail of a vertex that has played `played`, oldest first, starting
/// from an empty trail.
pub open spec fn trail_of(played: Seq<Strategy>) -> Seq<Strategy>
    decreases played.len(),
{
    if played.len() == 0 {
        Seq::<Strategy>::empty()
    } else {
        trail(trail_of(played.drop_last()), played.last())
    }
}

/// A trail is a window on what was played: it holds the last `HISTORY_LENGTH`
/// strategies, or all of them while they are fewer.
pub proof fn lemma_trail_is_a_window(played: Seq<Strategy>)
    ensures
        trail_of(played) == (if played.len() <= HISTORY_LENGTH {
            played
        } else {
            played.skip(played.len() - HISTORY_LENGTH)
        }),
    decreases played.len(),
{
    if played.len() > 0 {
        let earlier = played.drop_last();
        lemma_trail_is_a_window(earlier);
        if played.len() <= HISTORY_LENGTH {
            assert(trail_of(played) =~= played);
        } else {
            assert(trail_of(played) =~= played.skip(played.len() - HISTORY_LENGTH));
        }
    }
}

/// An empty trail for each of `count` vertices.
pub fn new_histories(count: usize) -> (histories: Vec<VecDeque<Strategy>>)
    ensures
        histories@.len() == count,
        forall|v: int| 0 <= v < count ==> (#[trigger] histories@[v])@ == Seq::<Strategy>::empty(),
{
    let mut histories: Vec<VecDeque<Strategy>> = Vec::new();
    let mut v: usize = 0;
    while v < count
        invariant
            v <= count,
            histories@.len() == v,
            forall|u: int| 0 <= u < v ==> (#[trigger] histories@[u])@ == Seq::<Strategy>::empty(),
        decreases count - v,
    {
        histories.push(VecDeque::with_capacity(HISTORY_LENGTH));
        v += 1;
    }
    histories
}

/// Appends the strategy of the new generation to a trail, dropping the oldest
/// entry of a full one.
pub fn record(history: &mut VecDeque<Strategy>, strategy: Strategy)
    ensures
        final(history)@ == trail(old(history)@, strategy),
        old(history)@.len() <= HISTORY_LENGTH ==> final(history)@.len() <= HISTORY_LENGTH,
{
    if history.len() == HISTORY_LENGTH {
        history.pop_front();
    }
    history.push_back(strategy);
}

/// Appends to the trail of every vertex the strategy it plays now.
pub fn record_generation(histories: &mut Vec<VecDeque<Strategy>>, strategies: &[Strategy])
    requires
        old(histories)@.len() == strategies@.len(),
    ensures
        final(histories)@.len() == old(histories)@.len(),
        forall|v: int|
            0 <= v < strategies@.len() ==> (#[trigger] final(histories)@[v])@ == trail(
                old(histories)@[v]@,
                strategies@[v],
            ),
{
    let ghost before = histories@;
    let mut v: usize = 0;
    while v < strategies.len()
        invariant
            v <= strategies@.len(),
            histories@.len() == strategies@.len(),
            before.len() == strategies@.len(),
            forall|u: int|
                0 <= u < v ==> (#[trigger] histories@[u])@ == trail(before[u]@, strategies@[u]),
            forall|u: int| v <= u < strategies@.len() ==> #[trigger] histories@[u] == before[u],
        decreases strategies@.len() - v,
    {
        record(&mut histories[v], strategies[v]);
        v += 1;
    }
}

/// How often each strategy occurs in a trail, by ordinal. The three counts
/// add up to the length of the trail.
pub fn history_counts(history: &VecDeque<Strategy>) -> (counts: [usize; 3])
    ensures
        forall|s: Strategy| #[trigger]
            counts[s.ordinal()] == history@.to_multiset().count(s),
        counts[0] + counts[1] + counts[2] == history@.len(),
{
    let mut counts: [usize; 3] = [0, 0, 0];
    let mut k: usize = 0;
    proof {
        assert(history@.take(0) == Seq::<Strategy>::empty());
        history@.take(0).to_multiset_ensures();
    }
    while k < history.len()
        invariant
            k <= history@.len(),
            forall|s: Strategy| #[trigger]
                counts[s.ordinal()] == history@.take(k as int).to_multiset().count(s),
            counts[0] + counts[1] + counts[2] == k,
        decreases history@.len() - k,
    {
        let slot = history[k].to_index();
        proof {
            assert(history@.take(k + 1) == history@.take(k as int).push(history@[k as int]));
            history@.take(k as int).to_multiset_ensures();
        }
        counts[slot] = counts[slot] + 1;
        k += 1;
    }
    proof {
        assert(history@.take(k as int) == history@);
    }
    counts
}

} // verus!
