//! Seeding a population before the first generation.

use vstd::prelude::*;
use crate::random::random_byte;
use crate::strategy::Strategy;

verus! {

/// The strategies that the given bytes stand for, one for one.
pub fn strategies_from_bytes(bytes: &[u8]) -> (strategies: Vec<Strategy>)
    ensures
        strategies@.len() == bytes@.len(),
        forall|v: int|
            0 <= v < bytes@.len() ==> #[trigger] strategies@[v] == Strategy::of_ordinal(
                bytes@[v] as int % 3,
            ),
{
    let mut strategies: Vec<Strategy> = Vec::new();
    let mut v: usize = 0;
    while v < bytes.len()
        invariant
            v <= bytes@.len(),
            strategies@.len() == v,
            forall|u: int|
                0 <= u < v ==> #[trigger] strategies@[u] == Strategy::of_ordinal(
                    bytes@[u] as int % 3,
                ),
        decreases bytes@.len() - v,
    {
        strategies.push(Strategy::from_byte(bytes[v]));
        v += 1;
    }
    strategies
}

/// A strategy for each of `count` vertices, each from one random byte of the
/// running thread's generator. Every assignment of that length can come back.
pub fn random_strategies(count: usize) -> (strategies: Vec<Strategy>)
    ensures
        strategies@.len() == count,
{
    let mut bytes: Vec<u8> = Vec::new();
    let mut v: usize = 0;
    while v < count
        invariant
            v <= count,
            bytes@.len() == v,
        decreases count - v,
    {
        bytes.push(random_byte());
        v += 1;
    }
    strategies_from_bytes(bytes.as_slice())
}

} // verus!
