//! Where the exponential of an integer is read from a table.
//!
//! The selection rule weighs a strategy by the exponential of its local score.
//! For the scores that occur in practice the value is read from a table that is
//! filled once; beyond the reach of the table it is computed on the spot. The
//! values themselves are floating-point numbers and live with the caller; what
//! is settled here is which argument has which place.

use vstd::prelude::*;

verus! {

/// The table covers the integers from `-TABLE_REACH` to `TABLE_REACH`.
pub const TABLE_REACH: i32 = 1000;

/// The number of entries of the table: one for each covered integer.
pub const TABLE_LEN: usize = 2001;

/// `n` is covered by the table.
pub open spec fn in_table(n: int) -> bool {
    -TABLE_REACH <= n <= TABLE_REACH
}

/// The place of `n` in the table, if the table covers `n`. Beyond its reach
/// there is no place, and the exponential is to be computed directly.
pub fn table_index(n: i32) -> (place: Option<usize>)
    ensures
        in_table(n as int) ==> place == Some((n + TABLE_REACH) as usize),
        !in_table(n as int) ==> place.is_none(),
        place matches Some(i) ==> i < TABLE_LEN,
{
    if -TABLE_REACH <= n && n <= TABLE_REACH {
        Some((n + TABLE_REACH) as usize)
    } else {
        None
    }
}

/// The integer whose exponential stands at place `i` of the table, if the
/// table has such a place.
pub fn table_argument(i: usize) -> (n: Option<i32>)
    ensures
        i < TABLE_LEN ==> n == Some((i - TABLE_REACH) as i32),
        i >= TABLE_LEN ==> n.is_none(),
        n matches Some(m) ==> in_table(m as int),
{
    if i < TABLE_LEN {
        Some(i as i32 - TABLE_REACH)
    } else {
        None
    }
}

/// Places and covered integers correspond one to one, in increasing order.
pub proof fn lemma_table_places(n: int, i: int)
    ensures
        in_table(n) ==> 0 <= n + TABLE_REACH < TABLE_LEN,
        0 <= i < TABLE_LEN ==> in_table(i - TABLE_REACH),
        TABLE_LEN == 2 * TABLE_REACH + 1,
{
}

} // verus!
