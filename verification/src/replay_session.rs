//! Progress estimate used by the replay runner that steps through every
//! recorded action.

use vstd::prelude::*;
use crate::replay::session::{lemma_max_tick_bounds, max_tick};

verus! {

/// Number of ticks shown for a replay: the last recorded tick, at least 1,
/// and 1 for a replay without actions. No recorded tick lies beyond it.
pub fn estimate_total_ticks(ticks: &[i64]) -> (r: u64)
    ensures
        r == (if ticks@.len() == 0 {
            1
        } else if max_tick(ticks@, ticks@.len() as int) >= 1 {
            max_tick(ticks@, ticks@.len() as int)
        } else {
            1
        }),
        r >= 1,
        forall|i: int| 0 <= i < ticks@.len() ==> ticks@[i] <= r,
{
    proof {
        lemma_max_tick_bounds(ticks@, ticks@.len() as int);
    }
    if ticks.len() == 0 {
        return 1;
    }
    let mut max: i64 = 0;
    let mut i: usize = 0;
    while i < ticks.len()
        invariant
            0 <= i <= ticks@.len(),
            max == max_tick(ticks@, i as int),
            max >= 0,
        decreases ticks@.len() - i,
    {
        if ticks[i] > max {
            max = ticks[i];
        }
        i = i + 1;
    }
    if max >= 1 {
        max as u64
    } else {
        1
    }
}

} // verus!
