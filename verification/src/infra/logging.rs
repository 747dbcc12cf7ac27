//! Keeping the directory of logs small.

use vstd::prelude::*;

verus! {

/// Milliseconds of a day.
pub const DAY_MS: u64 = 86_400_000;

/// A log is old when it was changed last more than `max_days` days ago.
pub open spec fn is_old(modified_ms: int, now_ms: int, max_days: int) -> bool {
    modified_ms < now_ms - max_days * DAY_MS
}

pub fn is_old_log(modified_ms: u64, now_ms: u64, max_days: u64) -> (r: bool)
    ensures
        r == is_old(modified_ms as int, now_ms as int, max_days as int),
{
    let limit: u128 = max_days as u128 * 86_400_000;
    now_ms as u128 > limit && (modified_ms as u128) < now_ms as u128 - limit
}

/// The logs that are old, by their numbers, in order. `None` stands for a time that
/// cannot be read: such a log stays.
pub fn cleanup_old_logs(modified_ms: &Vec<Option<u64>>, now_ms: u64, max_days: u64) -> (r: Vec<
    usize,
>)
    ensures
        forall|i: int|
            0 <= i < modified_ms@.len() ==> (r@.contains(i as usize) <==> (
            #[trigger] modified_ms@[i]) is Some && is_old(
                modified_ms@[i]->0 as int,
                now_ms as int,
                max_days as int,
            )),
        forall|k: int| 0 <= k < r@.len() ==> (#[trigger] r@[k]) < modified_ms@.len(),
        forall|k: int, l: int| 0 <= k < l < r@.len() ==> #[trigger] r@[k] < #[trigger] r@[l],
{
    let mut out: Vec<usize> = Vec::new();
    let mut i: usize = 0;
    while i < modified_ms.len()
        invariant
            i <= modified_ms@.len(),
            forall|k: int|
                0 <= k < i ==> (out@.contains(k as usize) <==> (
                #[trigger] modified_ms@[k]) is Some && is_old(
                    modified_ms@[k]->0 as int,
                    now_ms as int,
                    max_days as int,
                )),
            forall|k: int| 0 <= k < out@.len() ==> (#[trigger] out@[k]) < i,
            forall|k: int, l: int|
                0 <= k < l < out@.len() ==> #[trigger] out@[k] < #[trigger] out@[l],
        decreases modified_ms@.len() - i,
    {
        let ghost was = out@;
        let old_one = match modified_ms[i] {
            Some(t) => is_old_log(t, now_ms, max_days),
            None => false,
        };
        if old_one {
            out.push(i);
            assert(out@[was.len() as int] == i);
        }
        assert forall|k: int| 0 <= k < i + 1 implies (out@.contains(k as usize) <==> (
        #[trigger] modified_ms@[k]) is Some && is_old(
            modified_ms@[k]->0 as int,
            now_ms as int,
            max_days as int,
        )) by {
            if k < i {
                if was.contains(k as usize) {
                    let w = choose|w: int| 0 <= w < was.len() && was[w] == k as usize;
                    assert(out@[w] == k as usize);
                }
            }
        }
        i = i + 1;
    }
    out
}

} // verus!
