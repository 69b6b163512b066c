use crate::reconnect::millis_duration;
use std::time::Duration;
use vstd::prelude::*;

verus! {

/// The entries restored after the active one, each with its original index:
/// every item below `k` except the active one, in order.
pub open spec fn staggered_rest<T>(items: Seq<T>, active: usize, k: nat) -> Seq<(usize, T)>
    decreases k,
{
    if k == 0 {
        Seq::empty()
    } else {
        let r = staggered_rest(items, active, (k - 1) as nat);
        if k - 1 == active {
            r
        } else {
            r.push((((k - 1) as int) as usize, items[k - 1]))
        }
    }
}

/// The staggered part holds each non-active index below `k` once, in
/// increasing order, with its item.
pub proof fn lemma_staggered_rest<T>(items: Seq<T>, active: usize, k: nat)
    requires
        k <= items.len(),
        items.len() <= usize::MAX,
    ensures
        staggered_rest(items, active, k).len() == if active < k {
            k - 1
        } else {
            k as int
        },
        forall|i: int|
            0 <= i < staggered_rest(items, active, k).len() ==> {
                let (idx, item) = #[trigger] staggered_rest(items, active, k)[i];
                &&& idx < k
                &&& idx != active
                &&& item == items[idx as int]
            },
        forall|i: int, j: int|
            0 <= i < j < staggered_rest(items, active, k).len() ==> (#[trigger] staggered_rest(
                items,
                active,
                k,
            )[i]).0 < (#[trigger] staggered_rest(items, active, k)[j]).0,
    decreases k,
{
    if k > 0 {
        lemma_staggered_rest(items, active, (k - 1) as nat);
    }
}

/// Staggered restore scheduler: brings the active session up at once and
/// the others one by one, an interval apart, so that restoring many
/// servers does not flood the network.
pub struct StaggeredScheduler {
    interval_ms: u64,
}

impl StaggeredScheduler {
    pub fn new(interval_ms: u64) -> (s: Self)
        ensures
            s.spec_interval_ms() == interval_ms,
    {
        StaggeredScheduler { interval_ms }
    }

    pub closed spec fn spec_interval_ms(&self) -> u64 {
        self.interval_ms
    }

    /// The pause between two staggered restores, in milliseconds.
    pub fn interval_ms(&self) -> (ms: u64)
        ensures
            ms == self.spec_interval_ms(),
    {
        self.interval_ms
    }

    /// The pause between two staggered restores.
    pub fn interval(&self) -> (d: Duration)
        ensures
            d == millis_duration(self.spec_interval_ms()),
    {
        crate::reconnect::duration_from_millis(self.interval_ms)
    }

    /// Splits the items to restore: the one at `active_index` (if there is
    /// one) is to be connected at once; the others follow in their order,
    /// each paired with its original index.
    pub fn plan<T>(&self, items: Vec<T>, active_index: usize) -> (r: (Option<(usize, T)>, Vec<(usize, T)>))
        ensures
            r.0 == if active_index < items@.len() {
                Some((active_index, items@[active_index as int]))
            } else {
                None
            },
            r.1@ == staggered_rest(items@, active_index, items@.len()),
    {
        let ghost orig = items@;
        let n = items.len();
        let mut items = items;
        let mut remaining: Vec<(usize, T)> = Vec::new();
        let mut active_item: Option<(usize, T)> = None;
        let mut idx: usize = 0;
        while idx < n
            invariant
                n == orig.len(),
                idx <= n,
                items@ == orig.subrange(idx as int, n as int),
                remaining@ == staggered_rest(orig, active_index, idx as nat),
                active_item == if active_index < idx {
                    Some((active_index, orig[active_index as int]))
                } else {
                    None
                },
            decreases n - idx,
        {
            let item = items.remove(0);
            assert(item == orig[idx as int]);
            if idx == active_index {
                active_item = Some((idx, item));
            } else {
                remaining.push((idx, item));
            }
            idx = idx + 1;
            assert(items@ =~= orig.subrange(idx as int, n as int));
        }
        (active_item, remaining)
    }
}

} // verus!
