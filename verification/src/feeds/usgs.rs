//! USGS earthquake feed: which parsed events are kept and the order in
//! which they form the time series.

use vstd::prelude::*;

verus! {

/// In a chronological listing, event `a` comes before event `b`: it is
/// earlier, or simultaneous and earlier in the feed (the order is stable).
pub open spec fn earlier_first(t: Seq<i64>, a: int, b: int) -> bool {
    t[a] < t[b] || (t[a] == t[b] && a < b)
}

/// `r` lists every index `j` with `keep[j]` exactly once, in
/// `earlier_first` order.
pub open spec fn is_chronological(t: Seq<i64>, keep: Seq<bool>, r: Seq<usize>) -> bool {
    &&& forall|k: int| 0 <= k < r.len() ==> #[trigger] r[k] < t.len() && keep[r[k] as int]
    &&& forall|a: int, b: int|
        0 <= a < b < r.len() ==> earlier_first(t, #[trigger] r[a] as int, #[trigger] r[b] as int)
    &&& forall|j: int| 0 <= j < t.len() && #[trigger] keep[j] ==> r.contains(j as usize)
}

/// The kept events (those with a magnitude and full coordinates), by event
/// time in milliseconds, earliest first; events with equal times keep their
/// feed order.
pub fn chronological(times: &Vec<i64>, keep: &Vec<bool>) -> (r: Vec<usize>)
    requires
        times.len() == keep.len(),
    ensures
        is_chronological(times@, keep@, r@),
{
    let n = times.len();
    let mut sorted: Vec<usize> = Vec::new();
    let mut i: usize = 0;
    while i < n
        invariant
            n == times.len(),
            n == keep.len(),
            i <= n,
            forall|k: int| 0 <= k < sorted.len() ==> #[trigger] sorted[k] < i && keep[sorted[k] as int],
            forall|a: int, b: int|
                0 <= a < b < sorted.len() ==> earlier_first(
                    times@,
                    #[trigger] sorted[a] as int,
                    #[trigger] sorted[b] as int,
                ),
            forall|j: int| 0 <= j < i && #[trigger] keep[j] ==> sorted@.contains(j as usize),
        decreases n - i,
    {
        if keep[i] {
            let ti = times[i];
            let mut p: usize = 0;
            while p < sorted.len() && !(ti < times[sorted[p]])
                invariant
                    n == times.len(),
                    i < n,
                    ti == times@[i as int],
                    p <= sorted.len(),
                    forall|k: int| 0 <= k < sorted.len() ==> #[trigger] sorted[k] < i,
                    forall|k: int| 0 <= k < p ==> earlier_first(times@, #[trigger] sorted[k] as int, i as int),
                decreases sorted.len() - p,
            {
                p = p + 1;
            }
            let ghost old_sorted = sorted@;
            proof {
                if p < sorted.len() {
                    assert forall|b: int| p <= b < old_sorted.len() implies earlier_first(
                        times@,
                        i as int,
                        #[trigger] old_sorted[b] as int,
                    ) by {
                        if b > p {
                            assert(earlier_first(times@, old_sorted[p as int] as int, old_sorted[b] as int));
                        }
                    }
                }
            }
            sorted.insert(p, i);
            proof {
                assert forall|a: int, b: int|
                    0 <= a < b < sorted.len() implies earlier_first(
                        times@,
                        #[trigger] sorted[a] as int,
                        #[trigger] sorted[b] as int,
                    ) by {
                    if a < p && b < p {
                        assert(sorted[a] == old_sorted[a] && sorted[b] == old_sorted[b]);
                    } else if a < p && b == p {
                    } else if a < p {
                        assert(sorted[b] == old_sorted[b - 1]);
                    } else if a == p {
                        assert(sorted[b] == old_sorted[b - 1]);
                    } else {
                        assert(sorted[a] == old_sorted[a - 1] && sorted[b] == old_sorted[b - 1]);
                        assert(earlier_first(times@, old_sorted[a - 1] as int, old_sorted[b - 1] as int));
                    }
                }
                assert forall|j: int| 0 <= j < i + 1 && #[trigger] keep[j] implies sorted@.contains(j as usize) by {
                    if j == i {
                        assert(sorted@[p as int] == i);
                    } else {
                        let q = choose|q: int| 0 <= q < old_sorted.len() && old_sorted[q] == j as usize;
                        if q < p {
                            assert(sorted@[q] == j as usize);
                        } else {
                            assert(sorted@[q + 1] == j as usize);
                        }
                    }
                }
            }
        }
        i = i + 1;
    }
    sorted
}

} // verus!
