//! Queries over the signal log: the listing (time and action filters,
//! newest first, limited) and the outcome tally behind the summary.

use vstd::prelude::*;
use crate::api::signals_db::{OutcomeResult, SignalHeader, Timestamp, ts_key};
use crate::text::{to_uppercase, uppercase};

verus! {

/// In a listing ordered newest first, the record at index `a` comes before
/// the one at index `b`: it is more recent, or equally recent and earlier in
/// the log (the order is stable).
pub open spec fn newer_first(t: Seq<Timestamp>, a: int, b: int) -> bool {
    ts_key(t[a]) > ts_key(t[b]) || (ts_key(t[a]) == ts_key(t[b]) && a < b)
}

/// `r` lists, newest first, the first `limit` indices `j` of `t` with
/// `keep[j]`: every listed index is kept, the list is in `newer_first`
/// order, and a kept index is left out only when the list is full and every
/// listed index comes before it.
pub open spec fn is_newest_selection(
    t: Seq<Timestamp>,
    keep: Seq<bool>,
    limit: nat,
    r: Seq<usize>,
) -> bool {
    &&& r.len() <= limit
    &&& forall|k: int| 0 <= k < r.len() ==> #[trigger] r[k] < t.len() && keep[r[k] as int]
    &&& forall|a: int, b: int|
        0 <= a < b < r.len() ==> newer_first(t, #[trigger] r[a] as int, #[trigger] r[b] as int)
    &&& forall|j: int|
        0 <= j < t.len() && #[trigger] keep[j] && !r.contains(j as usize) ==> {
            &&& r.len() == limit
            &&& forall|k: int| 0 <= k < r.len() ==> newer_first(t, #[trigger] r[k] as int, j)
        }
}

/// The indices `j` with `keep[j]`, newest first (ties in log order), cut to
/// the first `limit`.
pub fn newest_first(times: &Vec<Timestamp>, keep: &Vec<bool>, limit: usize) -> (r: Vec<usize>)
    requires
        times.len() == keep.len(),
    ensures
        is_newest_selection(times@, keep@, limit as nat, r@),
{
    let n = times.len();
    let mut sorted: Vec<usize> = Vec::new();
    let mut i: usize = 0;
    while i < n
        invariant
            n == times.len(),
            n == keep.len(),
            i <= n,
            forall|k: int| 0 <= k < sorted.len() ==> #[trigger] sorted[k] < i && keep[sorted[k] as int],
            forall|a: int, b: int|
                0 <= a < b < sorted.len() ==> newer_first(
                    times@,
                    #[trigger] sorted[a] as int,
                    #[trigger] sorted[b] as int,
                ),
            forall|j: int| 0 <= j < i && #[trigger] keep[j] ==> sorted@.contains(j as usize),
        decreases n - i,
    {
        if keep[i] {
            let ti = times[i];
            let mut p: usize = 0;
            while p < sorted.len() && !ti.after(&times[sorted[p]])
                invariant
                    n == times.len(),
                    i < n,
                    ti == times@[i as int],
                    p <= sorted.len(),
                    forall|k: int| 0 <= k < sorted.len() ==> #[trigger] sorted[k] < i,
                    forall|k: int| 0 <= k < p ==> newer_first(times@, #[trigger] sorted[k] as int, i as int),
                decreases sorted.len() - p,
            {
                p = p + 1;
            }
            let ghost old_sorted = sorted@;
            proof {
                if p < sorted.len() {
                    // `i` comes before `sorted[p]`, hence before everything after it.
                    assert forall|b: int| p <= b < old_sorted.len() implies newer_first(
                        times@,
                        i as int,
                        #[trigger] old_sorted[b] as int,
                    ) by {
                        if b > p {
                            assert(newer_first(times@, old_sorted[p as int] as int, old_sorted[b] as int));
                        }
                    }
                }
            }
            sorted.insert(p, i);
            proof {
                assert forall|a: int, b: int|
                    0 <= a < b < sorted.len() implies newer_first(
                        times@,
                        #[trigger] sorted[a] as int,
                        #[trigger] sorted[b] as int,
                    ) by {
                    if a < p && b < p {
                        assert(sorted[a] == old_sorted[a] && sorted[b] == old_sorted[b]);
                    } else if a < p && b == p {
                    } else if a < p {
                        assert(sorted[b] == old_sorted[b - 1]);
                    } else if a == p {
                        assert(sorted[b] == old_sorted[b - 1]);
                    } else {
                        assert(sorted[a] == old_sorted[a - 1] && sorted[b] == old_sorted[b - 1]);
                        assert(newer_first(times@, old_sorted[a - 1] as int, old_sorted[b - 1] as int));
                    }
                }
                assert forall|j: int| 0 <= j < i + 1 && #[trigger] keep[j] implies sorted@.contains(j as usize) by {
                    if j == i {
                        assert(sorted@[p as int] == i);
                    } else {
                        let q = choose|q: int| 0 <= q < old_sorted.len() && old_sorted[q] == j as usize;
                        if q < p {
                            assert(sorted@[q] == j as usize);
                        } else {
                            assert(sorted@[q + 1] == j as usize);
                        }
                    }
                }
            }
        }
        i = i + 1;
    }
    let ghost full = sorted@;
    sorted.truncate(limit);
    proof {
        assert forall|j: int| 0 <= j < n && #[trigger] keep@[j] && !sorted@.contains(j as usize) implies {
            &&& sorted@.len() == limit
            &&& forall|k: int| 0 <= k < sorted@.len() ==> newer_first(times@, #[trigger] sorted@[k] as int, j)
        } by {
            let q = choose|q: int| 0 <= q < full.len() && full[q] == j as usize;
            if q < sorted@.len() {
                assert(sorted@[q] == j as usize);
            }
            assert forall|k: int| 0 <= k < sorted@.len() implies newer_first(times@, #[trigger] sorted@[k] as int, j) by {
                assert(sorted@[k] == full[k]);
                assert(newer_first(times@, full[k] as int, full[q] as int));
            }
        }
    }
    sorted
}

/// Two newest-first selections of the same records agree position by
/// position, up to the shorter one.
proof fn lemma_selections_agree(
    t: Seq<Timestamp>,
    keep: Seq<bool>,
    l1: nat,
    l2: nat,
    r1: Seq<usize>,
    r2: Seq<usize>,
    k: int,
)
    requires
        is_newest_selection(t, keep, l1, r1),
        is_newest_selection(t, keep, l2, r2),
        0 <= k < r1.len(),
        k < r2.len(),
    ensures
        r1[k] == r2[k],
    decreases k,
{
    if k > 0 {
        lemma_selections_agree(t, keep, l1, l2, r1, r2, k - 1);
    }
    let x = r1[k];
    let y = r2[k];
    if x != y {
        // Either `x` comes before `y` in the listing order, or after it.
        if newer_first(t, x as int, y as int) {
            assert(keep[x as int]);
            if r2.contains(x) {
                let m = choose|m: int| 0 <= m < r2.len() && r2[m] == x;
                if m < k {
                    lemma_selections_agree(t, keep, l1, l2, r1, r2, m);
                    assert(newer_first(t, r1[m] as int, r1[k] as int));
                } else {
                    assert(newer_first(t, r2[k] as int, r2[m] as int));
                }
            } else {
                assert(newer_first(t, r2[k] as int, x as int));
            }
        } else {
            assert(newer_first(t, y as int, x as int));
            assert(keep[y as int]);
            if r1.contains(y) {
                let m = choose|m: int| 0 <= m < r1.len() && r1[m] == y;
                if m < k {
                    lemma_selections_agree(t, keep, l1, l2, r1, r2, m);
                    assert(newer_first(t, r2[m] as int, r2[k] as int));
                } else {
                    assert(newer_first(t, r1[k] as int, r1[m] as int));
                }
            } else {
                assert(newer_first(t, r1[k] as int, y as int));
            }
        }
    }
}

/// A listing is determined by its records, filters and limit, and a
/// smaller limit lists a prefix of what a larger one lists: the newest
/// records come first whatever the limit.
pub proof fn law_listing_limits_nest(
    t: Seq<Timestamp>,
    keep: Seq<bool>,
    l1: nat,
    l2: nat,
    r1: Seq<usize>,
    r2: Seq<usize>,
)
    requires
        is_newest_selection(t, keep, l1, r1),
        is_newest_selection(t, keep, l2, r2),
        l1 <= l2,
    ensures
        r1.len() <= r2.len(),
        r1 == r2.take(r1.len() as int),
        l1 == l2 ==> r1 == r2,
{
    if r1.len() > r2.len() {
        // `r2` is not full, so it lists every kept record, `r1[r2.len()]`
        // among them, at a position where `r1` holds another record.
        let x = r1[r2.len() as int];
        assert(keep[x as int]);
        assert(r2.contains(x)) by {
            if !r2.contains(x) {
                assert(r2.len() == l2);
            }
        }
        let m = choose|m: int| 0 <= m < r2.len() && r2[m] == x;
        lemma_selections_agree(t, keep, l1, l2, r1, r2, m);
        assert(newer_first(t, r1[m] as int, r1[r2.len() as int] as int));
    }
    assert forall|k: int| 0 <= k < r1.len() implies r1[k] == r2.take(r1.len() as int)[k] by {
        lemma_selections_agree(t, keep, l1, l2, r1, r2, k);
    }
    assert(r1 =~= r2.take(r1.len() as int));
    if l1 == l2 {
        if r2.len() > r1.len() {
            let x = r2[r1.len() as int];
            assert(keep[x as int]);
            assert(r1.contains(x)) by {
                if !r1.contains(x) {
                    assert(r1.len() == l1);
                }
            }
            let m = choose|m: int| 0 <= m < r1.len() && r1[m] == x;
            lemma_selections_agree(t, keep, l1, l2, r1, r2, m);
            assert(newer_first(t, r2[m] as int, r2[r1.len() as int] as int));
        }
        assert(r1 =~= r2);
    }
}

pub open spec fn header_times(h: Seq<SignalHeader>) -> Seq<Timestamp> {
    Seq::new(h.len(), |i: int| h[i].timestamp)
}

/// Whether a record passes the optional time filter (at or after `since`)
/// and the optional action filter (same uppercase form).
pub open spec fn passes_filters(
    h: SignalHeader,
    since: Option<Timestamp>,
    action: Option<Seq<char>>,
) -> bool {
    &&& (since matches Some(s) ==> ts_key(h.timestamp) >= ts_key(s))
    &&& (action matches Some(a) ==> uppercase(h.action@) == uppercase(a))
}

pub open spec fn filter_flags(
    h: Seq<SignalHeader>,
    since: Option<Timestamp>,
    action: Option<Seq<char>>,
) -> Seq<bool> {
    Seq::new(h.len(), |i: int| passes_filters(h[i], since, action))
}

pub open spec fn opt_view(a: Option<&str>) -> Option<Seq<char>> {
    match a {
        Some(s) => Some(s@),
        None => None,
    }
}

/// The number of records a listing returns when the caller names no limit.
pub const DEFAULT_LIMIT: usize = 200;

/// The signal listing: the indices of the records that pass the filters,
/// newest first (ties in log order), at most `limit` of them (200 when no
/// limit is given).
pub fn select_signals(
    headers: &Vec<SignalHeader>,
    since: Option<Timestamp>,
    action: Option<&str>,
    limit: Option<usize>,
) -> (r: Vec<usize>)
    ensures
        is_newest_selection(
            header_times(headers@),
            filter_flags(headers@, since, opt_view(action)),
            (match limit {
                Some(l) => l,
                None => DEFAULT_LIMIT,
            }) as nat,
            r@,
        ),
{
    let wanted: Option<String> = match action {
        Some(a) => Some(to_uppercase(a)),
        None => None,
    };
    let n = headers.len();
    let mut times: Vec<Timestamp> = Vec::new();
    let mut keep: Vec<bool> = Vec::new();
    let mut i: usize = 0;
    while i < n
        invariant
            n == headers.len(),
            i <= n,
            times.len() == i,
            keep.len() == i,
            forall|k: int| 0 <= k < i ==> #[trigger] times@[k] == headers@[k].timestamp,
            forall|k: int|
                0 <= k < i ==> #[trigger] keep@[k] == passes_filters(headers@[k], since, opt_view(action)),
            match action {
                Some(a) => wanted matches Some(w) && w@ == uppercase(a@),
                None => wanted is None,
            },
        decreases n - i,
    {
        let h = &headers[i];
        let recent_enough = match since {
            Some(s) => h.timestamp.at_or_after(&s),
            None => true,
        };
        let action_ok = match &wanted {
            Some(w) => {
                let u = to_uppercase(h.action.as_str());
                u == *w
            },
            None => true,
        };
        times.push(h.timestamp);
        keep.push(recent_enough && action_ok);
        i = i + 1;
    }
    assert(times@ =~= header_times(headers@));
    assert(keep@ =~= filter_flags(headers@, since, opt_view(action)));
    let lim = match limit {
        Some(l) => l,
        None => DEFAULT_LIMIT,
    };
    newest_first(&times, &keep, lim)
}

/// The number of records whose outcome is `o` (`None`: unresolved).
pub open spec fn count_outcome(h: Seq<SignalHeader>, o: Option<OutcomeResult>) -> nat
    decreases h.len(),
{
    if h.len() == 0 {
        0
    } else {
        count_outcome(h.drop_last(), o) + if h.last().outcome == o {
            1nat
        } else {
            0nat
        }
    }
}

/// The number of records that carry an outcome.
pub open spec fn count_resolved(h: Seq<SignalHeader>) -> nat
    decreases h.len(),
{
    if h.len() == 0 {
        0
    } else {
        count_resolved(h.drop_last()) + if h.last().outcome is Some {
            1nat
        } else {
            0nat
        }
    }
}

/// Counts of resolved and unresolved signals, by outcome.
#[derive(Debug, Clone, Copy, PartialEq, Eq, Structural)]
pub struct OutcomeTally {
    pub total_signals: usize,
    pub resolved: usize,
    pub unresolved: usize,
    pub wins: usize,
    pub losses: usize,
    pub scratches: usize,
    pub expired: usize,
}

impl OutcomeTally {
    /// Tally the outcomes of the records in the log.
    pub fn of(headers: &Vec<SignalHeader>) -> (t: OutcomeTally)
        ensures
            t.total_signals == headers.len(),
            t.resolved == count_resolved(headers@),
            t.unresolved == count_outcome(headers@, None),
            t.wins == count_outcome(headers@, Some(OutcomeResult::Win)),
            t.losses == count_outcome(headers@, Some(OutcomeResult::Loss)),
            t.scratches == count_outcome(headers@, Some(OutcomeResult::Scratch)),
            t.expired == count_outcome(headers@, Some(OutcomeResult::Expired)),
            t.wins + t.losses + t.scratches + t.expired == t.resolved,
            t.resolved + t.unresolved == t.total_signals,
    {
        let n = headers.len();
        let mut resolved: usize = 0;
        let mut wins: usize = 0;
        let mut losses: usize = 0;
        let mut scratches: usize = 0;
        let mut expired: usize = 0;
        let mut i: usize = 0;
        while i < n
            invariant
                n == headers.len(),
                i <= n,
                resolved == count_resolved(headers@.take(i as int)),
                wins == count_outcome(headers@.take(i as int), Some(OutcomeResult::Win)),
                losses == count_outcome(headers@.take(i as int), Some(OutcomeResult::Loss)),
                scratches == count_outcome(headers@.take(i as int), Some(OutcomeResult::Scratch)),
                expired == count_outcome(headers@.take(i as int), Some(OutcomeResult::Expired)),
                wins + losses + scratches + expired == resolved,
                resolved <= i,
            decreases n - i,
        {
            proof {
                assert(headers@.take(i + 1).drop_last() =~= headers@.take(i as int));
            }
            match headers[i].outcome {
                Some(OutcomeResult::Win) => {
                    wins = wins + 1;
                    resolved = resolved + 1;
                },
                Some(OutcomeResult::Loss) => {
                    losses = losses + 1;
                    resolved = resolved + 1;
                },
                Some(OutcomeResult::Scratch) => {
                    scratches = scratches + 1;
                    resolved = resolved + 1;
                },
                Some(OutcomeResult::Expired) => {
                    expired = expired + 1;
                    resolved = resolved + 1;
                },
                None => {},
            }
            i = i + 1;
        }
        proof {
            assert(headers@.take(n as int) =~= headers@);
            lemma_unresolved_complement(headers@);
        }
        OutcomeTally {
            total_signals: n,
            resolved,
            unresolved: n - resolved,
            wins,
            losses,
            scratches,
            expired,
        }
    }
}

/// Every record is either resolved or unresolved.
proof fn lemma_unresolved_complement(h: Seq<SignalHeader>)
    ensures
        count_resolved(h) + count_outcome(h, None) == h.len(),
    decreases h.len(),
{
    if h.len() > 0 {
        lemma_unresolved_complement(h.drop_last());
    }
}

} // verus!
