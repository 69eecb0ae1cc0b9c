//! Signal counts behind the metrics endpoint: totals, counts per action
//! label and per signal type, and the number of recent signals.

use vstd::prelude::*;
use crate::api::signals_db::{SignalHeader, Timestamp, at_or_after_since, ts_key};

verus! {

/// How often `label` occurs in `labels`.
pub open spec fn occurrences(labels: Seq<Seq<char>>, label: Seq<char>) -> nat
    decreases labels.len(),
{
    if labels.len() == 0 {
        0
    } else {
        occurrences(labels.drop_last(), label) + if labels.last() == label {
            1nat
        } else {
            0nat
        }
    }
}

/// The sum of the counts in a label tally.
pub open spec fn total_count(t: Seq<(String, usize)>) -> nat
    decreases t.len(),
{
    if t.len() == 0 {
        0
    } else {
        total_count(t.drop_last()) + t.last().1 as nat
    }
}

pub open spec fn string_views(s: Seq<String>) -> Seq<Seq<char>> {
    Seq::new(s.len(), |i: int| s[i]@)
}

/// `t` pairs each distinct label of `labels` with its number of
/// occurrences: labels in `t` are distinct, each occurs in `labels` as often
/// as `t` says and at least once, and every label of `labels` is in `t`.
pub open spec fn is_label_tally(labels: Seq<Seq<char>>, t: Seq<(String, usize)>) -> bool {
    &&& forall|a: int, b: int| 0 <= a < b < t.len() ==> #[trigger] t[a].0@ != #[trigger] t[b].0@
    &&& forall|e: int| 0 <= e < t.len() ==> #[trigger] t[e].1 == occurrences(labels, t[e].0@)
    &&& forall|e: int| 0 <= e < t.len() ==> #[trigger] t[e].1 >= 1
    &&& forall|i: int|
        0 <= i < labels.len() ==> exists|e: int| 0 <= e < t.len() && #[trigger] t[e].0@ == #[trigger] labels[i]
}

proof fn lemma_total_count_update(t: Seq<(String, usize)>, p: int, x: (String, usize))
    requires
        0 <= p < t.len(),
    ensures
        total_count(t.update(p, x)) == total_count(t) - t[p].1 + x.1,
    decreases t.len(),
{
    if p < t.len() - 1 {
        assert(t.update(p, x).drop_last() =~= t.drop_last().update(p, x));
        lemma_total_count_update(t.drop_last(), p, x);
    } else {
        assert(t.update(p, x).drop_last() =~= t.drop_last());
    }
}

proof fn lemma_occurrences_absent(labels: Seq<Seq<char>>, label: Seq<char>)
    requires
        forall|i: int| 0 <= i < labels.len() ==> labels[i] != label,
    ensures
        occurrences(labels, label) == 0,
    decreases labels.len(),
{
    if labels.len() > 0 {
        lemma_occurrences_absent(labels.drop_last(), label);
    }
}

/// Count how often each distinct label occurs. The counts add up to the
/// number of labels.
pub fn tally_labels(labels: &Vec<String>) -> (t: Vec<(String, usize)>)
    ensures
        is_label_tally(string_views(labels@), t@),
        total_count(t@) == labels.len(),
{
    let ghost views = string_views(labels@);
    let n = labels.len();
    let mut t: Vec<(String, usize)> = Vec::new();
    let mut i: usize = 0;
    while i < n
        invariant
            n == labels.len(),
            views == string_views(labels@),
            i <= n,
            is_label_tally(views.take(i as int), t@),
            total_count(t@) == i,
            forall|e: int| 0 <= e < t.len() ==> #[trigger] t[e].1 <= i,
        decreases n - i,
    {
        let ghost prev = views.take(i as int);
        let ghost next = views.take(i + 1);
        proof {
            assert(next.drop_last() =~= prev);
            assert(next.last() == labels@[i as int]@);
        }
        let label = &labels[i];
        let mut p: usize = 0;
        while p < t.len() && !(t[p].0 == *label)
            invariant
                p <= t.len(),
                forall|k: int| 0 <= k < p ==> #[trigger] t[k].0@ != label@,
            decreases t.len() - p,
        {
            p = p + 1;
        }
        let ghost old_t = t@;
        if p < t.len() {
            let name = t[p].0.clone();
            let c = t[p].1;
            t.set(p, (name, c + 1));
            proof {
                lemma_total_count_update(old_t, p as int, (name, (c + 1) as usize));
                assert forall|e: int| 0 <= e < t.len() implies #[trigger] t[e].1 == occurrences(
                    next,
                    t[e].0@,
                ) by {
                    assert(occurrences(next, t[e].0@) == occurrences(prev, t[e].0@) + if next.last()
                        == t[e].0@ {
                        1nat
                    } else {
                        0nat
                    });
                    if e != p {
                        assert(t[e] == old_t[e]);
                        assert(old_t[e].0@ != old_t[p as int].0@);
                    }
                }
                assert forall|a: int, b: int| 0 <= a < b < t.len() implies #[trigger] t[a].0@
                    != #[trigger] t[b].0@ by {
                    assert(old_t[a].0@ != old_t[b].0@);
                }
                assert forall|e: int| 0 <= e < t.len() implies #[trigger] t[e].1 >= 1 by {
                    if e != p {
                        assert(t[e] == old_t[e]);
                    }
                }
                assert forall|j: int| 0 <= j < next.len() implies exists|e: int|
                    0 <= e < t.len() && #[trigger] t[e].0@ == #[trigger] next[j] by {
                    if j < i {
                        assert(next[j] == prev[j]);
                        let e = choose|e: int| 0 <= e < old_t.len() && #[trigger] old_t[e].0@ == prev[j];
                        assert(t[e].0@ == next[j]);
                    } else {
                        assert(t[p as int].0@ == next[j]);
                    }
                }
            }
        } else {
            let name = label.clone();
            t.push((name, 1));
            proof {
                lemma_occurrences_absent(prev, label@);
                assert(t@.drop_last() =~= old_t);
                assert forall|e: int| 0 <= e < t.len() implies #[trigger] t[e].1 == occurrences(
                    next,
                    t[e].0@,
                ) by {
                    assert(occurrences(next, t[e].0@) == occurrences(prev, t[e].0@) + if next.last()
                        == t[e].0@ {
                        1nat
                    } else {
                        0nat
                    });
                    if e < old_t.len() {
                        assert(t[e] == old_t[e]);
                    }
                }
                assert forall|e: int| 0 <= e < t.len() implies #[trigger] t[e].1 >= 1 by {
                    if e < old_t.len() {
                        assert(t[e] == old_t[e]);
                    }
                }
                assert forall|a: int, b: int| 0 <= a < b < t.len() implies #[trigger] t[a].0@
                    != #[trigger] t[b].0@ by {
                    if b < old_t.len() {
                        assert(old_t[a].0@ != old_t[b].0@);
                    } else {
                        assert(t[a] == old_t[a]);
                    }
                }
                assert forall|j: int| 0 <= j < next.len() implies exists|e: int|
                    0 <= e < t.len() && #[trigger] t[e].0@ == #[trigger] next[j] by {
                    if j < i {
                        assert(next[j] == prev[j]);
                        let e = choose|e: int| 0 <= e < old_t.len() && #[trigger] old_t[e].0@ == prev[j];
                        assert(t[e].0@ == next[j]);
                    } else {
                        assert(t[old_t.len() as int].0@ == next[j]);
                    }
                }
            }
        }
        i = i + 1;
    }
    proof {
        assert(views.take(n as int) =~= views);
    }
    t
}

/// Signal counts for the metrics endpoint: the total, the number of
/// records per action label and per signal type, and how many were
/// generated at or after the cutoff (the last 24 hours).
#[derive(Debug)]
pub struct SignalMetrics {
    pub total: usize,
    pub by_action: Vec<(String, usize)>,
    pub by_type: Vec<(String, usize)>,
    pub last_24h: usize,
}

pub open spec fn header_actions(h: Seq<SignalHeader>) -> Seq<Seq<char>> {
    Seq::new(h.len(), |i: int| h[i].action@)
}

pub open spec fn header_types(h: Seq<SignalHeader>) -> Seq<Seq<char>> {
    Seq::new(h.len(), |i: int| h[i].signal_type@)
}

/// The number of records at or after `cutoff`.
pub open spec fn count_since(h: Seq<SignalHeader>, cutoff: Timestamp) -> nat
    decreases h.len(),
{
    if h.len() == 0 {
        0
    } else {
        count_since(h.drop_last(), cutoff) + if ts_key(h.last().timestamp) >= ts_key(cutoff) {
            1nat
        } else {
            0nat
        }
    }
}

/// The recent-signal count is the number of records stamped at or after
/// the cutoff, whatever their action, type or outcome: the length of the
/// log filtered by timestamp.
pub proof fn law_recent_count(h: Seq<SignalHeader>, cutoff: Timestamp)
    ensures
        count_since(h, cutoff) == h.filter(at_or_after_since(cutoff)).len(),
    decreases h.len(),
{
    reveal(Seq::filter);
    if h.len() > 0 {
        law_recent_count(h.drop_last(), cutoff);
    }
}

impl SignalMetrics {
    /// The signal counts of the log, with `cutoff` the start of the last
    /// 24 hours.
    pub fn of(headers: &Vec<SignalHeader>, cutoff: Timestamp) -> (m: SignalMetrics)
        ensures
            m.total == headers.len(),
            is_label_tally(header_actions(headers@), m.by_action@),
            is_label_tally(header_types(headers@), m.by_type@),
            total_count(m.by_action@) == headers.len(),
            total_count(m.by_type@) == headers.len(),
            m.last_24h == count_since(headers@, cutoff),
            m.last_24h == headers@.filter(at_or_after_since(cutoff)).len(),
    {
        let n = headers.len();
        let mut actions: Vec<String> = Vec::new();
        let mut types: Vec<String> = Vec::new();
        let mut recent: usize = 0;
        let mut i: usize = 0;
        while i < n
            invariant
                n == headers.len(),
                i <= n,
                actions.len() == i,
                types.len() == i,
                forall|k: int| 0 <= k < i ==> #[trigger] actions@[k] == headers@[k].action,
                forall|k: int| 0 <= k < i ==> #[trigger] types@[k] == headers@[k].signal_type,
                recent == count_since(headers@.take(i as int), cutoff),
                recent <= i,
            decreases n - i,
        {
            proof {
                assert(headers@.take(i + 1).drop_last() =~= headers@.take(i as int));
            }
            actions.push(headers[i].action.clone());
            types.push(headers[i].signal_type.clone());
            if headers[i].timestamp.at_or_after(&cutoff) {
                recent = recent + 1;
            }
            i = i + 1;
        }
        proof {
            assert(headers@.take(n as int) =~= headers@);
            assert(string_views(actions@) =~= header_actions(headers@));
            assert(string_views(types@) =~= header_types(headers@));
        }
        proof {
            law_recent_count(headers@, cutoff);
        }
        let by_action = tally_labels(&actions);
        let by_type = tally_labels(&types);
        SignalMetrics { total: n, by_action, by_type, last_24h: recent }
    }
}

} // verus!
