//! The persisted signal log: timestamps, outcomes, the record fields the
//! queries read, the store's location, and lookups by timestamp.

use vstd::prelude::*;
use crate::text::{lowercase, owned, text_eq, to_lowercase};

verus! {

/// A UTC instant: whole seconds since the Unix epoch and the nanoseconds
/// within that second (`nanos` may exceed 999_999_999 during a leap second,
/// as chrono allows). Instants are ordered by seconds, then nanoseconds.
#[derive(Debug, Clone, Copy, PartialEq, Eq, Structural)]
pub struct Timestamp {
    pub secs: i64,
    pub nanos: u32,
}

/// An integer that orders timestamps as (secs, nanos) do lexicographically.
pub open spec fn ts_key(t: Timestamp) -> int {
    t.secs * 0x1_0000_0000 + t.nanos
}

impl Timestamp {
    /// Whether `self` is at or after `other`.
    pub fn at_or_after(&self, other: &Timestamp) -> (r: bool)
        ensures
            r == (ts_key(*self) >= ts_key(*other)),
    {
        self.secs > other.secs || (self.secs == other.secs && self.nanos >= other.nanos)
    }

    /// Whether `self` is strictly after `other`.
    pub fn after(&self, other: &Timestamp) -> (r: bool)
        ensures
            r == (ts_key(*self) > ts_key(*other)),
    {
        self.secs > other.secs || (self.secs == other.secs && self.nanos > other.nanos)
    }
}

/// Result of a resolved signal, for backtesting.
#[derive(Debug, Clone, Copy, PartialEq, Eq, Structural)]
pub enum OutcomeResult {
    Win,
    Loss,
    /// Breakeven.
    Scratch,
    /// The market expired without entry.
    Expired,
}

/// The outcome a lowercase result name stands for.
pub open spec fn outcome_for_lowercase(l: Seq<char>) -> Option<OutcomeResult> {
    if l == seq!['w', 'i', 'n'] {
        Some(OutcomeResult::Win)
    } else if l == seq!['l', 'o', 's', 's'] {
        Some(OutcomeResult::Loss)
    } else if l == seq!['s', 'c', 'r', 'a', 't', 'c', 'h'] {
        Some(OutcomeResult::Scratch)
    } else if l == seq!['e', 'x', 'p', 'i', 'r', 'e', 'd'] {
        Some(OutcomeResult::Expired)
    } else {
        None
    }
}

pub open spec fn outcome_name(o: OutcomeResult) -> Seq<char> {
    match o {
        OutcomeResult::Win => seq!['W', 'i', 'n'],
        OutcomeResult::Loss => seq!['L', 'o', 's', 's'],
        OutcomeResult::Scratch => seq!['S', 'c', 'r', 'a', 't', 'c', 'h'],
        OutcomeResult::Expired => seq!['E', 'x', 'p', 'i', 'r', 'e', 'd'],
    }
}

/// Resolving accepts exactly the four outcome names, "win", "loss",
/// "scratch" and "expired", each for its own outcome, and every outcome
/// is named back by its capitalised name; a name read back resolves to
/// the outcome it names.
pub proof fn law_outcome_names(l: Seq<char>, o: OutcomeResult)
    ensures
        outcome_for_lowercase(seq!['w', 'i', 'n']) == Some(OutcomeResult::Win),
        outcome_for_lowercase(seq!['l', 'o', 's', 's']) == Some(OutcomeResult::Loss),
        outcome_for_lowercase(seq!['s', 'c', 'r', 'a', 't', 'c', 'h']) == Some(OutcomeResult::Scratch),
        outcome_for_lowercase(seq!['e', 'x', 'p', 'i', 'r', 'e', 'd']) == Some(OutcomeResult::Expired),
        outcome_for_lowercase(l) is Some ==> l == seq!['w', 'i', 'n'] || l == seq!['l', 'o', 's', 's']
            || l == seq!['s', 'c', 'r', 'a', 't', 'c', 'h'] || l == seq!['e', 'x', 'p', 'i', 'r', 'e', 'd'],
        outcome_name(OutcomeResult::Win) == seq!['W', 'i', 'n'],
        outcome_name(OutcomeResult::Loss) == seq!['L', 'o', 's', 's'],
        outcome_name(OutcomeResult::Scratch) == seq!['S', 'c', 'r', 'a', 't', 'c', 'h'],
        outcome_name(OutcomeResult::Expired) == seq!['E', 'x', 'p', 'i', 'r', 'e', 'd'],
{
}

impl OutcomeResult {
    /// The outcome named by an already lowercased name ("win", "loss",
    /// "scratch", "expired"); `None` for any other text.
    pub fn from_lowercase_name(l: &str) -> (r: Option<OutcomeResult>)
        ensures
            r == outcome_for_lowercase(l@),
    {
        proof {
            reveal_strlit("win");
            reveal_strlit("loss");
            reveal_strlit("scratch");
            reveal_strlit("expired");
            assert("win"@ =~= seq!['w', 'i', 'n']);
            assert("loss"@ =~= seq!['l', 'o', 's', 's']);
            assert("scratch"@ =~= seq!['s', 'c', 'r', 'a', 't', 'c', 'h']);
            assert("expired"@ =~= seq!['e', 'x', 'p', 'i', 'r', 'e', 'd']);
        }
        if text_eq(l, "win") {
            Some(OutcomeResult::Win)
        } else if text_eq(l, "loss") {
            Some(OutcomeResult::Loss)
        } else if text_eq(l, "scratch") {
            Some(OutcomeResult::Scratch)
        } else if text_eq(l, "expired") {
            Some(OutcomeResult::Expired)
        } else {
            None
        }
    }

    /// The outcome named by `name` in any letter case, as the resolve
    /// endpoint accepts it: the name is lowercased, then matched.
    pub fn from_name(name: &str) -> (r: Option<OutcomeResult>)
        ensures
            r == outcome_for_lowercase(lowercase(name@)),
    {
        let l = to_lowercase(name);
        OutcomeResult::from_lowercase_name(l.as_str())
    }

    /// The variant's name ("Win", "Loss", "Scratch", "Expired").
    pub fn name(&self) -> (r: &'static str)
        ensures
            r@ == outcome_name(*self),
    {
        proof {
            reveal_strlit("Win");
            reveal_strlit("Loss");
            reveal_strlit("Scratch");
            reveal_strlit("Expired");
        }
        match self {
            OutcomeResult::Win => "Win",
            OutcomeResult::Loss => "Loss",
            OutcomeResult::Scratch => "Scratch",
            OutcomeResult::Expired => "Expired",
        }
    }
}

/// What the log queries read of a persisted signal record: when it was
/// generated, its type and action labels, and its outcome once resolved.
#[derive(Debug, Clone)]
pub struct SignalHeader {
    pub timestamp: Timestamp,
    pub signal_type: String,
    pub action: String,
    pub outcome: Option<OutcomeResult>,
}

/// The test that keeps a record at or after `since`.
pub open spec fn at_or_after_since(since: Timestamp) -> spec_fn(SignalHeader) -> bool {
    |h: SignalHeader| ts_key(h.timestamp) >= ts_key(since)
}

/// The records at the given indices, in the order of the indices.
pub open spec fn records_at(h: Seq<SignalHeader>, r: Seq<usize>) -> Seq<SignalHeader> {
    r.map_values(|i: usize| h[i as int])
}

/// The indices, in log order, of the records at or after `since`: the
/// records they pick are the log filtered by timestamp.
pub fn records_since(headers: &Vec<SignalHeader>, since: Timestamp) -> (r: Vec<usize>)
    ensures
        records_at(headers@, r@) == headers@.filter(at_or_after_since(since)),
        forall|k: int| 0 <= k < r.len() ==> #[trigger] r[k] < headers.len(),
        forall|a: int, b: int| 0 <= a < b < r.len() ==> #[trigger] r[a] < #[trigger] r[b],
        forall|j: int|
            0 <= j < headers.len() ==> (r@.contains(j as usize) <==> ts_key(headers@[j].timestamp)
                >= ts_key(since)),
{
    let n = headers.len();
    let mut r: Vec<usize> = Vec::new();
    let mut i: usize = 0;
    while i < n
        invariant
            n == headers.len(),
            i <= n,
            forall|k: int| 0 <= k < r.len() ==> #[trigger] r[k] < i,
            forall|a: int, b: int| 0 <= a < b < r.len() ==> #[trigger] r[a] < #[trigger] r[b],
            forall|j: int|
                0 <= j < i ==> (r@.contains(j as usize) <==> ts_key(headers@[j].timestamp) >= ts_key(
                    since,
                )),
            records_at(headers@, r@) == headers@.take(i as int).filter(at_or_after_since(since)),
        decreases n - i,
    {
        let ghost old_r = r@;
        if headers[i].timestamp.at_or_after(&since) {
            r.push(i);
        }
        proof {
            let pred = at_or_after_since(since);
            let next = headers@.take(i + 1);
            assert(next.drop_last() =~= headers@.take(i as int));
            assert(next.last() == headers@[i as int]);
            assert(next.filter(pred) == (if pred(next.last()) {
                next.drop_last().filter(pred).push(next.last())
            } else {
                next.drop_last().filter(pred)
            })) by {
                reveal(Seq::filter);
            }
            if pred(headers@[i as int]) {
                assert(records_at(headers@, r@) =~= records_at(headers@, old_r).push(headers@[i as int]));
            } else {
                assert(r@ == old_r);
            }
            assert(records_at(headers@, r@) == next.filter(pred));
            assert forall|j: int|
                0 <= j < i + 1 implies (r@.contains(j as usize) <==> ts_key(headers@[j].timestamp)
                >= ts_key(since)) by {
                if j < i {
                    if r@.contains(j as usize) {
                        let q = choose|q: int| 0 <= q < r@.len() && r@[q] == j as usize;
                        if q < old_r.len() {
                            assert(old_r[q] == j as usize);
                        }
                    }
                    if old_r.contains(j as usize) {
                        let q = choose|q: int| 0 <= q < old_r.len() && old_r[q] == j as usize;
                        assert(r@[q] == j as usize);
                    }
                } else {
                    if r@.contains(j as usize) {
                        let q = choose|q: int| 0 <= q < r@.len() && r@[q] == j as usize;
                        if q < old_r.len() {
                            assert(old_r[q] < i);
                        }
                    }
                    if ts_key(headers@[j].timestamp) >= ts_key(since) {
                        assert(r@[r@.len() - 1] == i);
                    }
                }
            }
        }
        i = i + 1;
    }
    assert(headers@.take(n as int) =~= headers@);
    r
}

/// The first record whose timestamp equals `at`, if any.
pub fn first_at(headers: &Vec<SignalHeader>, at: Timestamp) -> (r: Option<usize>)
    ensures
        match r {
            Some(i) => {
                &&& i < headers.len()
                &&& headers@[i as int].timestamp == at
                &&& forall|k: int| 0 <= k < i ==> #[trigger] headers@[k].timestamp != at
            },
            None => forall|k: int| 0 <= k < headers.len() ==> #[trigger] headers@[k].timestamp != at,
        },
{
    let n = headers.len();
    let mut i: usize = 0;
    while i < n
        invariant
            n == headers.len(),
            i <= n,
            forall|k: int| 0 <= k < i ==> #[trigger] headers@[k].timestamp != at,
        decreases n - i,
    {
        if headers[i].timestamp == at {
            return Some(i);
        }
        i = i + 1;
    }
    None
}

/// A record with its outcome set to `o`.
pub open spec fn with_outcome(h: SignalHeader, o: OutcomeResult) -> SignalHeader {
    SignalHeader { outcome: Some(o), ..h }
}

/// Resolve the signal stamped `at`: the first record with that timestamp
/// gets `outcome`, and its index is returned; every other record is left
/// as it was. When no record has that timestamp, nothing changes and
/// `None` is returned.
pub fn resolve_outcome(headers: &mut Vec<SignalHeader>, at: Timestamp, outcome: OutcomeResult) -> (r: Option<usize>)
    ensures
        match r {
            Some(i) => {
                &&& i < old(headers).len()
                &&& old(headers)@[i as int].timestamp == at
                &&& forall|k: int| 0 <= k < i ==> #[trigger] old(headers)@[k].timestamp != at
                &&& final(headers)@ == old(headers)@.update(i as int, with_outcome(old(headers)@[i as int], outcome))
            },
            None => {
                &&& forall|k: int| 0 <= k < old(headers).len() ==> #[trigger] old(headers)@[k].timestamp != at
                &&& final(headers)@ == old(headers)@
            },
        },
{
    match first_at(headers, at) {
        Some(i) => {
            let ghost before = headers@;
            let mut h = headers.remove(i);
            h.outcome = Some(outcome);
            headers.insert(i, h);
            assert(headers@ =~= before.update(i as int, with_outcome(before[i as int], outcome)));
            Some(i)
        },
        None => None,
    }
}

/// The append-only JSON-lines file that holds the signal log.
pub struct SignalStore {
    path: String,
}

/// The file name used when no path is configured.
pub open spec fn default_store_path() -> Seq<char> {
    seq!['s', 'i', 'g', 'n', 'a', 'l', 's', '.', 'j', 's', 'o', 'n', 'l']
}

impl SignalStore {
    /// A store at the configured path (the `PHANTOM_SIGNALS_PATH` setting),
    /// or at `signals.jsonl` in the working directory when none is set.
    pub fn new(configured: Option<String>) -> (s: SignalStore)
        ensures
            s.path_view() == (match configured {
                Some(p) => p@,
                None => default_store_path(),
            }),
    {
        proof {
            reveal_strlit("signals.jsonl");
        }
        match configured {
            Some(p) => SignalStore { path: p },
            None => SignalStore { path: owned("signals.jsonl") },
        }
    }

    pub closed spec fn path_view(&self) -> Seq<char> {
        self.path@
    }

    /// The path of the backing file.
    pub fn path(&self) -> (r: &str)
        ensures
            r@ == self.path_view(),
    {
        self.path.as_str()
    }
}

} // verus!
