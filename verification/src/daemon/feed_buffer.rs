//! Rolling time-series buffer for accumulating feed data across poll
//! cycles.
//!
//! Each feed domain (weather, price, seismic) pushes new values into a
//! named series. Every series is capped at the buffer's maximum length, the
//! oldest values being evicted first, so memory stays bounded while the
//! analysis always receives the full rolling window.

use vstd::prelude::*;
use std::collections::VecDeque;

verus! {

/// The last `cap` elements of `s` (all of `s` when it is no longer).
pub open spec fn keep_last<T>(s: Seq<T>, cap: nat) -> Seq<T> {
    if s.len() > cap {
        s.subrange(s.len() - cap, s.len() as int)
    } else {
        s
    }
}

/// A window holds the last `min(len, cap)` values of what was pushed, in
/// order: it is never longer than the capacity, loses nothing while the
/// series fits, and always ends with the newest value.
pub proof fn law_window<T>(s: Seq<T>, cap: nat)
    ensures
        keep_last(s, cap).len() == if s.len() <= cap {
            s.len()
        } else {
            cap
        },
        s.len() <= cap ==> keep_last(s, cap) == s,
        forall|i: int|
            0 <= i < keep_last(s, cap).len() ==> #[trigger] keep_last(s, cap)[i] == s[s.len() - keep_last(
                s,
                cap,
            ).len() + i],
{
}

/// Pushing two batches in turn leaves the same window as pushing them at
/// once: the rolling window of a series depends only on the values pushed,
/// not on how they were split across poll cycles.
pub proof fn law_push_batches<T>(prior: Seq<T>, first: Seq<T>, second: Seq<T>, cap: nat)
    ensures
        keep_last(keep_last(prior + first, cap) + second, cap) == keep_last(prior + first + second, cap),
{
    let whole = prior + first + second;
    let w1 = keep_last(prior + first, cap);
    let lhs = keep_last(w1 + second, cap);
    let rhs = keep_last(whole, cap);
    assert(whole =~= (prior + first) + second);
    // Both sides are suffixes of `whole` of the same length.
    assert(w1 + second =~= whole.subrange(whole.len() - (w1.len() + second.len()), whole.len() as int));
    assert(lhs.len() == rhs.len());
    assert forall|i: int| 0 <= i < lhs.len() implies lhs[i] == rhs[i] by {
        assert(lhs[i] == whole[whole.len() - lhs.len() + i]);
        assert(rhs[i] == whole[whole.len() - rhs.len() + i]);
    }
    assert(lhs =~= rhs);
}

/// The series stored under `name`, empty when there is none.
pub open spec fn series_or_empty<T>(m: Map<Seq<char>, Seq<T>>, name: Seq<char>) -> Seq<T> {
    if m.contains_key(name) {
        m[name]
    } else {
        Seq::empty()
    }
}

/// A rolling buffer for several named time series.
///
/// Its view maps each feed name to its series, oldest value first.
pub struct FeedBuffer<T> {
    buffers: Vec<(String, VecDeque<T>)>,
    max_len: usize,
}

impl<T> View for FeedBuffer<T> {
    type V = Map<Seq<char>, Seq<T>>;

    open spec fn view(&self) -> Map<Seq<char>, Seq<T>> {
        self.series()
    }
}

impl<T> FeedBuffer<T> {
    #[verifier::type_invariant]
    spec fn well_formed(self) -> bool {
        &&& forall|a: int, b: int|
            0 <= a < b < self.buffers.len() ==> #[trigger] self.buffers[a].0@
                != #[trigger] self.buffers[b].0@
        &&& forall|e: int|
            0 <= e < self.buffers.len() ==> #[trigger] self.buffers[e].1@.len() <= self.max_len
    }

    spec fn has_name(self, name: Seq<char>) -> bool {
        exists|e: int| 0 <= e < self.buffers.len() && #[trigger] self.buffers[e].0@ == name
    }

    spec fn index_of(self, name: Seq<char>) -> int {
        choose|e: int| 0 <= e < self.buffers.len() && #[trigger] self.buffers[e].0@ == name
    }

    /// The maximum length of every series.
    pub closed spec fn capacity(&self) -> nat {
        self.max_len as nat
    }

    pub closed spec fn series(&self) -> Map<Seq<char>, Seq<T>> {
        Map::new(|k: Seq<char>| self.has_name(k), |k: Seq<char>| self.buffers[self.index_of(k)].1@)
    }

    proof fn lemma_within_capacity(&self)
        requires
            self.well_formed(),
        ensures
            forall|k: Seq<char>| #[trigger] self@.contains_key(k) ==> self@[k].len() <= self.capacity(),
    {
        assert forall|k: Seq<char>| #[trigger] self@.contains_key(k) implies self@[k].len()
            <= self.capacity() by {
            let e = self.index_of(k);
            assert(self.buffers[e].1@.len() <= self.max_len);
        }
    }

    proof fn lemma_lookup(&self, e: int)
        requires
            self.well_formed(),
            0 <= e < self.buffers.len(),
        ensures
            self@.contains_key(self.buffers[e].0@),
            self@[self.buffers[e].0@] == self.buffers[e].1@,
    {
        let k = self.buffers[e].0@;
        assert(self.has_name(k));
        let c = self.index_of(k);
        if c != e {
            if c < e {
                assert(self.buffers[c].0@ != self.buffers[e].0@);
            } else {
                assert(self.buffers[e].0@ != self.buffers[c].0@);
            }
        }
    }

    /// A buffer holding no series, each future series capped at `max_len`.
    pub fn new(max_len: usize) -> (b: FeedBuffer<T>)
        ensures
            b@ == Map::<Seq<char>, Seq<T>>::empty(),
            b.capacity() == max_len,
    {
        let b = FeedBuffer { buffers: Vec::new(), max_len };
        assert(b@ =~= Map::<Seq<char>, Seq<T>>::empty());
        b
    }

    /// The position of the series named `name`, if there is one.
    fn find(&self, name: &str) -> (r: Option<usize>)
        ensures
            match r {
                Some(e) => e < self.buffers.len() && self.buffers[e as int].0@ == name@,
                None => !self@.contains_key(name@),
            },
    {
        let n = self.buffers.len();
        let mut e: usize = 0;
        while e < n
            invariant
                n == self.buffers.len(),
                e <= n,
                forall|k: int| 0 <= k < e ==> #[trigger] self.buffers[k].0@ != name@,
            decreases n - e,
        {
            if text_matches(&self.buffers[e].0, name) {
                return Some(e);
            }
            e = e + 1;
        }
        None
    }

    /// The series named `feed_name`, if the buffer has one.
    pub fn get(&self, feed_name: &str) -> (r: Option<&VecDeque<T>>)
        ensures
            match r {
                Some(q) => self@.contains_key(feed_name@) && q@ == self@[feed_name@],
                None => !self@.contains_key(feed_name@),
            },
    {
        proof {
            use_type_invariant(self);
        }
        match self.find(feed_name) {
            Some(e) => {
                proof {
                    self.lemma_lookup(e as int);
                }
                Some(&self.buffers[e].1)
            },
            None => None,
        }
    }

    /// The number of values stored for `feed_name` (0 when there is no such
    /// series).
    pub fn len(&self, feed_name: &str) -> (r: usize)
        ensures
            r == series_or_empty(self@, feed_name@).len(),
            r <= self.capacity() || !self@.contains_key(feed_name@),
    {
        proof {
            use_type_invariant(self);
            self.lemma_within_capacity();
        }
        match self.get(feed_name) {
            Some(q) => q.len(),
            None => 0,
        }
    }
}

impl<T: Copy> FeedBuffer<T> {
    /// Append `values` to the series named `feed_name` (creating it if
    /// needed), then evict the oldest values until the series is no longer
    /// than the capacity. Other series are unchanged.
    pub fn push(&mut self, feed_name: &str, values: &[T])
        ensures
            final(self).capacity() == old(self).capacity(),
            final(self)@ == old(self)@.insert(
                feed_name@,
                keep_last(series_or_empty(old(self)@, feed_name@) + values@, old(self).capacity()),
            ),
            forall|k: Seq<char>| #[trigger] final(self)@.contains_key(k) ==> final(self)@[k].len()
                <= final(self).capacity(),
    {
        proof {
            use_type_invariant(&*self);
        }
        let ghost old_self: FeedBuffer<T> = *self;
        let ghost before = self@;
        let ghost old_buffers = self.buffers@;
        let found = self.find(feed_name);
        let mut entries: Vec<(String, VecDeque<T>)> = Vec::new();
        std::mem::swap(&mut entries, &mut self.buffers);
        let (entry_name, mut q): (String, VecDeque<T>) = match found {
            Some(e) => {
                proof {
                    assert(entries@ == old_buffers);
                }
                entries.remove(e)
            },
            None => (feed_name.to_owned(), VecDeque::new()),
        };
        let ghost prior = q@;
        assert(prior == series_or_empty(before, feed_name@));
        let n = values.len();
        let mut i: usize = 0;
        while i < n
            invariant
                n == values@.len(),
                i <= n,
                q@ == prior + values@.subrange(0, i as int),
            decreases n - i,
        {
            q.push_back(values[i]);
            proof {
                assert(values@.subrange(0, i + 1) =~= values@.subrange(0, i as int).push(values@[i as int]));
            }
            i = i + 1;
        }
        let ghost full = prior + values@;
        assert(values@.subrange(0, n as int) =~= values@);
        let cap = self.max_len;
        assert(full.subrange(0, full.len() as int) =~= full);
        while q.len() > cap
            invariant
                q@.len() <= full.len(),
                q@.len() == full.len() || q@.len() >= cap,
                q@ == full.subrange(full.len() - q@.len(), full.len() as int),
            decreases q@.len(),
        {
            q.pop_front();
            assert(q@ =~= full.subrange(full.len() - q@.len(), full.len() as int));
        }
        assert(q@ =~= keep_last(full, cap as nat));
        let ghost new_entry = (entry_name, q);
        match found {
            Some(e) => {
                entries.insert(e, (entry_name, q));
            },
            None => {
                entries.push((entry_name, q));
            },
        }
        self.buffers = entries;
        proof {
            use_type_invariant(&*self);
            self.lemma_within_capacity();
            let k = feed_name@;
            let pos: int = match found {
                Some(e) => e as int,
                None => old_buffers.len() as int,
            };
            match found {
                Some(e) => {
                    assert(self.buffers@ =~= old_buffers.update(e as int, new_entry));
                },
                None => {
                    assert(self.buffers@ =~= old_buffers.push(new_entry));
                },
            }
            self.lemma_lookup(pos);
            assert forall|k2: Seq<char>| k2 != k implies (#[trigger] self@.contains_key(k2)
                == before.contains_key(k2) && (self@.contains_key(k2) ==> self@[k2] == before[k2])) by {
                if before.contains_key(k2) {
                    let c = choose|c: int| 0 <= c < old_buffers.len() && #[trigger] old_buffers[c].0@ == k2;
                    assert(c != pos);
                    assert(self.buffers[c] == old_buffers[c]);
                    self.lemma_lookup(c);
                    old_self.lemma_lookup(c);
                }
                if self@.contains_key(k2) {
                    let c = choose|c: int| 0 <= c < self.buffers.len() && #[trigger] self.buffers[c].0@ == k2;
                    assert(c != pos);
                    assert(self.buffers[c] == old_buffers[c]);
                    old_self.lemma_lookup(c);
                }
            }
            assert(self@ =~= before.insert(k, q@));
        }
    }

    /// A copy of the series named `feed_name`, oldest value first.
    pub fn snapshot(&self, feed_name: &str) -> (r: Option<Vec<T>>)
        ensures
            match r {
                Some(v) => self@.contains_key(feed_name@) && v@ == self@[feed_name@],
                None => !self@.contains_key(feed_name@),
            },
    {
        match self.get(feed_name) {
            Some(q) => {
                let n = q.len();
                let mut v: Vec<T> = Vec::new();
                let mut i: usize = 0;
                while i < n
                    invariant
                        n == q@.len(),
                        i <= n,
                        v@ == q@.subrange(0, i as int),
                    decreases n - i,
                {
                    v.push(q[i]);
                    proof {
                        assert(q@.subrange(0, i + 1) =~= q@.subrange(0, i as int).push(q@[i as int]));
                    }
                    i = i + 1;
                }
                assert(q@.subrange(0, n as int) =~= q@);
                Some(v)
            },
            None => None,
        }
    }
}

/// Whether a stored name equals `name`.
fn text_matches(stored: &String, name: &str) -> (r: bool)
    ensures
        r == (stored@ == name@),
{
    crate::text::text_eq(stored.as_str(), name)
}

/// The capacity of a buffer made by `FeedBuffer::default`.
pub const DEFAULT_CAPACITY: usize = 1000;

impl<T> Default for FeedBuffer<T> {
    /// An empty buffer whose series hold at most 1000 values each.
    fn default() -> (b: Self)
        ensures
            b@ == Map::<Seq<char>, Seq<T>>::empty(),
            b.capacity() == DEFAULT_CAPACITY,
    {
        FeedBuffer::new(DEFAULT_CAPACITY)
    }
}

/// Name of the weather series (hourly temperatures).
pub const FEED_WEATHER: &'static str = "weather";

/// Name of the price series (BTC/USD).
pub const FEED_PRICE: &'static str = "price";

/// Name of the seismic series (earthquake magnitudes).
pub const FEED_SEISMIC: &'static str = "seismic";

/// The length of each of the daemon's three series.
#[derive(Debug, Clone, Copy, PartialEq, Eq, Structural)]
pub struct BufferSizes {
    pub weather: usize,
    pub price: usize,
    pub seismic: usize,
}

impl BufferSizes {
    /// The current lengths of the weather, price and seismic series.
    pub fn of<T>(buffer: &FeedBuffer<T>) -> (s: BufferSizes)
        ensures
            s.weather == series_or_empty(buffer@, FEED_WEATHER@).len(),
            s.price == series_or_empty(buffer@, FEED_PRICE@).len(),
            s.seismic == series_or_empty(buffer@, FEED_SEISMIC@).len(),
    {
        BufferSizes {
            weather: buffer.len(FEED_WEATHER),
            price: buffer.len(FEED_PRICE),
            seismic: buffer.len(FEED_SEISMIC),
        }
    }
}

} // verus!
