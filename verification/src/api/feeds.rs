//! Query parameters of the live-feed endpoints, with their defaults and
//! validation.

use vstd::prelude::*;
use crate::text::{concat2, lowercase, text_eq, to_lowercase};

verus! {

/// Query of the seismic feed endpoint.
#[derive(Debug, Clone)]
pub struct SeismicQuery {
    pub period: Option<String>,
}

/// Query of the BTC price endpoint.
#[derive(Debug, Clone, Copy, PartialEq, Eq, Structural)]
pub struct BtcQuery {
    pub days: Option<usize>,
}

/// Query of the generic price endpoint.
#[derive(Debug, Clone)]
pub struct PriceQuery {
    pub asset: String,
    pub days: Option<usize>,
}

/// Query of the Kalshi markets endpoint.
#[derive(Debug, Clone)]
pub struct KalshiQuery {
    pub series: String,
}

/// The USGS feed periods the seismic endpoint serves.
pub open spec fn seismic_periods() -> Seq<Seq<char>> {
    seq![
        seq!['a', 'l', 'l', '_', 'h', 'o', 'u', 'r'],
        seq!['a', 'l', 'l', '_', 'd', 'a', 'y'],
        seq!['a', 'l', 'l', '_', 'w', 'e', 'e', 'k'],
        seq!['a', 'l', 'l', '_', 'm', 'o', 'n', 't', 'h'],
        seq!['s', 'i', 'g', 'n', 'i', 'f', 'i', 'c', 'a', 'n', 't', '_', 'd', 'a', 'y'],
        seq!['s', 'i', 'g', 'n', 'i', 'f', 'i', 'c', 'a', 'n', 't', '_', 'w', 'e', 'e', 'k'],
        seq!['s', 'i', 'g', 'n', 'i', 'f', 'i', 'c', 'a', 'n', 't', '_', 'm', 'o', 'n', 't', 'h'],
    ]
}

/// The CoinGecko assets the price endpoint serves.
pub open spec fn allowed_assets() -> Seq<Seq<char>> {
    seq![
        seq!['b', 'i', 't', 'c', 'o', 'i', 'n'],
        seq!['e', 't', 'h', 'e', 'r', 'e', 'u', 'm'],
        seq!['s', 'o', 'l', 'a', 'n', 'a'],
    ]
}

/// The price endpoint serves exactly bitcoin, ethereum and solana (as
/// lowercased names; `PriceQuery::checked` lowercases the request first, so
/// any letter case of these names is accepted).
pub proof fn law_price_assets(a: Seq<char>)
    ensures
        allowed_assets().contains(a) <==> (a == seq!['b', 'i', 't', 'c', 'o', 'i', 'n'] || a == seq![
            'e',
            't',
            'h',
            'e',
            'r',
            'e',
            'u',
            'm',
        ] || a == seq!['s', 'o', 'l', 'a', 'n', 'a']),
{
    let l = allowed_assets();
    if a == seq!['b', 'i', 't', 'c', 'o', 'i', 'n'] {
        assert(l[0] == a);
    }
    if a == seq!['e', 't', 'h', 'e', 'r', 'e', 'u', 'm'] {
        assert(l[1] == a);
    }
    if a == seq!['s', 'o', 'l', 'a', 'n', 'a'] {
        assert(l[2] == a);
    }
    if l.contains(a) {
        let j = choose|j: int| 0 <= j < l.len() && l[j] == a;
        assert(j == 0 || j == 1 || j == 2);
    }
}

/// The seismic endpoint serves exactly the seven USGS summary periods:
/// all_hour, all_day, all_week, all_month, significant_day,
/// significant_week and significant_month.
pub proof fn law_seismic_periods(p: Seq<char>)
    ensures
        seismic_periods().contains(p) <==> (p == seq!['a', 'l', 'l', '_', 'h', 'o', 'u', 'r'] || p
            == seq!['a', 'l', 'l', '_', 'd', 'a', 'y'] || p == seq!['a', 'l', 'l', '_', 'w', 'e', 'e', 'k']
            || p == seq!['a', 'l', 'l', '_', 'm', 'o', 'n', 't', 'h'] || p == seq![
            's', 'i', 'g', 'n', 'i', 'f', 'i', 'c', 'a', 'n', 't', '_', 'd', 'a', 'y'
        ] || p == seq!['s', 'i', 'g', 'n', 'i', 'f', 'i', 'c', 'a', 'n', 't', '_', 'w', 'e', 'e', 'k']
            || p == seq!['s', 'i', 'g', 'n', 'i', 'f', 'i', 'c', 'a', 'n', 't', '_', 'm', 'o', 'n', 't', 'h']),
{
    let l = seismic_periods();
    assert(l[0] == seq!['a', 'l', 'l', '_', 'h', 'o', 'u', 'r']);
    assert(l[1] == seq!['a', 'l', 'l', '_', 'd', 'a', 'y']);
    assert(l[2] == seq!['a', 'l', 'l', '_', 'w', 'e', 'e', 'k']);
    assert(l[3] == seq!['a', 'l', 'l', '_', 'm', 'o', 'n', 't', 'h']);
    assert(l[4] == seq!['s', 'i', 'g', 'n', 'i', 'f', 'i', 'c', 'a', 'n', 't', '_', 'd', 'a', 'y']);
    assert(l[5] == seq!['s', 'i', 'g', 'n', 'i', 'f', 'i', 'c', 'a', 'n', 't', '_', 'w', 'e', 'e', 'k']);
    assert(l[6] == seq!['s', 'i', 'g', 'n', 'i', 'f', 'i', 'c', 'a', 'n', 't', '_', 'm', 'o', 'n', 't', 'h']);
    if l.contains(p) {
        let j = choose|j: int| 0 <= j < l.len() && l[j] == p;
        assert(0 <= j < 7);
    }
}

/// The number of days of history served when none is asked for.
pub const DEFAULT_DAYS: usize = 30;

/// Whether `s` is one of `names`.
fn is_one_of(s: &str, names: &[&str]) -> (r: bool)
    ensures
        r == exists|i: int| 0 <= i < names.len() && #[trigger] names@[i]@ == s@,
{
    let n = names.len();
    let mut i: usize = 0;
    while i < n
        invariant
            n == names.len(),
            i <= n,
            forall|k: int| 0 <= k < i ==> #[trigger] names@[k]@ != s@,
        decreases n - i,
    {
        if text_eq(names[i], s) {
            return true;
        }
        i = i + 1;
    }
    false
}

impl SeismicQuery {
    /// The requested period ("all_day" when none is given) if it is one the
    /// endpoint serves, else `Err` with the rejected period.
    pub fn checked_period(&self) -> (r: Result<String, String>)
        ensures
            ({
                let p = match self.period {
                    Some(p) => p@,
                    None => seq!['a', 'l', 'l', '_', 'd', 'a', 'y'],
                };
                match r {
                    Ok(v) => v@ == p && seismic_periods().contains(p),
                    Err(v) => v@ == p && !seismic_periods().contains(p),
                }
            }),
    {
        proof {
            reveal_strlit("all_hour");
            reveal_strlit("all_day");
            reveal_strlit("all_week");
            reveal_strlit("all_month");
            reveal_strlit("significant_day");
            reveal_strlit("significant_week");
            reveal_strlit("significant_month");
        }
        let period: String = match &self.period {
            Some(p) => p.clone(),
            None => "all_day".to_owned(),
        };
        let names: [&str; 7] = [
            "all_hour",
            "all_day",
            "all_week",
            "all_month",
            "significant_day",
            "significant_week",
            "significant_month",
        ];
        proof {
            assert(names@.len() == 7);
            assert forall|i: int| 0 <= i < 7 implies #[trigger] names@[i]@ == seismic_periods()[i] by {
                assert(names@[0]@ =~= seismic_periods()[0]);
                assert(names@[1]@ =~= seismic_periods()[1]);
                assert(names@[2]@ =~= seismic_periods()[2]);
                assert(names@[3]@ =~= seismic_periods()[3]);
                assert(names@[4]@ =~= seismic_periods()[4]);
                assert(names@[5]@ =~= seismic_periods()[5]);
                assert(names@[6]@ =~= seismic_periods()[6]);
            }
        }
        let ok = is_one_of(period.as_str(), names.as_slice());
        proof {
            if seismic_periods().contains(period@) {
                let j = choose|j: int| 0 <= j < 7 && seismic_periods()[j] == period@;
                assert(names@[j]@ == period@);
            }
            if ok {
                let j = choose|j: int| 0 <= j < names@.len() && #[trigger] names@[j]@ == period@;
                assert(seismic_periods()[j] == period@);
            }
        }
        if ok {
            Ok(period)
        } else {
            Err(period)
        }
    }

    /// The cache key of a response for `period`.
    pub fn cache_key(period: &str) -> (r: String)
        ensures
            r@ == seq!['s', 'e', 'i', 's', 'm', 'i', 'c', '-'] + period@,
    {
        proof {
            reveal_strlit("seismic-");
            assert("seismic-"@ =~= seq!['s', 'e', 'i', 's', 'm', 'i', 'c', '-']);
        }
        concat2("seismic-", period)
    }
}

impl BtcQuery {
    /// Days of history to fetch: the requested number, or 30.
    pub fn days_or_default(&self) -> (r: usize)
        ensures
            r == (match self.days {
                Some(d) => d,
                None => DEFAULT_DAYS,
            }),
    {
        match self.days {
            Some(d) => d,
            None => DEFAULT_DAYS,
        }
    }
}

impl PriceQuery {
    /// The asset, lowercased, with the days of history to fetch (30 by
    /// default) when the asset is one the endpoint serves; else `Err` with
    /// the lowercased asset.
    pub fn checked(&self) -> (r: Result<(String, usize), String>)
        ensures
            match r {
                Ok((a, d)) => {
                    &&& a@ == lowercase(self.asset@)
                    &&& allowed_assets().contains(a@)
                    &&& d == (match self.days {
                        Some(d) => d,
                        None => DEFAULT_DAYS,
                    })
                },
                Err(a) => a@ == lowercase(self.asset@) && !allowed_assets().contains(a@),
            },
    {
        proof {
            reveal_strlit("bitcoin");
            reveal_strlit("ethereum");
            reveal_strlit("solana");
        }
        let asset = to_lowercase(self.asset.as_str());
        let names: [&str; 3] = ["bitcoin", "ethereum", "solana"];
        proof {
            assert(names@.len() == 3);
            assert(names@[0]@ =~= allowed_assets()[0]);
            assert(names@[1]@ =~= allowed_assets()[1]);
            assert(names@[2]@ =~= allowed_assets()[2]);
        }
        let ok = is_one_of(asset.as_str(), names.as_slice());
        proof {
            if allowed_assets().contains(asset@) {
                let j = choose|j: int| 0 <= j < 3 && allowed_assets()[j] == asset@;
                assert(names@[j]@ == asset@);
            }
            if ok {
                let j = choose|j: int| 0 <= j < names@.len() && #[trigger] names@[j]@ == asset@;
                assert(allowed_assets()[j] == asset@);
            }
        }
        if ok {
            let days = match self.days {
                Some(d) => d,
                None => DEFAULT_DAYS,
            };
            Ok((asset, days))
        } else {
            Err(asset)
        }
    }
}

impl KalshiQuery {
    /// The cache key of the markets of this series.
    pub fn cache_key(&self) -> (r: String)
        ensures
            r@ == seq!['k', 'a', 'l', 's', 'h', 'i', '-', 's', 'e', 'r', 'i', 'e', 's', '-']
                + self.series@,
    {
        proof {
            reveal_strlit("kalshi-series-");
            assert("kalshi-series-"@ =~= seq![
                'k', 'a', 'l', 's', 'h', 'i', '-', 's', 'e', 'r', 'i', 'e', 's', '-'
            ]);
        }
        concat2("kalshi-series-", self.series.as_str())
    }
}

/// How long a cached feed response is served, in milliseconds.
pub const CACHE_TTL_MS: u64 = 60_000;

/// A cached response under `key` is still served at time `now`: it exists
/// and its expiry lies after `now`.
pub open spec fn is_fresh<V>(m: Map<Seq<char>, (V, u64)>, key: Seq<char>, now: u64) -> bool {
    m.contains_key(key) && m[key].1 > now
}

/// A response stored at time `stored_at` is served from the cache until
/// `CACHE_TTL_MS` have passed, and not from then on.
pub proof fn law_cache_serves_fresh_writes<V>(
    m: Map<Seq<char>, (V, u64)>,
    key: Seq<char>,
    value: V,
    stored_at: u64,
    now: u64,
)
    requires
        stored_at + CACHE_TTL_MS <= u64::MAX,
        stored_at <= now,
    ensures
        ({
            let after = m.insert(key, (value, (stored_at + CACHE_TTL_MS) as u64));
            &&& is_fresh(after, key, now) <==> now < stored_at + CACHE_TTL_MS
            &&& after[key].0 == value
        }),
{
}

/// An in-memory cache of feed responses, each kept with its expiry time
/// (milliseconds on the server's monotonic clock).
///
/// Its view maps each key to the cached value and its expiry.
pub struct FeedCache<V> {
    entries: Vec<(String, V, u64)>,
}

impl<V> View for FeedCache<V> {
    type V = Map<Seq<char>, (V, u64)>;

    open spec fn view(&self) -> Map<Seq<char>, (V, u64)> {
        self.contents()
    }
}

impl<V> FeedCache<V> {
    #[verifier::type_invariant]
    spec fn well_formed(self) -> bool {
        forall|a: int, b: int|
            0 <= a < b < self.entries.len() ==> #[trigger] self.entries[a].0@
                != #[trigger] self.entries[b].0@
    }

    spec fn has_key(self, key: Seq<char>) -> bool {
        exists|e: int| 0 <= e < self.entries.len() && #[trigger] self.entries[e].0@ == key
    }

    spec fn index_of(self, key: Seq<char>) -> int {
        choose|e: int| 0 <= e < self.entries.len() && #[trigger] self.entries[e].0@ == key
    }

    pub closed spec fn contents(&self) -> Map<Seq<char>, (V, u64)> {
        Map::new(
            |k: Seq<char>| self.has_key(k),
            |k: Seq<char>| (self.entries[self.index_of(k)].1, self.entries[self.index_of(k)].2),
        )
    }

    proof fn lemma_lookup(&self, e: int)
        requires
            self.well_formed(),
            0 <= e < self.entries.len(),
        ensures
            self@.contains_key(self.entries[e].0@),
            self@[self.entries[e].0@] == (self.entries[e].1, self.entries[e].2),
    {
        let k = self.entries[e].0@;
        assert(self.has_key(k));
        let c = self.index_of(k);
        if c != e {
            if c < e {
                assert(self.entries[c].0@ != self.entries[e].0@);
            } else {
                assert(self.entries[e].0@ != self.entries[c].0@);
            }
        }
    }

    /// An empty cache.
    pub fn new() -> (c: FeedCache<V>)
        ensures
            c@ == Map::<Seq<char>, (V, u64)>::empty(),
    {
        let c = FeedCache { entries: Vec::new() };
        assert(c@ =~= Map::<Seq<char>, (V, u64)>::empty());
        c
    }

    fn find(&self, key: &str) -> (r: Option<usize>)
        ensures
            match r {
                Some(e) => e < self.entries.len() && self.entries[e as int].0@ == key@,
                None => !self@.contains_key(key@),
            },
    {
        let n = self.entries.len();
        let mut e: usize = 0;
        while e < n
            invariant
                n == self.entries.len(),
                e <= n,
                forall|k: int| 0 <= k < e ==> #[trigger] self.entries[k].0@ != key@,
            decreases n - e,
        {
            if text_eq(self.entries[e].0.as_str(), key) {
                return Some(e);
            }
            e = e + 1;
        }
        None
    }

    /// The cached value under `key`, if it has not expired at `now_ms`.
    pub fn lookup(&self, key: &str, now_ms: u64) -> (r: Option<&V>)
        ensures
            match r {
                Some(v) => is_fresh(self@, key@, now_ms) && *v == self@[key@].0,
                None => !is_fresh(self@, key@, now_ms),
            },
    {
        proof {
            use_type_invariant(self);
        }
        match self.find(key) {
            Some(e) => {
                proof {
                    self.lemma_lookup(e as int);
                }
                if self.entries[e].2 > now_ms {
                    Some(&self.entries[e].1)
                } else {
                    None
                }
            },
            None => None,
        }
    }

    /// Cache `value` under `key` at `now_ms`, to be served until
    /// `CACHE_TTL_MS` later; an earlier entry under `key` is replaced.
    pub fn store(&mut self, key: &str, value: V, now_ms: u64)
        requires
            now_ms + CACHE_TTL_MS <= u64::MAX,
        ensures
            final(self)@ == old(self)@.insert(key@, (value, (now_ms + CACHE_TTL_MS) as u64)),
    {
        proof {
            use_type_invariant(&*self);
        }
        let ghost old_self: FeedCache<V> = *self;
        let ghost before = self@;
        let ghost old_entries = self.entries@;
        let found = self.find(key);
        let mut entries: Vec<(String, V, u64)> = Vec::new();
        std::mem::swap(&mut entries, &mut self.entries);
        let entry = (key.to_owned(), value, now_ms + CACHE_TTL_MS);
        let ghost new_entry = entry;
        let pos: usize = match found {
            Some(e) => {
                let _ = entries.remove(e);
                entries.insert(e, entry);
                e
            },
            None => {
                entries.push(entry);
                entries.len() - 1
            },
        };
        proof {
            match found {
                Some(e) => {
                    assert(entries@ =~= old_entries.update(e as int, new_entry));
                },
                None => {
                    assert(entries@ =~= old_entries.push(new_entry));
                },
            }
            assert forall|a: int, b: int| 0 <= a < b < entries.len() implies #[trigger] entries@[a].0@
                != #[trigger] entries@[b].0@ by {
                if a != pos as int && b != pos as int {
                    assert(old_entries[a].0@ != old_entries[b].0@);
                } else if a == pos as int {
                    if !before.contains_key(key@) {
                    } else {
                        assert(old_entries[a].0@ == key@);
                        assert(old_entries[a].0@ != old_entries[b].0@);
                    }
                    if found is None {
                        assert(old_self.entries[b].0@ != key@);
                    }
                } else {
                    if found is None {
                        assert(b == old_entries.len());
                        assert(old_self.entries[a].0@ != key@);
                    } else {
                        assert(old_entries[b].0@ == key@);
                        assert(old_entries[a].0@ != old_entries[b].0@);
                    }
                }
            }
        }
        self.entries = entries;
        proof {
            use_type_invariant(&*self);
            let k = key@;
            self.lemma_lookup(pos as int);
            assert forall|k2: Seq<char>| k2 != k implies (#[trigger] self@.contains_key(k2)
                == before.contains_key(k2) && (self@.contains_key(k2) ==> self@[k2] == before[k2])) by {
                if before.contains_key(k2) {
                    let c = choose|c: int| 0 <= c < old_entries.len() && #[trigger] old_entries[c].0@ == k2;
                    assert(c != pos);
                    assert(self.entries[c] == old_entries[c]);
                    self.lemma_lookup(c);
                    old_self.lemma_lookup(c);
                }
                if self@.contains_key(k2) {
                    let c = choose|c: int| 0 <= c < self.entries.len() && #[trigger] self.entries[c].0@ == k2;
                    assert(c != pos);
                    assert(self.entries[c] == old_entries[c]);
                    old_self.lemma_lookup(c);
                }
            }
            assert(self@ =~= before.insert(k, (value, (now_ms + CACHE_TTL_MS) as u64)));
        }
    }
}

} // verus!
