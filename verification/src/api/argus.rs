//! Request handling of the ARGUS analysis endpoint: the request and its
//! defaults, webhook validation, which aircraft are sampled, and the
//! counts and status the response reports.

use vstd::prelude::*;
use crate::detectors::argus::AnomalySeverity;
use crate::feeds::opensky::AircraftSighting;
use crate::text::{concat2, has_prefix};

verus! {

/// Body of a request to the ARGUS analysis endpoint.
#[derive(Debug, Clone)]
pub struct ArgusAnalyzeRequest {
    /// USGS feed period; "all_day" when absent.
    pub seismic_period: Option<String>,
    /// If set, critical anomalies are posted to this URL, which must start
    /// with "http://" or "https://".
    pub webhook_url: Option<String>,
}

pub open spec fn all_day() -> Seq<char> {
    seq!['a', 'l', 'l', '_', 'd', 'a', 'y']
}

pub open spec fn http_scheme() -> Seq<char> {
    seq!['h', 't', 't', 'p', ':', '/', '/']
}

pub open spec fn https_scheme() -> Seq<char> {
    seq!['h', 't', 't', 'p', 's', ':', '/', '/']
}

pub open spec fn starts_with(s: Seq<char>, p: Seq<char>) -> bool {
    p.len() <= s.len() && s.subrange(0, p.len() as int) == p
}

/// A webhook URL is accepted when it starts with "http://" or "https://".
pub open spec fn webhook_accepted(url: Seq<char>) -> bool {
    starts_with(url, http_scheme()) || starts_with(url, https_scheme())
}

/// Whether `url` may be used as a webhook target.
pub fn is_webhook_url(url: &str) -> (r: bool)
    ensures
        r == webhook_accepted(url@),
{
    proof {
        reveal_strlit("http://");
        reveal_strlit("https://");
        assert("http://"@ =~= http_scheme());
        assert("https://"@ =~= https_scheme());
    }
    has_prefix(url, "http://") || has_prefix(url, "https://")
}

impl ArgusAnalyzeRequest {
    /// The USGS period to analyse: the requested one, or "all_day".
    pub fn period(&self) -> (r: &str)
        ensures
            r@ == (match self.seismic_period {
                Some(p) => p@,
                None => all_day(),
            }),
    {
        proof {
            reveal_strlit("all_day");
            assert("all_day"@ =~= all_day());
        }
        match &self.seismic_period {
            Some(p) => p.as_str(),
            None => "all_day",
        }
    }

    /// Whether the request is accepted: it names no webhook, or one whose
    /// URL starts with "http://" or "https://".
    pub fn is_valid(&self) -> (r: bool)
        ensures
            r == (match self.webhook_url {
                Some(u) => webhook_accepted(u@),
                None => true,
            }),
    {
        match &self.webhook_url {
            Some(u) => is_webhook_url(u.as_str()),
            None => true,
        }
    }

    /// The webhook to notify once `critical_count` critical anomalies are
    /// found: the requested URL when there is at least one, else none.
    pub fn webhook_to_notify(&self, critical_count: usize) -> (r: Option<&str>)
        ensures
            match r {
                Some(u) => critical_count > 0 && (self.webhook_url matches Some(w) && u@ == w@),
                None => critical_count == 0 || self.webhook_url is None,
            },
    {
        if critical_count == 0 {
            return None;
        }
        match &self.webhook_url {
            Some(u) => Some(u.as_str()),
            None => None,
        }
    }
}

/// The number of flights sampled per analysis.
pub const MAX_SAMPLED_FLIGHTS: usize = 5;

pub open spec fn airborne(s: AircraftSighting) -> bool {
    !s.on_ground && s.has_altitude
}

/// `j` is the first airborne sighting of its aircraft.
pub open spec fn first_airborne_sighting(s: Seq<AircraftSighting>, j: int) -> bool {
    &&& 0 <= j < s.len()
    &&& airborne(s[j])
    &&& forall|i: int| 0 <= i < j && airborne(s[i]) ==> s[i].icao24@ != s[j].icao24@
}

/// `r` lists, in order, the first `limit` sightings that are the first
/// airborne sighting of their aircraft.
pub open spec fn is_flight_sample(s: Seq<AircraftSighting>, limit: nat, r: Seq<usize>) -> bool {
    &&& r.len() <= limit
    &&& forall|k: int| 0 <= k < r.len() ==> first_airborne_sighting(s, #[trigger] r[k] as int)
    &&& forall|a: int, b: int| 0 <= a < b < r.len() ==> #[trigger] r[a] < #[trigger] r[b]
    &&& forall|j: int|
        first_airborne_sighting(s, j) && !r.contains(j as usize) ==> {
            &&& r.len() == limit
            &&& forall|k: int| 0 <= k < r.len() ==> #[trigger] r[k] < j
        }
}

/// Every airborne sighting has a first airborne sighting of the same
/// aircraft at or before it.
proof fn lemma_first_sighting_exists(s: Seq<AircraftSighting>, j: int)
    requires
        0 <= j < s.len(),
        airborne(s[j]),
    ensures
        exists|f: int|
            0 <= f <= j && first_airborne_sighting(s, f) && #[trigger] s[f].icao24@ == s[j].icao24@,
    decreases j,
{
    if first_airborne_sighting(s, j) {
        assert(s[j].icao24@ == s[j].icao24@);
    } else {
        let i = choose|i: int| 0 <= i < j && airborne(s[i]) && s[i].icao24@ == s[j].icao24@;
        lemma_first_sighting_exists(s, i);
        let f = choose|f: int|
            0 <= f <= i && first_airborne_sighting(s, f) && #[trigger] s[f].icao24@ == s[i].icao24@;
        assert(s[f].icao24@ == s[j].icao24@);
    }
}

/// The sightings whose aircraft are analysed: distinct airborne aircraft,
/// in order of first airborne sighting, at most `limit` of them.
pub fn sample_flights(sightings: &Vec<AircraftSighting>, limit: usize) -> (r: Vec<usize>)
    ensures
        is_flight_sample(sightings@, limit as nat, r@),
{
    let n = sightings.len();
    let mut r: Vec<usize> = Vec::new();
    let mut i: usize = 0;
    while i < n && r.len() < limit
        invariant
            n == sightings.len(),
            i <= n,
            r.len() <= limit,
            forall|k: int| 0 <= k < r.len() ==> #[trigger] r[k] < i,
            forall|k: int| 0 <= k < r.len() ==> first_airborne_sighting(sightings@, #[trigger] r[k] as int),
            forall|a: int, b: int| 0 <= a < b < r.len() ==> #[trigger] r[a] < #[trigger] r[b],
            forall|j: int|
                0 <= j < i && first_airborne_sighting(sightings@, j) ==> r@.contains(j as usize),
        decreases n - i,
    {
        let s = &sightings[i];
        if !s.on_ground && s.has_altitude {
            let mut k: usize = 0;
            while k < r.len() && !(sightings[r[k]].icao24 == s.icao24)
                invariant
                    i < n,
                    n == sightings.len(),
                    *s == sightings@[i as int],
                    k <= r.len(),
                    forall|q: int| 0 <= q < r.len() ==> #[trigger] r[q] < n,
                    forall|q: int|
                        0 <= q < k ==> #[trigger] sightings@[r[q] as int].icao24@ != sightings@[i as int].icao24@,
                decreases r.len() - k,
            {
                k = k + 1;
            }
            let ghost old_r = r@;
            if k == r.len() {
                proof {
                    assert forall|j: int| 0 <= j < i && airborne(sightings@[j]) implies sightings@[j].icao24@
                        != sightings@[i as int].icao24@ by {
                        if sightings@[j].icao24@ == sightings@[i as int].icao24@ {
                            lemma_first_sighting_exists(sightings@, j);
                            let f = choose|f: int|
                                0 <= f <= j && first_airborne_sighting(sightings@, f)
                                    && #[trigger] sightings@[f].icao24@ == sightings@[j].icao24@;
                            assert(old_r.contains(f as usize));
                            let q = choose|q: int| 0 <= q < old_r.len() && old_r[q] == f as usize;
                            assert(sightings@[old_r[q] as int].icao24@ != sightings@[i as int].icao24@);
                        }
                    }
                }
                r.push(i);
                proof {
                    assert forall|j: int| 0 <= j < i + 1 && first_airborne_sighting(sightings@, j) implies r@.contains(
                        j as usize,
                    ) by {
                        if j < i {
                            let q = choose|q: int| 0 <= q < old_r.len() && old_r[q] == j as usize;
                            assert(r@[q] == j as usize);
                        } else {
                            assert(r@[old_r.len() as int] == j as usize);
                        }
                    }
                }
            } else {
                proof {
                    assert(sightings@[r[k as int] as int].icao24@ == sightings@[i as int].icao24@);
                    assert(airborne(sightings@[r[k as int] as int]));
                    assert(!first_airborne_sighting(sightings@, i as int));
                }
            }
        }
        i = i + 1;
    }
    proof {
        assert forall|j: int| first_airborne_sighting(sightings@, j) && !r@.contains(j as usize) implies {
            &&& r@.len() == limit
            &&& forall|k: int| 0 <= k < r@.len() ==> #[trigger] r@[k] < j
        } by {
            assert(j >= i);
        }
    }
    r
}

/// The feed id under which a sampled flight is reported.
pub fn flight_feed_id(icao24: &str) -> (r: String)
    ensures
        r@ == seq!['o', 'p', 'e', 'n', 's', 'k', 'y', '-', 'f', 'l', 'i', 'g', 'h', 't', '-'] + icao24@,
{
    proof {
        reveal_strlit("opensky-flight-");
        assert("opensky-flight-"@ =~= seq![
            'o', 'p', 'e', 'n', 's', 'k', 'y', '-', 'f', 'l', 'i', 'g', 'h', 't', '-'
        ]);
    }
    concat2("opensky-flight-", icao24)
}

/// The number of critical anomalies.
pub open spec fn count_critical(s: Seq<AnomalySeverity>) -> nat
    decreases s.len(),
{
    if s.len() == 0 {
        0
    } else {
        count_critical(s.drop_last()) + if s.last() == AnomalySeverity::Critical {
            1nat
        } else {
            0nat
        }
    }
}

/// The critical count is the number of anomalies rated critical, and no
/// other: the length of the list filtered to critical ratings.
pub proof fn law_critical_count(s: Seq<AnomalySeverity>)
    ensures
        count_critical(s) == s.filter(|x: AnomalySeverity| x == AnomalySeverity::Critical).len(),
    decreases s.len(),
{
    reveal(Seq::filter);
    if s.len() > 0 {
        law_critical_count(s.drop_last());
    }
}

/// How many of the anomalies are critical.
pub fn critical_count(severities: &Vec<AnomalySeverity>) -> (r: usize)
    ensures
        r == count_critical(severities@),
{
    let n = severities.len();
    let mut c: usize = 0;
    let mut i: usize = 0;
    while i < n
        invariant
            n == severities.len(),
            i <= n,
            c == count_critical(severities@.take(i as int)),
            c <= i,
        decreases n - i,
    {
        proof {
            assert(severities@.take(i + 1).drop_last() =~= severities@.take(i as int));
        }
        if severities[i] == AnomalySeverity::Critical {
            c = c + 1;
        }
        i = i + 1;
    }
    proof {
        assert(severities@.take(n as int) =~= severities@);
    }
    c
}

/// Whether an analysis endpoint answers "bad gateway": it produced no
/// result and at least one upstream error.
pub fn is_upstream_failure(results: usize, errors: usize) -> (r: bool)
    ensures
        r == (results == 0 && errors > 0),
{
    results == 0 && errors > 0
}

} // verus!
