//! OpenSky / ADS-B aircraft states: which states make up the altitude
//! track of one aircraft.

use vstd::prelude::*;
use crate::text::text_eq;

verus! {

/// What the track and sampling logic reads of an aircraft state.
#[derive(Debug, Clone)]
pub struct AircraftSighting {
    pub icao24: String,
    pub on_ground: bool,
    /// Whether the state carries a barometric or geometric altitude.
    pub has_altitude: bool,
}

/// The states, in feed order, that give the altitude track of `icao24`:
/// those of that aircraft that carry an altitude.
pub fn altitude_track(sightings: &Vec<AircraftSighting>, icao24: &str) -> (r: Vec<usize>)
    ensures
        forall|k: int| 0 <= k < r.len() ==> #[trigger] r[k] < sightings.len(),
        forall|a: int, b: int| 0 <= a < b < r.len() ==> #[trigger] r[a] < #[trigger] r[b],
        forall|j: int|
            0 <= j < sightings.len() ==> (r@.contains(j as usize) <==> (sightings@[j].icao24@ == icao24@
                && sightings@[j].has_altitude)),
{
    let n = sightings.len();
    let mut r: Vec<usize> = Vec::new();
    let mut i: usize = 0;
    while i < n
        invariant
            n == sightings.len(),
            i <= n,
            forall|k: int| 0 <= k < r.len() ==> #[trigger] r[k] < i,
            forall|a: int, b: int| 0 <= a < b < r.len() ==> #[trigger] r[a] < #[trigger] r[b],
            forall|j: int|
                0 <= j < i ==> (r@.contains(j as usize) <==> (sightings@[j].icao24@ == icao24@
                    && sightings@[j].has_altitude)),
        decreases n - i,
    {
        let ghost old_r = r@;
        if sightings[i].has_altitude && text_eq(sightings[i].icao24.as_str(), icao24) {
            r.push(i);
        }
        proof {
            assert forall|j: int| 0 <= j < i + 1 implies (r@.contains(j as usize) <==> (
            sightings@[j].icao24@ == icao24@ && sightings@[j].has_altitude)) by {
                if r@.contains(j as usize) {
                    let q = choose|q: int| 0 <= q < r@.len() && r@[q] == j as usize;
                    if q < old_r.len() {
                        assert(old_r[q] == j as usize);
                    }
                }
                if j < i && old_r.contains(j as usize) {
                    let q = choose|q: int| 0 <= q < old_r.len() && old_r[q] == j as usize;
                    assert(r@[q] == j as usize);
                }
                if j == i && sightings@[j].icao24@ == icao24@ && sightings@[j].has_altitude {
                    assert(r@[r@.len() - 1] == i);
                }
            }
        }
        i = i + 1;
    }
    r
}

} // verus!
