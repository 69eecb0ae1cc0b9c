//! Classification rules of the three detectors: ARGUS (flight tracks and
//! seismic series), weather market edges, and price regimes.

pub mod argus;
pub mod price;
pub mod weather;
