//! External data feeds: the Kalshi API's request paths and signing, the
//! altitude tracks of OpenSky aircraft, and the ordering of the USGS
//! earthquake series.

pub mod kalshi;
pub mod opensky;
pub mod usgs;
