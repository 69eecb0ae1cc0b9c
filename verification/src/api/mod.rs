//! Request handling of the HTTP API: parameters, validation, queries and
//! aggregates. The handlers themselves, which do the I/O, stand outside
//! this crate.

pub mod analyze;
pub mod argus;
pub mod esn;
pub mod feeds;
pub mod metrics;
pub mod signals;
pub mod signals_db;
