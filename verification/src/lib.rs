//! Phantom: anomaly detection engine for geospatial feeds, weather markets
//! and price regime changes.
//!
//! This crate holds the verified core of the engine: the rolling feed
//! buffer and the daemon's state, the detectors' classification rules, the
//! signal engine's labels, the signal-log queries and aggregates, request
//! validation, and the Kalshi request-signing text.

pub mod api;
pub mod daemon;
pub mod detectors;
pub mod feeds;
pub mod ftle;
pub mod signals;
pub mod text;
