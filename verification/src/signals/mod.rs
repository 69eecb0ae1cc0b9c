//! The Kalshi signal engine's labelling rules.

pub mod kalshi;
