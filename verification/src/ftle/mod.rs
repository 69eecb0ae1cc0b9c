//! Phase-space reconstruction for the FTLE / Lyapunov chaos analysis.

pub mod embedding;
