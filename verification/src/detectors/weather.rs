//! Weather market edges: confidence from the ensemble spread, its label,
//! and the windows of the temperature analyses.

use vstd::prelude::*;

verus! {

/// Confidence in a weather edge, from the agreement of the ensemble.
#[derive(Debug, Clone, Copy, PartialEq, Eq, Structural)]
pub enum EdgeConfidence {
    /// Model spread below 1.0 degree: the models agree.
    High,
    /// Model spread from 1.0 up to and including 3.0 degrees.
    Medium,
    /// Model spread above 3.0 degrees: too uncertain to trade.
    Low,
}

impl EdgeConfidence {
    /// Confidence from the outcomes of `spread < 1.0` and `spread <= 3.0`.
    pub fn from_spread_thresholds(below_1: bool, at_most_3: bool) -> (c: EdgeConfidence)
        ensures
            c == (if below_1 {
                EdgeConfidence::High
            } else if at_most_3 {
                EdgeConfidence::Medium
            } else {
                EdgeConfidence::Low
            }),
    {
        if below_1 {
            EdgeConfidence::High
        } else if at_most_3 {
            EdgeConfidence::Medium
        } else {
            EdgeConfidence::Low
        }
    }

    /// Whether an edge with this confidence is worth trading, given whether
    /// the edge reaches the detector's minimum: it must, and the confidence
    /// must not be low.
    pub fn is_tradeable(&self, edge_at_least_min: bool) -> (r: bool)
        ensures
            r == (edge_at_least_min && *self != EdgeConfidence::Low),
    {
        edge_at_least_min && !matches!(self, EdgeConfidence::Low)
    }
}

pub open spec fn confidence_name(c: EdgeConfidence) -> Seq<char> {
    match c {
        EdgeConfidence::High => seq!['H', 'I', 'G', 'H'],
        EdgeConfidence::Medium => seq!['M', 'E', 'D', 'I', 'U', 'M'],
        EdgeConfidence::Low => seq!['L', 'O', 'W'],
    }
}

/// The label a confidence is reported under ("HIGH", "MEDIUM", "LOW").
pub fn confidence_label(c: &EdgeConfidence) -> (r: &'static str)
    ensures
        r@ == confidence_name(*c),
{
    proof {
        reveal_strlit("HIGH");
        reveal_strlit("MEDIUM");
        reveal_strlit("LOW");
    }
    match c {
        EdgeConfidence::High => "HIGH",
        EdgeConfidence::Medium => "MEDIUM",
        EdgeConfidence::Low => "LOW",
    }
}

/// The split of a temperature series into halves for the weather regime
/// test, or `None` when it has fewer than 100 points.
pub fn weather_halves(len: usize) -> (r: Option<usize>)
    ensures
        match r {
            Some(split) => len >= 100 && split == len / 2,
            None => len < 100,
        },
{
    if len < 100 {
        None
    } else {
        Some(len / 2)
    }
}

/// Whether a temperature series is long enough (50 points) for its chaos
/// score to be computed; shorter series score 0.
pub fn weather_chaos_applies(len: usize) -> (r: bool)
    ensures
        r == (len >= 50),
{
    len >= 50
}

} // verus!
