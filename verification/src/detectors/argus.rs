//! ARGUS geospatial anomaly classification: severity of an anomaly from
//! its chaos score and regime change, and the analysis windows of flight
//! tracks and seismic series.

use vstd::prelude::*;

verus! {

/// Severity of an ARGUS anomaly.
#[derive(Debug, Clone, Copy, PartialEq, Eq, Structural)]
pub enum AnomalySeverity {
    Low,
    Medium,
    High,
    Critical,
}

/// The severity rule: a regime change with a score above 0.6 is critical;
/// otherwise a score above 0.7 is high; a regime change with a score above
/// 0.3, or any score above 0.4, is medium; everything else is low.
pub open spec fn severity_rule(
    above_0_3: bool,
    above_0_4: bool,
    above_0_6: bool,
    above_0_7: bool,
    regime_changed: bool,
) -> AnomalySeverity {
    if regime_changed && above_0_6 {
        AnomalySeverity::Critical
    } else if above_0_7 {
        AnomalySeverity::High
    } else if regime_changed && above_0_3 {
        AnomalySeverity::Medium
    } else if above_0_4 {
        AnomalySeverity::Medium
    } else {
        AnomalySeverity::Low
    }
}

impl AnomalySeverity {
    /// Severity from the outcomes of `score > 0.3`, `score > 0.4`,
    /// `score > 0.6`, `score > 0.7` and the regime-change flag.
    pub fn from_thresholds(
        above_0_3: bool,
        above_0_4: bool,
        above_0_6: bool,
        above_0_7: bool,
        regime_changed: bool,
    ) -> (s: AnomalySeverity)
        ensures
            s == severity_rule(above_0_3, above_0_4, above_0_6, above_0_7, regime_changed),
    {
        if regime_changed && above_0_6 {
            AnomalySeverity::Critical
        } else if above_0_7 {
            AnomalySeverity::High
        } else if regime_changed && above_0_3 {
            AnomalySeverity::Medium
        } else if above_0_4 {
            AnomalySeverity::Medium
        } else {
            AnomalySeverity::Low
        }
    }

    /// The variant's name, as the API reports it ("Low", "Medium", ...).
    pub fn name(&self) -> (r: &'static str)
        ensures
            r@ == severity_name(*self),
    {
        proof {
            reveal_strlit("Low");
            reveal_strlit("Medium");
            reveal_strlit("High");
            reveal_strlit("Critical");
        }
        match self {
            AnomalySeverity::Low => "Low",
            AnomalySeverity::Medium => "Medium",
            AnomalySeverity::High => "High",
            AnomalySeverity::Critical => "Critical",
        }
    }
}

pub open spec fn severity_name(s: AnomalySeverity) -> Seq<char> {
    match s {
        AnomalySeverity::Low => seq!['L', 'o', 'w'],
        AnomalySeverity::Medium => seq!['M', 'e', 'd', 'i', 'u', 'm'],
        AnomalySeverity::High => seq!['H', 'i', 'g', 'h'],
        AnomalySeverity::Critical => seq!['C', 'r', 'i', 't', 'i', 'c', 'a', 'l'],
    }
}

/// Severities in increasing order: Low, Medium, High, Critical.
pub open spec fn severity_rank(s: AnomalySeverity) -> int {
    match s {
        AnomalySeverity::Low => 0,
        AnomalySeverity::Medium => 1,
        AnomalySeverity::High => 2,
        AnomalySeverity::Critical => 3,
    }
}

/// What each severity means: critical is a regime change with a score
/// above 0.6; high is given only to scores above 0.7 (and is what such a
/// score gets without a critical rating); medium is a score above 0.4, or
/// a regime change with a score above 0.3, that is neither critical nor
/// high; everything else is low.
pub proof fn law_severity_meaning(
    above_0_3: bool,
    above_0_4: bool,
    above_0_6: bool,
    above_0_7: bool,
    regime_changed: bool,
)
    ensures
        ({
            let s = severity_rule(above_0_3, above_0_4, above_0_6, above_0_7, regime_changed);
            &&& (s == AnomalySeverity::Critical <==> regime_changed && above_0_6)
            &&& (s == AnomalySeverity::High ==> above_0_7)
            &&& (above_0_7 && !(regime_changed && above_0_6) ==> s == AnomalySeverity::High)
            &&& (above_0_3 && !above_0_6 && !above_0_7 && regime_changed ==> s == AnomalySeverity::Medium)
            &&& (above_0_4 && !above_0_7 && !(regime_changed && above_0_6) ==> s == AnomalySeverity::Medium)
            &&& (s == AnomalySeverity::Low <==> !above_0_4 && !above_0_7 && !(regime_changed && above_0_3)
                && !(regime_changed && above_0_6))
        }),
{
}

/// Only a regime change makes an anomaly critical: without one, no chaos
/// score is rated above high.
pub proof fn law_critical_needs_regime_change(above_0_3: bool, above_0_4: bool, above_0_6: bool, above_0_7: bool)
    ensures
        severity_rule(above_0_3, above_0_4, above_0_6, above_0_7, false) != AnomalySeverity::Critical,
{
}

/// A higher chaos score, or a regime change where there was none, never
/// lowers the severity: when every threshold the first score passes is
/// passed by the second, and a regime change in the first case is one in
/// the second, the second severity ranks at least as high.
pub proof fn law_severity_monotone(
    lower: (bool, bool, bool, bool),
    higher: (bool, bool, bool, bool),
    lower_changed: bool,
    higher_changed: bool,
)
    requires
        lower.0 ==> higher.0,
        lower.1 ==> higher.1,
        lower.2 ==> higher.2,
        lower.3 ==> higher.3,
        lower_changed ==> higher_changed,
    ensures
        severity_rank(severity_rule(lower.0, lower.1, lower.2, lower.3, lower_changed)) <= severity_rank(
            severity_rule(higher.0, higher.1, higher.2, higher.3, higher_changed),
        ),
{
}

/// The windows of an ARGUS analysis: `None` when the series is shorter
/// than `min_series_len` (too little data); else the split point between
/// history and the recent `history_window` points (0 when the series is
/// shorter than that window), and whether the two windows are compared for
/// a regime change (only when the history holds more than 20 points).
pub fn argus_windows(len: usize, min_series_len: usize, history_window: usize) -> (r: Option<(usize, bool)>)
    ensures
        match r {
            Some((split, compare)) => {
                &&& len >= min_series_len
                &&& split == (if len >= history_window {
                    len - history_window
                } else {
                    0
                })
                &&& compare == (split > 20)
            },
            None => len < min_series_len,
        },
{
    if len < min_series_len {
        return None;
    }
    let split = len.saturating_sub(history_window);
    Some((split, split > 20))
}

} // verus!
