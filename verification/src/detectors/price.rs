//! Price regime classification: the trading regime from current and
//! historical chaos, and the windows the price detector analyses.

use vstd::prelude::*;

verus! {

/// Trading regime of a price series.
#[derive(Debug, Clone, Copy, PartialEq, Eq, Structural)]
pub enum TradingSignal {
    /// System stable, low chaos: trend-following works.
    Trending,
    /// Edge of chaos: prepare for a breakout, tighten stops.
    Transitioning,
    /// High chaos: mean reversion, reduce size, watch for a reversal.
    Chaotic,
    /// Regime just changed stable to chaotic: breakout.
    BreakoutSignal,
    /// Regime just changed chaotic to stable: reversal.
    ReversalSignal,
}

/// The regime rule: a regime change is a breakout when recent chaos
/// exceeds historical chaos and a reversal otherwise; without a change,
/// recent chaos above 0.65 is chaotic, above 0.35 transitioning, and
/// trending below that.
pub open spec fn regime_rule(
    regime_changed: bool,
    recent_above_history: bool,
    recent_above_0_65: bool,
    recent_above_0_35: bool,
) -> TradingSignal {
    if regime_changed {
        if recent_above_history {
            TradingSignal::BreakoutSignal
        } else {
            TradingSignal::ReversalSignal
        }
    } else if recent_above_0_65 {
        TradingSignal::Chaotic
    } else if recent_above_0_35 {
        TradingSignal::Transitioning
    } else {
        TradingSignal::Trending
    }
}

impl TradingSignal {
    /// The regime from the outcomes of the regime-change test,
    /// `recent > historical`, `recent > 0.65` and `recent > 0.35`.
    pub fn from_thresholds(
        regime_changed: bool,
        recent_above_history: bool,
        recent_above_0_65: bool,
        recent_above_0_35: bool,
    ) -> (s: TradingSignal)
        ensures
            s == regime_rule(regime_changed, recent_above_history, recent_above_0_65, recent_above_0_35),
    {
        if regime_changed {
            if recent_above_history {
                TradingSignal::BreakoutSignal
            } else {
                TradingSignal::ReversalSignal
            }
        } else if recent_above_0_65 {
            TradingSignal::Chaotic
        } else if recent_above_0_35 {
            TradingSignal::Transitioning
        } else {
            TradingSignal::Trending
        }
    }
}

/// What each regime means: across a regime change, rising chaos is a
/// breakout and falling (or equal) chaos a reversal, whatever the level of
/// the recent chaos; without a change, recent chaos above 0.65 is chaotic,
/// above 0.35 (and at most 0.65) transitioning, and at most 0.35 trending,
/// whatever the historical chaos.
pub proof fn law_regime_meaning(recent_above_history: bool, recent_above_0_65: bool, recent_above_0_35: bool)
    ensures
        regime_rule(true, true, recent_above_0_65, recent_above_0_35) == TradingSignal::BreakoutSignal,
        regime_rule(true, false, recent_above_0_65, recent_above_0_35) == TradingSignal::ReversalSignal,
        regime_rule(false, recent_above_history, true, recent_above_0_35) == TradingSignal::Chaotic,
        regime_rule(false, recent_above_history, false, true) == TradingSignal::Transitioning,
        regime_rule(false, recent_above_history, false, false) == TradingSignal::Trending,
{
}

/// The split of a price series into history and its last `recent_window`
/// points, or `None` when the series is shorter than both windows
/// together.
pub fn price_windows(len: usize, history_window: usize, recent_window: usize) -> (r: Option<usize>)
    requires
        history_window + recent_window <= usize::MAX,
    ensures
        match r {
            Some(split) => len >= history_window + recent_window && split == len - recent_window,
            None => len < history_window + recent_window,
        },
{
    let min_len = history_window + recent_window;
    if len < min_len {
        None
    } else {
        Some(len - recent_window)
    }
}

/// The number of points an echo-state price forecast trains on: 100
/// (the last-price prediction uses a fixed 100-point window) when
/// forecasting is enabled and the series has at least 100 points.
pub fn forecast_window(len: usize, enabled: bool) -> (r: Option<usize>)
    ensures
        match r {
            Some(n) => enabled && len >= 100 && n == 100,
            None => !enabled || len < 100,
        },
{
    if enabled && len >= 100 {
        Some(100)
    } else {
        None
    }
}

} // verus!
