//! The Kalshi signal engine's labelling rules: which action a signal
//! calls for, which side it favours, and the labels it is reported and
//! persisted under.

use vstd::prelude::*;
use crate::detectors::price::TradingSignal;
use crate::detectors::weather::{EdgeConfidence, confidence_label, confidence_name};
use crate::text::concat2;

verus! {

/// What to do with a Kalshi market signal.
#[derive(Debug, Clone, Copy, PartialEq, Eq, Structural)]
pub enum SignalAction {
    /// Strong edge: trade it.
    Enter,
    /// Edge exists but chaos is too high: watch only.
    Watch,
    /// No edge: skip.
    Skip,
}

pub open spec fn action_name(a: SignalAction) -> Seq<char> {
    match a {
        SignalAction::Enter => seq!['E', 'n', 't', 'e', 'r'],
        SignalAction::Watch => seq!['W', 'a', 't', 'c', 'h'],
        SignalAction::Skip => seq!['S', 'k', 'i', 'p'],
    }
}

pub open spec fn action_record_label(a: SignalAction) -> Seq<char> {
    match a {
        SignalAction::Enter => seq!['E', 'N', 'T', 'E', 'R'],
        SignalAction::Watch => seq!['W', 'A', 'T', 'C', 'H'],
        SignalAction::Skip => seq!['S', 'K', 'I', 'P'],
    }
}

impl SignalAction {
    /// The variant's name ("Enter", "Watch", "Skip").
    pub fn name(&self) -> (r: &'static str)
        ensures
            r@ == action_name(*self),
    {
        proof {
            reveal_strlit("Enter");
            reveal_strlit("Watch");
            reveal_strlit("Skip");
        }
        match self {
            SignalAction::Enter => "Enter",
            SignalAction::Watch => "Watch",
            SignalAction::Skip => "Skip",
        }
    }

    /// The label a persisted record carries ("ENTER", "WATCH", "SKIP").
    pub fn record_label(&self) -> (r: &'static str)
        ensures
            r@ == action_record_label(*self),
    {
        proof {
            reveal_strlit("ENTER");
            reveal_strlit("WATCH");
            reveal_strlit("SKIP");
        }
        match self {
            SignalAction::Enter => "ENTER",
            SignalAction::Watch => "WATCH",
            SignalAction::Skip => "SKIP",
        }
    }

    /// Whether a signal with this action is persisted: Enter and Watch
    /// signals are, Skip signals carry nothing to backtest.
    pub fn is_actionable(&self) -> (r: bool)
        ensures
            r == (*self == SignalAction::Enter || *self == SignalAction::Watch),
            r == (*self != SignalAction::Skip),
    {
        match self {
            SignalAction::Skip => false,
            _ => true,
        }
    }
}

/// The labels of a Kalshi signal: market, side, confidence and action.
#[derive(Debug, Clone)]
pub struct SignalLabels {
    pub market_type: String,
    /// "YES" or "NO".
    pub direction: String,
    /// "HIGH", "MEDIUM" or "LOW".
    pub confidence: String,
    pub action: SignalAction,
}

pub open spec fn yes() -> Seq<char> {
    seq!['Y', 'E', 'S']
}

pub open spec fn no() -> Seq<char> {
    seq!['N', 'O']
}

fn direction_text(favours_yes: bool) -> (r: &'static str)
    ensures
        r@ == if favours_yes {
            yes()
        } else {
            no()
        },
{
    proof {
        reveal_strlit("YES");
        reveal_strlit("NO");
    }
    if favours_yes {
        "YES"
    } else {
        "NO"
    }
}

/// The action rule for a weather edge: low confidence is always skipped;
/// otherwise an edge at or above the entry threshold with chaos at or
/// below the entry ceiling is entered; any other positive edge is watched;
/// no edge is skipped.
pub open spec fn edge_action_rule(
    confidence: EdgeConfidence,
    meets_entry: bool,
    has_edge: bool,
) -> SignalAction {
    if confidence == EdgeConfidence::Low {
        SignalAction::Skip
    } else if meets_entry {
        SignalAction::Enter
    } else if has_edge {
        SignalAction::Watch
    } else {
        SignalAction::Skip
    }
}

/// A weather edge held with low confidence is skipped, whatever its size
/// and chaos; and an edge is entered only when it passes the entry test.
pub proof fn law_weather_entry(confidence: EdgeConfidence, meets_entry: bool, has_edge: bool)
    ensures
        edge_action_rule(EdgeConfidence::Low, meets_entry, has_edge) == SignalAction::Skip,
        edge_action_rule(confidence, meets_entry, has_edge) == SignalAction::Enter ==> meets_entry
            && confidence != EdgeConfidence::Low,
        confidence != EdgeConfidence::Low && meets_entry ==> edge_action_rule(confidence, meets_entry, has_edge)
            == SignalAction::Enter,
        confidence != EdgeConfidence::Low && !meets_entry && has_edge ==> edge_action_rule(
            confidence,
            meets_entry,
            has_edge,
        ) == SignalAction::Watch,
        !meets_entry && !has_edge ==> edge_action_rule(confidence, meets_entry, has_edge)
            == SignalAction::Skip,
{
}

/// The labels signals are reported and persisted under: actions by name
/// ("Enter", "Watch", "Skip") and in capitals in the log; sides "YES" and
/// "NO"; confidences "HIGH", "MEDIUM", "LOW"; price markets under "price/".
pub proof fn law_labels()
    ensures
        action_name(SignalAction::Enter) == seq!['E', 'n', 't', 'e', 'r'],
        action_name(SignalAction::Watch) == seq!['W', 'a', 't', 'c', 'h'],
        action_name(SignalAction::Skip) == seq!['S', 'k', 'i', 'p'],
        action_record_label(SignalAction::Enter) == seq!['E', 'N', 'T', 'E', 'R'],
        action_record_label(SignalAction::Watch) == seq!['W', 'A', 'T', 'C', 'H'],
        action_record_label(SignalAction::Skip) == seq!['S', 'K', 'I', 'P'],
        yes() == seq!['Y', 'E', 'S'],
        no() == seq!['N', 'O'],
        confidence_name(EdgeConfidence::High) == seq!['H', 'I', 'G', 'H'],
        confidence_name(EdgeConfidence::Medium) == seq!['M', 'E', 'D', 'I', 'U', 'M'],
        confidence_name(EdgeConfidence::Low) == seq!['L', 'O', 'W'],
        price_prefix() == seq!['p', 'r', 'i', 'c', 'e', '/'],
{
}

/// The side and action of each price regime: a trending market is entered
/// on YES; breakouts and transitions are watched on YES; a reversal is
/// watched on NO; a chaotic market is skipped on NO.
pub proof fn law_regime_calls()
    ensures
        regime_call(TradingSignal::Trending) == (true, SignalAction::Enter),
        regime_call(TradingSignal::BreakoutSignal) == (true, SignalAction::Watch),
        regime_call(TradingSignal::Transitioning) == (true, SignalAction::Watch),
        regime_call(TradingSignal::ReversalSignal) == (false, SignalAction::Watch),
        regime_call(TradingSignal::Chaotic) == (false, SignalAction::Skip),
{
}

/// The labels of a signal made from a weather edge. `favours_yes` is
/// whether the edge's probability exceeds 0.5; `meets_entry` whether its
/// edge reaches the entry threshold while its chaos stays at or below the
/// entry ceiling; `has_edge` whether its edge is positive.
pub fn edge_signal_labels(
    market_type: &str,
    favours_yes: bool,
    confidence: EdgeConfidence,
    meets_entry: bool,
    has_edge: bool,
) -> (l: SignalLabels)
    ensures
        l.market_type@ == market_type@,
        l.direction@ == (if favours_yes {
            yes()
        } else {
            no()
        }),
        l.confidence@ == confidence_name(confidence),
        l.action == edge_action_rule(confidence, meets_entry, has_edge),
{
    let action = if confidence == EdgeConfidence::Low {
        SignalAction::Skip
    } else if meets_entry {
        SignalAction::Enter
    } else if has_edge {
        SignalAction::Watch
    } else {
        SignalAction::Skip
    };
    SignalLabels {
        market_type: market_type.to_owned(),
        direction: direction_text(favours_yes).to_owned(),
        confidence: confidence_label(&confidence).to_owned(),
        action,
    }
}

/// Side and action for each price regime: trending is entered on YES;
/// breakouts and transitions are watched on YES; reversals are watched on
/// NO; chaotic markets are skipped on NO.
pub open spec fn regime_call(s: TradingSignal) -> (bool, SignalAction) {
    match s {
        TradingSignal::BreakoutSignal => (true, SignalAction::Watch),
        TradingSignal::ReversalSignal => (false, SignalAction::Watch),
        TradingSignal::Transitioning => (true, SignalAction::Watch),
        TradingSignal::Chaotic => (false, SignalAction::Skip),
        TradingSignal::Trending => (true, SignalAction::Enter),
    }
}

pub open spec fn price_prefix() -> Seq<char> {
    seq!['p', 'r', 'i', 'c', 'e', '/']
}

/// The labels of a signal made from a price regime of `ticker`: market
/// "price/<ticker>", side and action by `regime_call`, confidence "HIGH"
/// when the regime changed and "MEDIUM" otherwise.
pub fn regime_signal_labels(ticker: &str, signal: TradingSignal, regime_changed: bool) -> (l:
    SignalLabels)
    ensures
        l.market_type@ == price_prefix() + ticker@,
        l.direction@ == (if regime_call(signal).0 {
            yes()
        } else {
            no()
        }),
        l.action == regime_call(signal).1,
        l.confidence@ == (if regime_changed {
            confidence_name(EdgeConfidence::High)
        } else {
            confidence_name(EdgeConfidence::Medium)
        }),
{
    proof {
        reveal_strlit("price/");
        assert("price/"@ =~= price_prefix());
    }
    let (favours_yes, action) = match signal {
        TradingSignal::BreakoutSignal => (true, SignalAction::Watch),
        TradingSignal::ReversalSignal => (false, SignalAction::Watch),
        TradingSignal::Transitioning => (true, SignalAction::Watch),
        TradingSignal::Chaotic => (false, SignalAction::Skip),
        TradingSignal::Trending => (true, SignalAction::Enter),
    };
    let confidence = if regime_changed {
        EdgeConfidence::High
    } else {
        EdgeConfidence::Medium
    };
    SignalLabels {
        market_type: concat2("price/", ticker),
        direction: direction_text(favours_yes).to_owned(),
        confidence: confidence_label(&confidence).to_owned(),
        action,
    }
}

} // verus!
