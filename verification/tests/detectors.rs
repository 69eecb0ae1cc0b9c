use phantom::detectors::argus::{argus_windows, AnomalySeverity};
use phantom::detectors::price::{forecast_window, price_windows, TradingSignal};
use phantom::detectors::weather::{
    confidence_label, weather_chaos_applies, weather_halves, EdgeConfidence,
};
use phantom::signals::kalshi::{edge_signal_labels, regime_signal_labels, SignalAction};

/// The outcomes of the severity thresholds for a score.
fn severity(score: f64, changed: bool) -> AnomalySeverity {
    AnomalySeverity::from_thresholds(score > 0.3, score > 0.4, score > 0.6, score > 0.7, changed)
}

#[test]
fn severity_table() {
    assert_eq!(severity(0.65, true), AnomalySeverity::Critical);
    assert_eq!(severity(0.65, false), AnomalySeverity::Medium);
    assert_eq!(severity(0.9, false), AnomalySeverity::High);
    assert_eq!(severity(0.9, true), AnomalySeverity::Critical);
    assert_eq!(severity(0.35, true), AnomalySeverity::Medium);
    assert_eq!(severity(0.35, false), AnomalySeverity::Low);
    assert_eq!(severity(0.45, false), AnomalySeverity::Medium);
    assert_eq!(severity(0.0, true), AnomalySeverity::Low);
    assert_eq!(AnomalySeverity::Critical.name(), "Critical");
    assert_eq!(AnomalySeverity::Low.name(), "Low");
}

fn rank(s: AnomalySeverity) -> u8 {
    match s {
        AnomalySeverity::Low => 0,
        AnomalySeverity::Medium => 1,
        AnomalySeverity::High => 2,
        AnomalySeverity::Critical => 3,
    }
}

#[test]
fn severity_never_falls_as_score_rises() {
    let scores = [0.0, 0.3, 0.35, 0.4, 0.5, 0.6, 0.65, 0.7, 0.75, 1.0];
    for changed in [false, true] {
        for w in scores.windows(2) {
            assert!(rank(severity(w[0], changed)) <= rank(severity(w[1], changed)));
        }
    }
    for s in scores {
        assert!(rank(severity(s, false)) <= rank(severity(s, true)));
        assert_ne!(severity(s, false), AnomalySeverity::Critical);
    }
}

fn regime(recent: f64, hist: f64, threshold: f64) -> TradingSignal {
    TradingSignal::from_thresholds(
        (recent - hist).abs() > threshold,
        recent > hist,
        recent > 0.65,
        recent > 0.35,
    )
}

#[test]
fn regime_table() {
    assert_eq!(regime(1.0, 0.0, 0.2), TradingSignal::BreakoutSignal);
    assert_eq!(regime(0.0, 1.0, 0.2), TradingSignal::ReversalSignal);
    assert_eq!(regime(0.7, 0.6, 0.2), TradingSignal::Chaotic);
    assert_eq!(regime(0.5, 0.4, 0.2), TradingSignal::Transitioning);
    assert_eq!(regime(0.1, 0.0, 0.2), TradingSignal::Trending);
}

#[test]
fn confidence_from_spread() {
    let c = |spread: f64| EdgeConfidence::from_spread_thresholds(spread < 1.0, spread <= 3.0);
    assert_eq!(c(0.5), EdgeConfidence::High);
    assert_eq!(c(1.0), EdgeConfidence::Medium);
    assert_eq!(c(2.9), EdgeConfidence::Medium);
    assert_eq!(c(3.0), EdgeConfidence::Medium);
    assert_eq!(c(3.01), EdgeConfidence::Low);
    assert_eq!(c(40.0), EdgeConfidence::Low);
    assert_eq!(confidence_label(&EdgeConfidence::Medium), "MEDIUM");
}

#[test]
fn only_confident_large_edges_are_tradeable() {
    assert!(EdgeConfidence::High.is_tradeable(true));
    assert!(EdgeConfidence::Medium.is_tradeable(true));
    assert!(!EdgeConfidence::Low.is_tradeable(true));
    assert!(!EdgeConfidence::High.is_tradeable(false));
}

#[test]
fn weather_edge_labels() {
    let l = edge_signal_labels("weather/temperature", true, EdgeConfidence::High, true, true);
    assert_eq!(l.action, SignalAction::Enter);
    assert_eq!(l.direction, "YES");
    assert_eq!(l.confidence, "HIGH");
    assert_eq!(l.market_type, "weather/temperature");

    let low = edge_signal_labels("weather/temperature", false, EdgeConfidence::Low, true, true);
    assert_eq!(low.action, SignalAction::Skip);
    assert_eq!(low.direction, "NO");
    assert_eq!(low.confidence, "LOW");

    let watch = edge_signal_labels("w", true, EdgeConfidence::Medium, false, true);
    assert_eq!(watch.action, SignalAction::Watch);
    let none = edge_signal_labels("w", false, EdgeConfidence::Medium, false, false);
    assert_eq!(none.action, SignalAction::Skip);
}

#[test]
fn price_regime_labels() {
    let t = regime_signal_labels("KXBTC-TREND", TradingSignal::Trending, false);
    assert_eq!(t.action, SignalAction::Enter);
    assert_eq!(t.direction, "YES");
    assert_eq!(t.market_type, "price/KXBTC-TREND");
    assert_eq!(t.confidence, "MEDIUM");

    let b = regime_signal_labels("KXBTC-BREAK", TradingSignal::BreakoutSignal, true);
    assert_eq!(b.action, SignalAction::Watch);
    assert_eq!(b.direction, "YES");
    assert_eq!(b.confidence, "HIGH");

    let r = regime_signal_labels("X", TradingSignal::ReversalSignal, true);
    assert_eq!((r.action, r.direction.as_str()), (SignalAction::Watch, "NO"));
    let c = regime_signal_labels("X", TradingSignal::Chaotic, false);
    assert_eq!((c.action, c.direction.as_str()), (SignalAction::Skip, "NO"));
    let tr = regime_signal_labels("X", TradingSignal::Transitioning, false);
    assert_eq!((tr.action, tr.direction.as_str()), (SignalAction::Watch, "YES"));
}

#[test]
fn action_labels() {
    assert_eq!(SignalAction::Enter.record_label(), "ENTER");
    assert_eq!(SignalAction::Watch.name(), "Watch");
    assert!(SignalAction::Enter.is_actionable());
    assert!(SignalAction::Watch.is_actionable());
    assert!(!SignalAction::Skip.is_actionable());
}

#[test]
fn detector_windows() {
    assert_eq!(argus_windows(49, 50, 100), None);
    assert_eq!(argus_windows(200, 50, 100), Some((100, true)));
    assert_eq!(argus_windows(110, 50, 100), Some((10, false)));
    assert_eq!(argus_windows(60, 50, 100), Some((0, false)));
    assert_eq!(price_windows(249, 200, 50), None);
    assert_eq!(price_windows(300, 200, 50), Some(250));
    assert_eq!(forecast_window(300, true), Some(100));
    assert_eq!(forecast_window(99, true), None);
    assert_eq!(forecast_window(300, false), None);
    assert_eq!(weather_halves(99), None);
    assert_eq!(weather_halves(301), Some(150));
    assert!(weather_chaos_applies(50));
    assert!(!weather_chaos_applies(49));
}
