use phantom::api::metrics::SignalMetrics;
use phantom::api::signals::{select_signals, OutcomeTally, DEFAULT_LIMIT};
use phantom::api::signals_db::{
    first_at, records_since, resolve_outcome, OutcomeResult, SignalHeader, SignalStore, Timestamp,
};

fn ts(secs: i64) -> Timestamp {
    Timestamp { secs, nanos: 0 }
}

fn header(secs: i64, action: &str, kind: &str, outcome: Option<OutcomeResult>) -> SignalHeader {
    SignalHeader {
        timestamp: ts(secs),
        signal_type: kind.to_string(),
        action: action.to_string(),
        outcome,
    }
}

fn log() -> Vec<SignalHeader> {
    vec![
        header(100, "ENTER", "weather/temperature", None),
        header(300, "WATCH", "price/BTC-USD", Some(OutcomeResult::Win)),
        header(200, "ENTER", "weather/regime-shift", Some(OutcomeResult::Loss)),
        header(300, "enter", "weather/temperature", Some(OutcomeResult::Scratch)),
        header(50, "SKIP", "manual", Some(OutcomeResult::Expired)),
    ]
}

#[test]
fn listing_is_newest_first_and_stable() {
    let r = select_signals(&log(), None, None, None);
    assert_eq!(r, vec![1, 3, 2, 0, 4]);
}

#[test]
fn listing_respects_limit() {
    let r = select_signals(&log(), None, None, Some(2));
    assert_eq!(r, vec![1, 3]);
    let none = select_signals(&log(), None, None, Some(0));
    assert!(none.is_empty());
}

#[test]
fn smaller_limits_list_prefixes() {
    let all = select_signals(&log(), None, Some("enter"), Some(10));
    for limit in 0..4 {
        let r = select_signals(&log(), None, Some("enter"), Some(limit));
        assert_eq!(r[..], all[..r.len()]);
        assert_eq!(r.len(), limit.min(all.len()));
    }
}

#[test]
fn listing_default_limit_is_200() {
    assert_eq!(DEFAULT_LIMIT, 200);
    let many: Vec<SignalHeader> = (0..250).map(|i| header(i, "ENTER", "t", None)).collect();
    let r = select_signals(&many, None, None, None);
    assert_eq!(r.len(), 200);
    assert_eq!(r[0], 249);
    assert_eq!(r[199], 50);
}

#[test]
fn action_filter_ignores_case() {
    let r = select_signals(&log(), None, Some("Enter"), None);
    assert_eq!(r, vec![3, 2, 0]);
    let w = select_signals(&log(), None, Some("watch"), None);
    assert_eq!(w, vec![1]);
}

#[test]
fn since_filter_keeps_recent_records() {
    let r = select_signals(&log(), Some(ts(200)), None, None);
    assert_eq!(r, vec![1, 3, 2]);
    let r2 = select_signals(&log(), Some(ts(200)), Some("ENTER"), Some(1));
    assert_eq!(r2, vec![3]);
    assert_eq!(records_since(&log(), ts(200)), vec![1, 2, 3]);
    assert_eq!(records_since(&log(), ts(301)), Vec::<usize>::new());
}

#[test]
fn nanoseconds_order_within_a_second() {
    let a = Timestamp { secs: 10, nanos: 5 };
    let b = Timestamp { secs: 10, nanos: 7 };
    assert!(b.after(&a));
    assert!(!a.after(&b));
    assert!(a.at_or_after(&a));
    assert!(Timestamp { secs: 11, nanos: 0 }.after(&b));
}

#[test]
fn resolve_finds_first_matching_timestamp() {
    assert_eq!(first_at(&log(), ts(300)), Some(1));
    assert_eq!(first_at(&log(), ts(50)), Some(4));
    assert_eq!(first_at(&log(), ts(999)), None);
}

#[test]
fn resolving_updates_only_the_first_match() {
    let mut h = log();
    assert_eq!(resolve_outcome(&mut h, ts(300), OutcomeResult::Loss), Some(1));
    assert_eq!(h[1].outcome, Some(OutcomeResult::Loss));
    assert_eq!(h[1].action, "WATCH");
    assert_eq!(h[3].outcome, Some(OutcomeResult::Scratch));
    assert_eq!(h[0].outcome, None);
    assert_eq!(resolve_outcome(&mut h, ts(100), OutcomeResult::Win), Some(0));
    assert_eq!(h[0].outcome, Some(OutcomeResult::Win));
    let before: Vec<Option<OutcomeResult>> = h.iter().map(|x| x.outcome).collect();
    assert_eq!(resolve_outcome(&mut h, ts(999), OutcomeResult::Win), None);
    let after: Vec<Option<OutcomeResult>> = h.iter().map(|x| x.outcome).collect();
    assert_eq!(before, after);
    assert_eq!(h.len(), 5);
}

#[test]
fn outcome_names_parse_in_any_case() {
    assert_eq!(OutcomeResult::from_name("win"), Some(OutcomeResult::Win));
    assert_eq!(OutcomeResult::from_name("LOSS"), Some(OutcomeResult::Loss));
    assert_eq!(OutcomeResult::from_name("Scratch"), Some(OutcomeResult::Scratch));
    assert_eq!(OutcomeResult::from_name("eXpIrEd"), Some(OutcomeResult::Expired));
    assert_eq!(OutcomeResult::from_name("draw"), None);
    assert_eq!(OutcomeResult::from_name(""), None);
    assert_eq!(OutcomeResult::Scratch.name(), "Scratch");
    assert_eq!(OutcomeResult::from_lowercase_name("Win"), None);
}

#[test]
fn store_path_defaults_to_signals_jsonl() {
    assert_eq!(SignalStore::new(None).path(), "signals.jsonl");
    assert_eq!(SignalStore::new(Some("/tmp/x.jsonl".to_string())).path(), "/tmp/x.jsonl");
}

#[test]
fn tally_counts_outcomes() {
    let t = OutcomeTally::of(&log());
    assert_eq!(
        t,
        OutcomeTally {
            total_signals: 5,
            resolved: 4,
            unresolved: 1,
            wins: 1,
            losses: 1,
            scratches: 1,
            expired: 1,
        }
    );
    let empty = OutcomeTally::of(&Vec::new());
    assert_eq!(empty.total_signals, 0);
    assert_eq!(empty.resolved, 0);
}

#[test]
fn metrics_group_by_action_and_type() {
    let m = SignalMetrics::of(&log(), ts(200));
    assert_eq!(m.total, 5);
    assert_eq!(m.last_24h, 3);
    let mut by_action = m.by_action.clone();
    by_action.sort();
    assert_eq!(
        by_action,
        vec![
            ("ENTER".to_string(), 2),
            ("SKIP".to_string(), 1),
            ("WATCH".to_string(), 1),
            ("enter".to_string(), 1),
        ]
    );
    let mut by_type = m.by_type.clone();
    by_type.sort();
    assert_eq!(
        by_type,
        vec![
            ("manual".to_string(), 1),
            ("price/BTC-USD".to_string(), 1),
            ("weather/regime-shift".to_string(), 1),
            ("weather/temperature".to_string(), 2),
        ]
    );
}
