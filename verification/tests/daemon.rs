use phantom::api::signals_db::Timestamp;
use phantom::daemon::{DaemonState, FeedKind, PollAction, PollStep};

#[test]
fn start_is_idempotent_and_stop_halts() {
    let mut d: DaemonState<f64> = DaemonState::new(100);
    assert!(!d.running());
    assert!(!d.start());
    assert!(d.running());
    assert!(d.start());
    assert!(d.running());
    d.stop();
    assert!(!d.running());
    d.stop();
    assert!(!d.running());
    d.accept_values(FeedKind::Price, &[1.0, 2.0]);
    d.record_fetch_error(FeedKind::Price);
    let before = d.snapshot();
    assert!(!d.start());
    assert!(d.start());
    d.stop();
    let after = d.snapshot();
    assert_eq!(before, after);
}

#[test]
fn failed_fetch_only_counts_the_error() {
    let mut d: DaemonState<f64> = DaemonState::new(100);
    d.accept_values(FeedKind::Weather, &[60.0]);
    d.record_fetch_error(FeedKind::Weather);
    d.record_fetch_error(FeedKind::Weather);
    d.record_fetch_error(FeedKind::Seismic);
    let s = d.snapshot();
    assert_eq!(s.weather_errors, 2);
    assert_eq!(s.price_errors, 0);
    assert_eq!(s.seismic_errors, 1);
    assert_eq!(s.buffer_sizes.weather, 1);
    assert_eq!(s.last_weather_poll, None);
}

#[test]
fn fetched_values_accumulate_in_the_window() {
    let mut d: DaemonState<f64> = DaemonState::new(3);
    assert_eq!(d.accept_values(FeedKind::Price, &[1.0, 2.0]), vec![1.0, 2.0]);
    assert_eq!(d.accept_values(FeedKind::Price, &[3.0, 4.0]), vec![2.0, 3.0, 4.0]);
    assert_eq!(d.buffer().snapshot("price").unwrap(), vec![2.0, 3.0, 4.0]);
    d.record_signal();
    d.record_poll(FeedKind::Price, Timestamp { secs: 42, nanos: 0 });
    let s = d.snapshot();
    assert_eq!(s.signals_generated, 1);
    assert_eq!(s.last_price_poll, Some(Timestamp { secs: 42, nanos: 0 }));
    assert_eq!(s.buffer_sizes.price, 3);
}

#[test]
fn poll_steps() {
    assert_eq!(FeedKind::Weather.next_step(0), PollStep::Abandon);
    assert_eq!(FeedKind::Price.next_step(5), PollStep::Analyze);
    assert_eq!(FeedKind::Seismic.next_step(49), PollStep::RecordOnly);
    assert_eq!(FeedKind::Seismic.next_step(50), PollStep::Analyze);
    assert_eq!(FeedKind::Seismic.series_name(), "seismic");
}

#[test]
fn a_whole_poll_step() {
    let now = Timestamp { secs: 1_700_000_000, nanos: 0 };
    let mut d: DaemonState<f64> = DaemonState::new(3);

    // A failed fetch is counted and ends the poll.
    assert!(matches!(d.begin_poll(FeedKind::Weather, None, now), PollAction::Done));
    let s = d.snapshot();
    assert_eq!(s.weather_errors, 1);
    assert_eq!(s.last_weather_poll, None);

    // An empty fetch on an empty weather series abandons the poll.
    assert!(matches!(d.begin_poll(FeedKind::Weather, Some(&[]), now), PollAction::Done));
    assert_eq!(d.snapshot().last_weather_poll, None);

    // Values are appended and handed back for analysis, window capped.
    match d.begin_poll(FeedKind::Weather, Some(&[1.0, 2.0, 3.0, 4.0]), now) {
        PollAction::Analyze(series) => assert_eq!(series, vec![2.0, 3.0, 4.0]),
        PollAction::Done => panic!("expected analysis"),
    }
    assert_eq!(d.snapshot().last_weather_poll, None);

    // A short seismic series records the poll without analysis.
    assert!(matches!(d.begin_poll(FeedKind::Seismic, Some(&[4.5]), now), PollAction::Done));
    let s = d.snapshot();
    assert_eq!(s.last_seismic_poll, Some(now));
    assert_eq!(s.buffer_sizes.seismic, 1);
    assert_eq!(s.weather_errors, 1);
}
