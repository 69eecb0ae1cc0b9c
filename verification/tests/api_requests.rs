use phantom::api::analyze::{
    check_embedding_params, check_series_len, check_theiler, embedding_params, EmbeddingParamError,
};
use phantom::api::argus::{
    critical_count, flight_feed_id, is_upstream_failure, is_webhook_url, sample_flights,
    ArgusAnalyzeRequest, MAX_SAMPLED_FLIGHTS,
};
use phantom::api::esn::{esn_training_samples, forecast_horizon};
use phantom::api::feeds::{BtcQuery, FeedCache, KalshiQuery, PriceQuery, SeismicQuery, CACHE_TTL_MS};
use phantom::detectors::argus::AnomalySeverity;
use phantom::feeds::opensky::{altitude_track, AircraftSighting};
use phantom::feeds::usgs::chronological;

#[test]
fn webhook_urls_need_http_scheme() {
    assert!(is_webhook_url("http://example.com/hook"));
    assert!(is_webhook_url("https://example.com"));
    assert!(!is_webhook_url("ftp://example.com"));
    assert!(!is_webhook_url("http:/x"));
    assert!(!is_webhook_url(""));
    let bad = ArgusAnalyzeRequest { seismic_period: None, webhook_url: Some("example.com".into()) };
    assert!(!bad.is_valid());
    let none = ArgusAnalyzeRequest { seismic_period: None, webhook_url: None };
    assert!(none.is_valid());
    assert_eq!(none.period(), "all_day");
    assert_eq!(none.webhook_to_notify(3), None);
}

#[test]
fn webhook_only_for_critical_anomalies() {
    let req = ArgusAnalyzeRequest {
        seismic_period: Some("all_week".into()),
        webhook_url: Some("https://hooks.test/a".into()),
    };
    assert_eq!(req.period(), "all_week");
    assert_eq!(req.webhook_to_notify(0), None);
    assert_eq!(req.webhook_to_notify(2), Some("https://hooks.test/a"));
}

fn sighting(icao: &str, on_ground: bool, has_altitude: bool) -> AircraftSighting {
    AircraftSighting { icao24: icao.to_string(), on_ground, has_altitude }
}

#[test]
fn flights_sampled_once_each_and_at_most_five() {
    let s = vec![
        sighting("a", true, true),
        sighting("b", false, true),
        sighting("a", false, true),
        sighting("b", false, true),
        sighting("c", false, false),
        sighting("d", false, true),
        sighting("e", false, true),
        sighting("f", false, true),
        sighting("g", false, true),
    ];
    assert_eq!(MAX_SAMPLED_FLIGHTS, 5);
    assert_eq!(sample_flights(&s, MAX_SAMPLED_FLIGHTS), vec![1, 2, 5, 6, 7]);
    assert_eq!(sample_flights(&s, 2), vec![1, 2]);
    assert_eq!(sample_flights(&Vec::new(), 5), Vec::<usize>::new());
    assert_eq!(flight_feed_id("abc123"), "opensky-flight-abc123");
}

#[test]
fn altitude_track_of_one_aircraft() {
    let s = vec![
        sighting("a", true, true),
        sighting("b", false, true),
        sighting("a", false, false),
        sighting("a", false, true),
    ];
    assert_eq!(altitude_track(&s, "a"), vec![0, 3]);
    assert_eq!(altitude_track(&s, "z"), Vec::<usize>::new());
}

#[test]
fn critical_anomalies_counted() {
    let s = vec![
        AnomalySeverity::Critical,
        AnomalySeverity::High,
        AnomalySeverity::Critical,
        AnomalySeverity::Low,
    ];
    assert_eq!(critical_count(&s), 2);
    assert_eq!(critical_count(&Vec::new()), 0);
    assert!(is_upstream_failure(0, 1));
    assert!(!is_upstream_failure(1, 3));
    assert!(!is_upstream_failure(0, 0));
}

#[test]
fn seismic_periods_are_checked() {
    let q = SeismicQuery { period: None };
    assert_eq!(q.checked_period(), Ok("all_day".to_string()));
    let q2 = SeismicQuery { period: Some("significant_month".into()) };
    assert_eq!(q2.checked_period(), Ok("significant_month".to_string()));
    let bad = SeismicQuery { period: Some("all_year".into()) };
    assert_eq!(bad.checked_period(), Err("all_year".to_string()));
    assert_eq!(SeismicQuery::cache_key("all_day"), "seismic-all_day");
}

#[test]
fn price_assets_are_lowercased_and_checked() {
    let q = PriceQuery { asset: "Bitcoin".into(), days: None };
    assert_eq!(q.checked(), Ok(("bitcoin".to_string(), 30)));
    let q2 = PriceQuery { asset: "SOLANA".into(), days: Some(7) };
    assert_eq!(q2.checked(), Ok(("solana".to_string(), 7)));
    let bad = PriceQuery { asset: "DOGE".into(), days: None };
    assert_eq!(bad.checked(), Err("doge".to_string()));
    assert_eq!(BtcQuery { days: None }.days_or_default(), 30);
    assert_eq!(BtcQuery { days: Some(90) }.days_or_default(), 90);
    assert_eq!(KalshiQuery { series: "KXHIGHNY".into() }.cache_key(), "kalshi-series-KXHIGHNY");
}

#[test]
fn cache_serves_until_expiry() {
    let mut c: FeedCache<u32> = FeedCache::new();
    assert_eq!(c.lookup("k", 0), None);
    c.store("k", 7, 1_000);
    assert_eq!(c.lookup("k", 1_000), Some(&7));
    assert_eq!(c.lookup("k", 1_000 + CACHE_TTL_MS - 1), Some(&7));
    assert_eq!(c.lookup("k", 1_000 + CACHE_TTL_MS), None);
    c.store("k", 8, 100_000);
    assert_eq!(c.lookup("k", 100_001), Some(&8));
    c.store("other", 1, 100_000);
    assert_eq!(c.lookup("k", 100_001), Some(&8));
    assert_eq!(c.lookup("other", 100_001), Some(&1));
}

#[test]
fn embedding_checks() {
    assert_eq!(embedding_params(None, None), (3, 1));
    assert_eq!(embedding_params(Some(5), Some(2)), (5, 2));
    assert_eq!(check_series_len(2, 3, 1), Err(3));
    assert_eq!(check_series_len(3, 3, 1), Ok(()));
    assert_eq!(check_series_len(8, 5, 2), Err(9));
    assert_eq!(check_theiler(40, 3, 1, 20), Err(43));
    assert_eq!(check_theiler(41, 3, 1, 20), Ok(()));
}

#[test]
fn embedding_parameters_are_validated() {
    assert_eq!(check_embedding_params(3, 1), Ok(()));
    assert_eq!(check_embedding_params(2, 5), Ok(()));
    assert_eq!(check_embedding_params(1, 1), Err(EmbeddingParamError::DimensionTooSmall));
    assert_eq!(check_embedding_params(0, 0), Err(EmbeddingParamError::DimensionTooSmall));
    assert_eq!(check_embedding_params(3, 0), Err(EmbeddingParamError::DelayTooSmall));
}

#[test]
fn esn_parameters() {
    assert_eq!(esn_training_samples(21), None);
    assert_eq!(esn_training_samples(22), Some(11));
    assert_eq!(forecast_horizon(None), Some(10));
    assert_eq!(forecast_horizon(Some(500)), Some(200));
    assert_eq!(forecast_horizon(Some(0)), None);
    assert_eq!(forecast_horizon(Some(3)), Some(3));
}

#[test]
fn earthquakes_in_time_order() {
    let times = vec![30i64, 10, 20, 10, 5];
    let keep = vec![true, true, true, true, false];
    assert_eq!(chronological(&times, &keep), vec![1, 3, 2, 0]);
}
