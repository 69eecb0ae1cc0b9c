use phantom::feeds::kalshi::{
    auth_headers, expand_home, market_history_path, market_path, orderbook_path,
    series_markets_path, signing_message, DEMO_BASE_URL, PROD_BASE_URL,
};

#[test]
fn message_signs_timestamp_method_and_full_path() {
    assert_eq!(
        signing_message("1700000000000", "/markets/ABC"),
        "1700000000000GET/trade-api/v2/markets/ABC"
    );
}

#[test]
fn request_paths() {
    assert_eq!(market_path("KX"), "/markets/KX");
    assert_eq!(
        series_markets_path("KXHIGHNY"),
        "/markets?series_ticker=KXHIGHNY&status=open&limit=100"
    );
    assert_eq!(market_history_path("KX"), "/markets/KX/history");
    assert_eq!(orderbook_path("KX"), "/markets/KX/orderbook");
    assert!(PROD_BASE_URL.starts_with("https://api.elections.kalshi.com"));
    assert!(DEMO_BASE_URL.starts_with("https://demo-api.kalshi.co"));
}

#[test]
fn headers_carry_base64_signature() {
    let h = auth_headers("key-1", "123", b"hello");
    assert_eq!(h.len(), 4);
    assert_eq!(h[0], ("KALSHI-ACCESS-KEY".to_string(), "key-1".to_string()));
    assert_eq!(h[1], ("KALSHI-ACCESS-TIMESTAMP".to_string(), "123".to_string()));
    assert_eq!(h[2], ("KALSHI-ACCESS-SIGNATURE".to_string(), "aGVsbG8=".to_string()));
    assert_eq!(h[3], ("Content-Type".to_string(), "application/json".to_string()));
    let h2 = auth_headers("k", "1", &[0xff, 0x00]);
    assert_eq!(h2[2].1, "/wA=");
    let h3 = auth_headers("k", "1", &[]);
    assert_eq!(h3[2].1, "");
}

#[test]
fn home_is_expanded_once() {
    assert_eq!(expand_home("~/keys/k.pem", "/home/u"), "/home/u/keys/k.pem");
    assert_eq!(expand_home("/abs/~k.pem", "/home/u"), "/abs/~k.pem");
    assert_eq!(expand_home("~~", "/h"), "/h~");
    assert_eq!(expand_home("", "/h"), "");
}
