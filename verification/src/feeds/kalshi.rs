//! Kalshi API request text: the resource paths the client requests, the
//! message each request signs, and the authentication headers it sends.

use vstd::prelude::*;
use crate::text::{concat2, concat3};
use rsa::pkcs1::DecodeRsaPrivateKey;
use rsa::pkcs8::DecodePrivateKey;
use rsa::pss::BlindedSigningKey;
use rsa::sha2::Sha256;
use rsa::signature::{RandomizedSigner, SignatureEncoding};
use rsa::RsaPrivateKey;

verus! {

/// Base URL of the production Kalshi API.
pub const PROD_BASE_URL: &'static str = "https://api.elections.kalshi.com/trade-api/v2";

/// Base URL of the demo (sandbox) Kalshi API.
pub const DEMO_BASE_URL: &'static str = "https://demo-api.kalshi.co/trade-api/v2";

/// The value of a base64 digit in the standard alphabet
/// (A-Z, a-z, 0-9, '+', '/').
pub open spec fn base64_digit(v: int) -> char {
    if v < 26 {
        ('A' as int + v) as char
    } else if v < 52 {
        ('a' as int + (v - 26)) as char
    } else if v < 62 {
        ('0' as int + (v - 52)) as char
    } else if v == 62 {
        '+'
    } else {
        '/'
    }
}

/// Standard base64 with '=' padding: each group of three bytes becomes
/// four digits of six bits each, most significant first; a final group of
/// one or two bytes is zero-extended and padded to four characters.
pub open spec fn base64_standard(b: Seq<u8>) -> Seq<char>
    decreases b.len(),
{
    if b.len() == 0 {
        seq![]
    } else {
        let b0 = b[0] as int;
        let b1 = if b.len() > 1 { b[1] as int } else { 0 };
        let b2 = if b.len() > 2 { b[2] as int } else { 0 };
        if b.len() == 1 {
            seq![base64_digit(b0 / 4), base64_digit((b0 % 4) * 16), '=', '=']
        } else if b.len() == 2 {
            seq![
                base64_digit(b0 / 4),
                base64_digit((b0 % 4) * 16 + b1 / 16),
                base64_digit((b1 % 16) * 4),
                '=',
            ]
        } else {
            seq![
                base64_digit(b0 / 4),
                base64_digit((b0 % 4) * 16 + b1 / 16),
                base64_digit((b1 % 16) * 4 + b2 / 64),
                base64_digit(b2 % 64),
            ] + base64_standard(b.subrange(3, b.len() as int))
        }
    }
}

/// Calls `Engine::encode` of base64's `general_purpose::STANDARD` engine
/// (standard alphabet, with padding). The contract claims that the result
/// is the standard base64 text of the bytes, as RFC 4648 and the crate's
/// documentation define it. The crate panics when the encoded length
/// overflows `usize`; `requires` keeps to lengths where it does not.
#[verifier::external_body]
fn encode_base64(bytes: &[u8]) -> (r: String)
    requires
        (bytes@.len() / 3) * 4 + 4 <= usize::MAX,
    ensures
        r@ == base64_standard(bytes@),
{
    base64::Engine::encode(&base64::engine::general_purpose::STANDARD, bytes)
}

/// Path of a single market.
pub fn market_path(ticker: &str) -> (r: String)
    ensures
        r@ == "/markets/"@ + ticker@,
{
    concat2("/markets/", ticker)
}

/// Path listing the open markets of a series (at most 100).
pub fn series_markets_path(series_ticker: &str) -> (r: String)
    ensures
        r@ == "/markets?series_ticker="@ + series_ticker@ + "&status=open&limit=100"@,
{
    concat3("/markets?series_ticker=", series_ticker, "&status=open&limit=100")
}

/// Path of a market's price history.
pub fn market_history_path(ticker: &str) -> (r: String)
    ensures
        r@ == "/markets/"@ + ticker@ + "/history"@,
{
    concat3("/markets/", ticker, "/history")
}

/// Path of a market's order book.
pub fn orderbook_path(ticker: &str) -> (r: String)
    ensures
        r@ == "/markets/"@ + ticker@ + "/orderbook"@,
{
    concat3("/markets/", ticker, "/orderbook")
}

/// The message a GET request signs: the timestamp in milliseconds, the
/// method, and the full API path of the request.
pub fn signing_message(timestamp_ms: &str, path: &str) -> (r: String)
    ensures
        r@ == timestamp_ms@ + "GET"@ + "/trade-api/v2"@ + path@,
{
    let mut m = concat3(timestamp_ms, "GET", "/trade-api/v2");
    m.append(path);
    m
}

/// `h` are the headers of an authenticated request: the API key id, the
/// timestamp, the base64 text of the request's signature `sig`, and the
/// JSON content type.
pub open spec fn is_auth_header_list(
    h: Seq<(String, String)>,
    api_key_id: Seq<char>,
    timestamp_ms: Seq<char>,
    sig: Seq<u8>,
) -> bool {
    &&& h.len() == 4
    &&& h[0].0@ == "KALSHI-ACCESS-KEY"@ && h[0].1@ == api_key_id
    &&& h[1].0@ == "KALSHI-ACCESS-TIMESTAMP"@ && h[1].1@ == timestamp_ms
    &&& h[2].0@ == "KALSHI-ACCESS-SIGNATURE"@ && h[2].1@ == base64_standard(sig)
    &&& h[3].0@ == "Content-Type"@ && h[3].1@ == "application/json"@
}

/// The headers of an authenticated request: the API key id, the
/// timestamp, the base64 text of the request's signature, and the JSON
/// content type.
pub fn auth_headers(api_key_id: &str, timestamp_ms: &str, signature: &[u8]) -> (h: Vec<(String, String)>)
    requires
        (signature@.len() / 3) * 4 + 4 <= usize::MAX,
    ensures
        is_auth_header_list(h@, api_key_id@, timestamp_ms@, signature@),
{
    let mut h: Vec<(String, String)> = Vec::new();
    h.push(("KALSHI-ACCESS-KEY".to_owned(), api_key_id.to_owned()));
    h.push(("KALSHI-ACCESS-TIMESTAMP".to_owned(), timestamp_ms.to_owned()));
    h.push(("KALSHI-ACCESS-SIGNATURE".to_owned(), encode_base64(signature)));
    h.push(("Content-Type".to_owned(), "application/json".to_owned()));
    h
}

/// `h` are the headers of a request authenticated by some signature.
pub open spec fn is_signed_header_list(h: Seq<(String, String)>, api_key_id: Seq<char>, timestamp_ms: Seq<char>) -> bool {
    exists|sig: Seq<u8>| #[trigger] is_auth_header_list(h, api_key_id, timestamp_ms, sig)
}

#[verifier::external_type_specification]
#[verifier::external_body]
pub struct ExRsaPrivateKey(rsa::RsaPrivateKey);

/// Whether `pem` is a PKCS#8 PEM document that holds an RSA private key.
pub uninterp spec fn is_pkcs8_rsa_pem(pem: Seq<char>) -> bool;

/// Whether `pem` is a PKCS#1 PEM document that holds an RSA private key.
pub uninterp spec fn is_pkcs1_rsa_pem(pem: Seq<char>) -> bool;

/// Calls `RsaPrivateKey::from_pkcs8_pem` (rsa's `DecodePrivateKey`). The
/// contract claims that a key comes back exactly when the text is a PKCS#8
/// PEM RSA private key, which `is_pkcs8_rsa_pem` names; nothing is stated
/// of the key itself.
#[verifier::external_body]
fn key_from_pkcs8_pem(pem: &str) -> (r: Option<RsaPrivateKey>)
    ensures
        r is Some <==> is_pkcs8_rsa_pem(pem@),
{
    RsaPrivateKey::from_pkcs8_pem(pem).ok()
}

/// Calls `RsaPrivateKey::from_pkcs1_pem` (rsa's `DecodeRsaPrivateKey`).
/// The contract claims that a key comes back exactly when the text is a
/// PKCS#1 PEM RSA private key, which `is_pkcs1_rsa_pem` names; nothing is
/// stated of the key itself.
#[verifier::external_body]
fn key_from_pkcs1_pem(pem: &str) -> (r: Option<RsaPrivateKey>)
    ensures
        r is Some <==> is_pkcs1_rsa_pem(pem@),
{
    RsaPrivateKey::from_pkcs1_pem(pem).ok()
}

/// The RSA private key of a PEM document, read as PKCS#8 and, failing
/// that, as PKCS#1; `None` when it is neither.
pub fn private_key_from_pem(pem: &str) -> (r: Option<RsaPrivateKey>)
    ensures
        r is Some <==> (is_pkcs8_rsa_pem(pem@) || is_pkcs1_rsa_pem(pem@)),
{
    match key_from_pkcs8_pem(pem) {
        Some(k) => Some(k),
        None => key_from_pkcs1_pem(pem),
    }
}

/// Calls `RandomizedSigner::try_sign_with_rng` of
/// `rsa::pss::BlindedSigningKey::<Sha256>` built from `key` (a salt as long
/// as the digest) on the UTF-8 bytes of `message`, with rand's thread-local
/// generator, and returns the
/// signature's bytes; `None` stands for the crate's error (a key too small
/// for the encoding). Salt and blinding are drawn at random, so nothing is
/// stated of the bytes.
#[verifier::external_body]
fn sign_pss_sha256(key: &RsaPrivateKey, message: &str) -> (r: Option<Vec<u8>>) {
    let signing_key = BlindedSigningKey::<Sha256>::new(key.clone());
    match signing_key.try_sign_with_rng(&mut rand::thread_rng(), message.as_bytes()) {
        Ok(sig) => Some(sig.to_vec()),
        Err(_) => None,
    }
}

/// The headers of a request whose signing came back with `signature`:
/// `None` when signing failed (or when the signature is too long to
/// encode), else the authentication headers that carry the signature.
pub fn headers_from_signature(
    api_key_id: &str,
    timestamp_ms: &str,
    signature: Option<Vec<u8>>,
) -> (r: Option<Vec<(String, String)>>)
    ensures
        match signature {
            None => r is None,
            Some(sig) => if (sig@.len() / 3) * 4 + 4 <= usize::MAX {
                r matches Some(h) && is_auth_header_list(h@, api_key_id@, timestamp_ms@, sig@)
            } else {
                r is None
            },
        },
{
    match signature {
        Some(sig) => {
            if sig.len() / 3 > (usize::MAX - 4) / 4 {
                return None;
            }
            Some(auth_headers(api_key_id, timestamp_ms, sig.as_slice()))
        },
        None => None,
    }
}

/// The headers of a GET request for `path` made at `timestamp_ms`: the
/// request's message (see `signing_message`) is signed with `key` by
/// RSASSA-PSS over SHA-256, and `headers_from_signature` makes the headers
/// from what the signing gave back. `None` when the key cannot sign (or,
/// beyond any real key, when the signature is too long to encode).
pub fn signed_get_headers(
    key: &RsaPrivateKey,
    api_key_id: &str,
    timestamp_ms: &str,
    path: &str,
) -> (r: Option<Vec<(String, String)>>)
    ensures
        r matches Some(h) ==> is_signed_header_list(h@, api_key_id@, timestamp_ms@),
{
    let message = signing_message(timestamp_ms, path);
    let signature = sign_pss_sha256(key, message.as_str());
    let ghost sig = signature;
    let r = headers_from_signature(api_key_id, timestamp_ms, signature);
    assert(r matches Some(h) ==> sig matches Some(s) && is_auth_header_list(h@, api_key_id@, timestamp_ms@, s@));
    r
}

/// A credentials path with a leading '~' replaced by the home directory.
pub open spec fn home_expanded(path: Seq<char>, home: Seq<char>) -> Seq<char> {
    if path.len() > 0 && path[0] == '~' {
        home + path.subrange(1, path.len() as int)
    } else {
        path
    }
}

/// Expand a leading '~' of a private-key path to `home`.
pub fn expand_home(path: &str, home: &str) -> (r: String)
    ensures
        r@ == home_expanded(path@, home@),
{
    let n = path.unicode_len();
    if n > 0 && path.get_char(0) == '~' {
        concat2(home, path.substring_char(1, n))
    } else {
        path.to_owned()
    }
}

} // verus!
