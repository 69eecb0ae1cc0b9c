use base64::Engine;
use phantom::feeds::kalshi::{headers_from_signature, private_key_from_pem, signed_get_headers, signing_message};
use rsa::pkcs1::EncodeRsaPrivateKey;
use rsa::pkcs8::{EncodePrivateKey, LineEnding};
use rsa::pss::{Signature, VerifyingKey};
use rsa::sha2::Sha256;
use rsa::signature::Verifier;
use rsa::RsaPrivateKey;

fn test_key() -> RsaPrivateKey {
    RsaPrivateKey::new(&mut rand::thread_rng(), 1024).unwrap()
}

#[test]
fn pem_keys_are_read_in_either_format() {
    let key = test_key();
    let pkcs8 = key.to_pkcs8_pem(LineEnding::LF).unwrap();
    let pkcs1 = key.to_pkcs1_pem(LineEnding::LF).unwrap();
    assert!(private_key_from_pem(pkcs8.as_str()) == Some(key.clone()));
    assert!(private_key_from_pem(pkcs1.as_str()) == Some(key));
    assert!(private_key_from_pem("not a key").is_none());
    assert!(private_key_from_pem("").is_none());
}

#[test]
fn signed_headers_carry_a_valid_pss_signature() {
    let key = test_key();
    let h = signed_get_headers(&key, "key-1", "1700000000000", "/markets/KX").unwrap();
    assert_eq!(h.len(), 4);
    assert_eq!(h[0], ("KALSHI-ACCESS-KEY".to_string(), "key-1".to_string()));
    assert_eq!(h[1], ("KALSHI-ACCESS-TIMESTAMP".to_string(), "1700000000000".to_string()));
    assert_eq!(h[2].0, "KALSHI-ACCESS-SIGNATURE");
    assert_eq!(h[3], ("Content-Type".to_string(), "application/json".to_string()));

    let sig = base64::engine::general_purpose::STANDARD.decode(&h[2].1).unwrap();
    assert_eq!(sig.len(), 128);
    let verifier = VerifyingKey::<Sha256>::new(key.to_public_key());
    let message = signing_message("1700000000000", "/markets/KX");
    let signature = Signature::try_from(sig.as_slice()).unwrap();
    assert!(verifier.verify(message.as_bytes(), &signature).is_ok());
    let other = signing_message("1700000000001", "/markets/KX");
    assert!(verifier.verify(other.as_bytes(), &signature).is_err());
}

#[test]
fn headers_follow_the_signing_outcome() {
    assert!(headers_from_signature("k", "1", None).is_none());
    let h = headers_from_signature("k", "1", Some(b"hello".to_vec())).unwrap();
    assert_eq!(h.len(), 4);
    assert_eq!(h[0], ("KALSHI-ACCESS-KEY".to_string(), "k".to_string()));
    assert_eq!(h[1], ("KALSHI-ACCESS-TIMESTAMP".to_string(), "1".to_string()));
    assert_eq!(h[2], ("KALSHI-ACCESS-SIGNATURE".to_string(), "aGVsbG8=".to_string()));
    assert_eq!(h[3], ("Content-Type".to_string(), "application/json".to_string()));
}
