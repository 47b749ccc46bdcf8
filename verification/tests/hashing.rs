use hmac::{Hmac, Mac, NewMac};
use sha2::Sha256;
use tokenserver::error::TokenserverError;
use tokenserver::hashing::{digest_text, fxa_metrics_hash, hash_device_id, hash_prefix};

fn reference_hash(message: &str, key: &[u8]) -> String {
    let mut mac = Hmac::<Sha256>::new_from_slice(key).unwrap();
    mac.update(message.as_bytes());
    let digest = mac.finalize().into_bytes();
    digest.iter().map(|byte| format!("{:02x}", byte)).collect()
}

fn is_lower_hex(text: &str) -> bool {
    text.chars().all(|c| c.is_ascii_digit() || ('a'..='f').contains(&c))
}

#[test]
fn metrics_hash_matches_known_vector() {
    let hash = fxa_metrics_hash("what do ya want for nothing?", b"Jefe").unwrap();
    assert_eq!(
        hash,
        "5bdcc146bf60754e6a042426089575c75a003f089d2739839dec58b964ec3843"
    );
}

#[test]
fn metrics_hash_of_account_identifier() {
    let hash = fxa_metrics_hash("abc123", b"metrics-key").unwrap();
    assert_eq!(
        hash,
        "535d8afa9be18d56261f3c6d8494a27db34b90372b3745279353737a746783e5"
    );
}

#[test]
fn metrics_hash_is_deterministic() {
    let first = fxa_metrics_hash("abc123", b"a key");
    let second = fxa_metrics_hash("abc123", b"a key");
    assert_eq!(first, second);
    assert_eq!(first.unwrap().len(), 64);
}

#[test]
fn metrics_hash_depends_on_key_and_message() {
    let base = fxa_metrics_hash("abc123", b"a key").unwrap();
    assert_ne!(base, fxa_metrics_hash("abc124", b"a key").unwrap());
    assert_ne!(base, fxa_metrics_hash("abc123", b"b key").unwrap());
}

#[test]
fn metrics_hash_accepts_empty_key_and_message() {
    let hash = fxa_metrics_hash("", b"").unwrap();
    assert_eq!(
        hash,
        "b613679a0814d9ec772f95d778c35fc5ff1697c493715653c6c712144292c5ad"
    );
}

#[test]
fn metrics_hash_hashes_utf8_bytes() {
    let hash = fxa_metrics_hash("h\u{e9}llo \u{1f600}", b"k").unwrap();
    assert_eq!(hash, reference_hash("h\u{e9}llo \u{1f600}", b"k"));
    assert!(is_lower_hex(&hash));
}

#[test]
fn metrics_hash_agrees_with_independent_digest() {
    for key in [&b"k"[..], &[0u8; 64][..], &[7u8; 200][..]] {
        for message in ["", "a", "abc123", "0123456789abcdef0123456789abcdefnone"] {
            let hash = fxa_metrics_hash(message, key).unwrap();
            assert_eq!(hash, reference_hash(message, key));
            assert_eq!(hash.len(), 64);
            assert!(is_lower_hex(&hash));
        }
    }
}

#[test]
fn device_hash_is_prefix_of_full_hash() {
    let account = "535d8afa9be18d56261f3c6d8494a27d";
    let short = hash_device_id(account, "none", b"metrics-key").unwrap();
    let full = reference_hash("535d8afa9be18d56261f3c6d8494a27dnone", b"metrics-key");
    assert_eq!(short, "bb625f61d4a1900b19b9b7c462cad1e2");
    assert_eq!(short.len(), 32);
    assert_eq!(short, &full[0..32]);
    assert!(is_lower_hex(&short));
}

#[test]
fn device_hash_joins_account_and_label() {
    let joined = hash_device_id("ab", "cd", b"k").unwrap();
    let other_split = hash_device_id("a", "bcd", b"k").unwrap();
    assert_eq!(joined, other_split);
    assert_eq!(joined, &reference_hash("abcd", b"k")[0..32]);
    assert_ne!(joined, hash_device_id("ab", "ce", b"k").unwrap());
}

#[test]
fn account_pseudonym_is_prefix_of_full_hash() {
    let full = fxa_metrics_hash("abc123", b"metrics-key").unwrap();
    let short = hash_prefix(&full);
    assert_eq!(short, "535d8afa9be18d56261f3c6d8494a27d");
    assert_eq!(short.len(), 32);
    assert!(full.starts_with(&short));
    assert!(is_lower_hex(&short));
    assert_eq!(full, reference_hash("abc123", b"metrics-key"));
}

#[test]
fn digest_text_is_lowercase_hex() {
    assert_eq!(digest_text(&[1, 2, 3, 15, 16, 0xab, 0xff]), "0102030f10abff");
    assert_eq!(digest_text(&[]), "");
    assert_eq!(digest_text(&[0x00, 0x9a, 0xf0]), "009af0");
}

#[test]
fn hash_prefix_keeps_thirty_two_characters() {
    let full = "5bdcc146bf60754e6a042426089575c75a003f089d2739839dec58b964ec3843";
    assert_eq!(hash_prefix(full), "5bdcc146bf60754e6a042426089575c7");
    let exact = "0123456789abcdef0123456789abcdef";
    assert_eq!(hash_prefix(exact), exact);
}

#[test]
fn errors_compare_by_variant() {
    assert_eq!(TokenserverError::Transform, TokenserverError::Transform);
    assert_ne!(TokenserverError::Transform, TokenserverError::Configuration);
    assert_ne!(TokenserverError::LookupNotFound, TokenserverError::ClockUnavailable);
}
