use tokenserver::error::TokenserverError;
use tokenserver::hexfmt::hex_decode;
use tokenserver::plaintext::MakeTokenPlaintext;
use tokenserver::tokenlib::{
    derive_secret, same_bytes, seal_token, token_from_tag, verify_token, Tokenlib,
};

const SMALL_TOKEN: &str = "00000000000000016e00000000000000016b000000000000000175\
    0000000000000001640000000000000001680000000000000001ffffffffffffffff\
    7382c30bc6ad80e5a48fb9d3de2f375c05de50e1ef23941656fa7e7d8dedd3c2";

const SMALL_KEY: &str = "46f4ebc8e883da25db8e28616ae48687eccbc200777a4c4509875f8d8a655ecd";

fn small() -> MakeTokenPlaintext {
    MakeTokenPlaintext {
        node: String::from("n"),
        fxa_kid: String::from("k"),
        fxa_uid: String::from("u"),
        hashed_device_id: String::from("d"),
        hashed_fxa_uid: String::from("h"),
        expires: 1,
        uid: -1,
    }
}

fn is_lower_hex(text: &str) -> bool {
    text.chars().all(|c| c.is_ascii_digit() || ('a'..='f').contains(&c))
}

#[test]
fn mint_gives_known_token_and_secret() {
    let (token, key) = Tokenlib::get_token_and_derived_secret(small(), b"s").unwrap();
    assert_eq!(token, SMALL_TOKEN);
    assert_eq!(key, SMALL_KEY);
}

#[test]
fn mint_is_deterministic() {
    let first = Tokenlib::get_token_and_derived_secret(small(), b"shared");
    let second = Tokenlib::get_token_and_derived_secret(small(), b"shared");
    assert_eq!(first, second);
    assert!(first.is_ok());
}

#[test]
fn mint_output_is_printable() {
    let (token, key) = Tokenlib::get_token_and_derived_secret(small(), b"shared").unwrap();
    assert!(is_lower_hex(&token));
    assert!(is_lower_hex(&key));
    assert_eq!(key.len(), 64);
    assert_eq!(token.len(), 2 * (small().canonical_bytes().len() + 32));
    assert_ne!(token, key);
}

#[test]
fn mint_rejects_empty_secret() {
    assert_eq!(
        Tokenlib::get_token_and_derived_secret(small(), b""),
        Err(TokenserverError::Configuration)
    );
    assert_eq!(seal_token(b"payload", b""), Err(TokenserverError::Configuration));
    assert_eq!(derive_secret("abc", b""), Err(TokenserverError::Configuration));
}

#[test]
fn mint_depends_on_secret() {
    let (first_token, first_key) = Tokenlib::get_token_and_derived_secret(small(), b"s").unwrap();
    let (second_token, second_key) = Tokenlib::get_token_and_derived_secret(small(), b"t").unwrap();
    assert_ne!(first_token, second_token);
    assert_ne!(first_key, second_key);
}

#[test]
fn distinct_plaintexts_have_distinct_tokens() {
    let (base, _) = Tokenlib::get_token_and_derived_secret(small(), b"s").unwrap();
    let mut variants = Vec::new();
    let mut changed = small();
    changed.node = String::from("m");
    variants.push(changed);
    let mut changed = small();
    changed.fxa_kid = String::from("l");
    variants.push(changed);
    let mut changed = small();
    changed.fxa_uid = String::from("v");
    variants.push(changed);
    let mut changed = small();
    changed.hashed_device_id = String::from("e");
    variants.push(changed);
    let mut changed = small();
    changed.hashed_fxa_uid = String::from("i");
    variants.push(changed);
    let mut changed = small();
    changed.expires = 2;
    variants.push(changed);
    let mut changed = small();
    changed.uid = 1;
    variants.push(changed);
    let mut tokens = vec![base];
    for variant in variants {
        let (token, _) = Tokenlib::get_token_and_derived_secret(variant, b"s").unwrap();
        assert!(!tokens.contains(&token));
        tokens.push(token);
    }
}

#[test]
fn secret_can_be_derived_again_from_token() {
    let (token, key) = Tokenlib::get_token_and_derived_secret(small(), b"shared").unwrap();
    assert_eq!(derive_secret(&token, b"shared").unwrap(), key);
    assert_eq!(derive_secret(&token, b"shared").unwrap(), key);
    assert_ne!(derive_secret(&token, b"other").unwrap(), key);
}

#[test]
fn derive_secret_gives_known_value() {
    assert_eq!(
        derive_secret("abc", b"s").unwrap(),
        "bd15db8797be60ef5d05d05399838a525a8da42a612e7c09e55f36e4d484eb68"
    );
    assert_eq!(derive_secret(SMALL_TOKEN, b"s").unwrap(), SMALL_KEY);
}

#[test]
fn seal_token_gives_payload_then_tag() {
    assert_eq!(
        seal_token(b"", b"s").unwrap(),
        "7e3512d1e6ef629d0b60c6a2c23b4e6209150e674000dc133069ff8332087155"
    );
    let sealed = seal_token(&[0xab, 0xcd], b"s").unwrap();
    assert!(sealed.starts_with("abcd"));
    assert_eq!(sealed.len(), 4 + 64);
}

#[test]
fn token_from_tag_joins_in_hex() {
    assert_eq!(token_from_tag(&[0x01, 0xff], &[0xa0, 0x0b]), "01ffa00b");
    assert_eq!(token_from_tag(&[], &[]), "");
}

#[test]
fn secret_differs_from_token_tag() {
    let (token, key) = Tokenlib::get_token_and_derived_secret(small(), b"s").unwrap();
    assert_ne!(&token[token.len() - 64..], key);
}

#[test]
fn minted_token_verifies() {
    let (token, _) = Tokenlib::get_token_and_derived_secret(small(), b"shared").unwrap();
    assert!(verify_token(&token, b"shared"));
    assert!(verify_token(SMALL_TOKEN, b"s"));
}

#[test]
fn token_fails_under_another_secret() {
    let (token, _) = Tokenlib::get_token_and_derived_secret(small(), b"shared").unwrap();
    assert!(!verify_token(&token, b"sharee"));
    assert!(!verify_token(&token, b""));
}

#[test]
fn flipping_any_bit_of_a_token_fails_verification() {
    let (token, _) = Tokenlib::get_token_and_derived_secret(small(), b"shared").unwrap();
    let bytes = token.as_bytes();
    for at in 0..bytes.len() {
        for bit in 0..7 {
            let mut changed = bytes.to_vec();
            changed[at] ^= 1 << bit;
            let changed = String::from_utf8(changed).unwrap();
            assert_ne!(changed, token);
            assert!(!verify_token(&changed, b"shared"));
        }
    }
}

#[test]
fn malformed_tokens_fail_verification() {
    assert!(!verify_token("", b"shared"));
    assert!(!verify_token("abc", b"shared"));
    assert!(!verify_token("zz", b"shared"));
    assert!(!verify_token(&"0".repeat(62), b"shared"));
    assert!(!verify_token(&"0".repeat(64), b"shared"));
    let (token, _) = Tokenlib::get_token_and_derived_secret(small(), b"shared").unwrap();
    assert!(!verify_token(&token.to_uppercase(), b"shared"));
    assert!(!verify_token(&token[2..], b"shared"));
    assert!(!verify_token(&format!("{}00", token), b"shared"));
    assert!(!verify_token(&format!("{}\u{e9}", token), b"shared"));
}

#[test]
fn hex_decode_reads_lowercase_hex() {
    assert_eq!(hex_decode("0102030f10abff"), Some(vec![1, 2, 3, 15, 16, 0xab, 0xff]));
    assert_eq!(hex_decode(""), Some(vec![]));
    assert_eq!(hex_decode("00"), Some(vec![0]));
    assert_eq!(hex_decode("9a"), Some(vec![0x9a]));
}

#[test]
fn hex_decode_rejects_other_text() {
    assert_eq!(hex_decode("0"), None);
    assert_eq!(hex_decode("abc"), None);
    assert_eq!(hex_decode("AB"), None);
    assert_eq!(hex_decode("0g"), None);
    assert_eq!(hex_decode("g0"), None);
    assert_eq!(hex_decode("0x10"), None);
    assert_eq!(hex_decode(" 10"), None);
    assert_eq!(hex_decode("\u{e9}"), None);
    assert_eq!(hex_decode("/0"), None);
    assert_eq!(hex_decode(":0"), None);
    assert_eq!(hex_decode("`0"), None);
}

#[test]
fn same_bytes_compares_whole_strings() {
    assert!(same_bytes(&[], &[]));
    assert!(same_bytes(&[1, 2, 3], &[1, 2, 3]));
    assert!(!same_bytes(&[1, 2, 3], &[1, 2, 4]));
    assert!(!same_bytes(&[0, 2, 3], &[1, 2, 3]));
    assert!(!same_bytes(&[1, 2], &[1, 2, 3]));
    assert!(!same_bytes(&[1, 2, 3], &[1, 2]));
}
