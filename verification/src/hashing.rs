use crate::error::{text_outcome, TokenserverError};
use crate::hexfmt::{hex_encode, hex_lower, is_lower_hex, lemma_hex_lower_shape};
use hmac::crypto_mac::InvalidKeyLength;
use hmac::{Hmac, Mac, NewMac};
use sha2::Sha256;
use vstd::prelude::*;
use vstd::utf8::{encode_utf8, is_ascii_chars};

verus! {

/// Bytes in an HMAC-SHA256 digest.
pub const DIGEST_LEN: usize = 32;

/// Characters kept of a hash where it stands for an account or a device.
pub const PSEUDONYM_LEN: usize = 32;

/// The error with which the keyed hash turns down a key.
#[verifier::external_type_specification]
#[verifier::external_body]
pub struct ExInvalidKeyLength(InvalidKeyLength);

/// The HMAC-SHA256 digest of `message` under `key`, or `None` where the
/// primitive does not accept the key.
pub uninterp spec fn hmac_sha256(key: Seq<u8>, message: Seq<u8>) -> Option<Seq<u8>>;

/// Runs `Hmac::<Sha256>::new_from_slice`, `update` and `finalize` in turn.
/// Nothing is proved of the digest; the contract gives it its name and says
/// that it has the thirty-two bytes of a SHA-256 output. It also says that
/// the call succeeds: `Hmac` takes a key of any length, padding a short one
/// and hashing a long one, and has no path on which it gives the error back.
#[verifier::external_body]
pub(crate) fn hmac_sha256_digest(key: &[u8], message: &[u8]) -> (out: Result<
    Vec<u8>,
    InvalidKeyLength,
>)
    ensures
        out is Ok,
        out matches Ok(digest) ==> hmac_sha256(key@, message@) == Some(digest@),
        out matches Ok(digest) ==> digest@.len() == DIGEST_LEN,
{
    let mut mac = Hmac::<Sha256>::new_from_slice(key)?;
    mac.update(message);
    Ok(mac.finalize().into_bytes().to_vec())
}

/// The digest of `message` under `key` where the key is accepted: a digest
/// has `DIGEST_LEN` bytes.
pub open spec fn keyed_digest(key: Seq<u8>, message: Seq<u8>) -> Option<Seq<u8>> {
    match hmac_sha256(key, message) {
        Some(digest) => if digest.len() == DIGEST_LEN {
            Some(digest)
        } else {
            None
        },
        None => None,
    }
}

/// The pseudonym of a message under a key: the lowercase hexadecimal text of
/// its keyed digest, where the key is accepted.
pub open spec fn pseudonym(message: Seq<u8>, key: Seq<u8>) -> Option<Seq<char>> {
    match keyed_digest(key, message) {
        Some(digest) => Some(hex_lower(digest)),
        None => None,
    }
}

/// The full pseudonym of an identifier: the pseudonym of its UTF-8 bytes.
pub open spec fn metrics_hash(identifier: Seq<char>, key: Seq<u8>) -> Option<Seq<char>> {
    pseudonym(encode_utf8(identifier), key)
}

/// The pseudonym of a device of an account: the first characters of the full
/// pseudonym of the account's pseudonym followed by the device's label.
pub open spec fn device_hash(fxa_uid: Seq<char>, device: Seq<char>, key: Seq<u8>) -> Option<
    Seq<char>,
> {
    match metrics_hash(fxa_uid + device, key) {
        Some(full) => Some(full.subrange(0, PSEUDONYM_LEN as int)),
        None => None,
    }
}

/// What pseudonymising a message gives: its pseudonym, or `Transform` where
/// the key is turned down.
pub open spec fn pseudonymizing(message: Seq<u8>, key: Seq<u8>) -> Result<
    Seq<char>,
    TokenserverError,
> {
    match pseudonym(message, key) {
        Some(hash) => Ok(hash),
        None => Err(TokenserverError::Transform),
    }
}

/// What pseudonymising an identifier gives: what pseudonymising its UTF-8
/// bytes gives.
pub open spec fn pseudonymized(identifier: Seq<char>, key: Seq<u8>) -> Result<
    Seq<char>,
    TokenserverError,
> {
    pseudonymizing(encode_utf8(identifier), key)
}

/// What pseudonymising a device gives: its pseudonym, or `Transform` where
/// the key is turned down.
pub open spec fn device_pseudonymized(
    fxa_uid: Seq<char>,
    device: Seq<char>,
    key: Seq<u8>,
) -> Result<Seq<char>, TokenserverError> {
    match device_hash(fxa_uid, device, key) {
        Some(hash) => Ok(hash),
        None => Err(TokenserverError::Transform),
    }
}

/// Whether `text` is `len` lowercase hexadecimal digits.
pub open spec fn is_hex_text(text: Seq<char>, len: nat) -> bool {
    &&& text.len() == len
    &&& forall|i: int| 0 <= i < text.len() ==> is_lower_hex(#[trigger] text[i])
}

/// The hexadecimal text of a digest, in full.
pub fn digest_text(digest: &[u8]) -> (text: String)
    ensures
        text@ == hex_lower(digest@),
        is_hex_text(text@, 2 * digest@.len()),
        is_ascii_chars(text@),
{
    proof {
        lemma_hex_lower_shape(digest@);
    }
    hex_encode(digest)
}

/// The first `PSEUDONYM_LEN` characters of a hash.
pub fn hash_prefix(full_hash: &str) -> (prefix: String)
    requires
        is_ascii_chars(full_hash@),
        full_hash@.len() >= PSEUDONYM_LEN,
    ensures
        prefix@ == full_hash@.subrange(0, PSEUDONYM_LEN as int),
{
    String::from_str(full_hash.substring_ascii(0, PSEUDONYM_LEN))
}

/// Pseudonymises a message under a key: the lowercase hexadecimal text of
/// the HMAC-SHA256 digest of the message, sixty-four characters. An error
/// would be `Transform`, for a key that the primitive turns down; HMAC takes
/// every key, so that there is none.
pub fn pseudonymize(message: &[u8], key: &[u8]) -> (out: Result<String, TokenserverError>)
    ensures
        out is Ok,
        text_outcome(out) == pseudonymizing(message@, key@),
        out matches Ok(hash) ==> is_hex_text(hash@, 2 * DIGEST_LEN as nat) && is_ascii_chars(
            hash@,
        ),
{
    match hmac_sha256_digest(key, message) {
        Ok(digest) => Ok(digest_text(digest.as_slice())),
        Err(_) => Err(TokenserverError::Transform),
    }
}

/// Pseudonymises an account identifier under a key: pseudonymises its UTF-8
/// bytes.
pub fn fxa_metrics_hash(fxa_uid: &str, hmac_key: &[u8]) -> (out: Result<String, TokenserverError>)
    ensures
        out is Ok,
        text_outcome(out) == pseudonymized(fxa_uid@, hmac_key@),
        out matches Ok(hash) ==> is_hex_text(hash@, 2 * DIGEST_LEN as nat) && is_ascii_chars(
            hash@,
        ),
{
    pseudonymize(fxa_uid.as_bytes(), hmac_key)
}

/// Pseudonymises a device of an account: hashes the account's pseudonym
/// followed by the device's label, and keeps the first `PSEUDONYM_LEN`
/// characters.
pub fn hash_device_id(fxa_uid: &str, device: &str, hmac_key: &[u8]) -> (out: Result<
    String,
    TokenserverError,
>)
    ensures
        out is Ok,
        text_outcome(out) == device_pseudonymized(fxa_uid@, device@, hmac_key@),
        out matches Ok(hash) ==> is_hex_text(hash@, PSEUDONYM_LEN as nat),
{
    let mut to_hash = String::from_str(fxa_uid);
    to_hash.append(device);
    match fxa_metrics_hash(to_hash.as_str(), hmac_key) {
        Ok(full) => Ok(hash_prefix(full.as_str())),
        Err(e) => Err(e),
    }
}

} // verus!
