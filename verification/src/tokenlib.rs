use crate::error::{pair_outcome, text_outcome, TokenserverError};
use crate::hashing::{digest_text, hmac_sha256_digest, is_hex_text, keyed_digest, DIGEST_LEN};
use crate::hexfmt::{
    hex_decode, hex_encode, hex_lower, lemma_hex_lower_injective, lemma_hex_lower_shape,
};
use crate::plaintext::{MakeTokenPlaintext, PlaintextFields};
use vstd::prelude::*;
use vstd::slice::slice_subrange;
use vstd::utf8::encode_utf8;

verus! {

/// First byte of what is authenticated for a token.
pub const TOKEN_LABEL: u8 = 1;

/// First byte of what is hashed for a derived secret. It differs from
/// `TOKEN_LABEL`, so that no derived secret is the tag of a token.
pub const SECRET_LABEL: u8 = 2;

/// The message whose digest is the tag of a token with this payload.
pub open spec fn token_message(payload: Seq<u8>) -> Seq<u8> {
    seq![TOKEN_LABEL] + payload
}

/// The message whose digest gives the secret that goes with a token.
pub open spec fn secret_message(token: Seq<char>) -> Seq<u8> {
    seq![SECRET_LABEL] + encode_utf8(token)
}

/// The text of a token: its payload and its tag, in hexadecimal.
pub open spec fn token_text(payload: Seq<u8>, tag: Seq<u8>) -> Seq<char> {
    hex_lower(payload + tag)
}

/// Whether a shared secret is usable key material: it is not empty.
pub open spec fn usable_secret(shared_secret: Seq<u8>) -> bool {
    shared_secret.len() > 0
}

/// The token for a payload under a shared secret: the payload followed by
/// its tag, which is the keyed digest of the labelled payload.
pub open spec fn sealed_token(shared_secret: Seq<u8>, payload: Seq<u8>) -> Option<Seq<char>> {
    if !usable_secret(shared_secret) {
        None
    } else {
        match keyed_digest(shared_secret, token_message(payload)) {
            Some(tag) => Some(token_text(payload, tag)),
            None => None,
        }
    }
}

/// The secret that goes with a token under a shared secret: the hexadecimal
/// text of the keyed digest of the labelled token.
pub open spec fn derived_secret(shared_secret: Seq<u8>, token: Seq<char>) -> Option<Seq<char>> {
    if !usable_secret(shared_secret) {
        None
    } else {
        match keyed_digest(shared_secret, secret_message(token)) {
            Some(digest) => Some(hex_lower(digest)),
            None => None,
        }
    }
}

/// What sealing a payload gives: the token, or `Configuration` where the
/// shared secret is not usable.
pub open spec fn sealing(shared_secret: Seq<u8>, payload: Seq<u8>) -> Result<
    Seq<char>,
    TokenserverError,
> {
    match sealed_token(shared_secret, payload) {
        Some(token) => Ok(token),
        None => Err(TokenserverError::Configuration),
    }
}

/// What deriving the secret of a token gives: the secret, or `Configuration`
/// where the shared secret is not usable.
pub open spec fn deriving(shared_secret: Seq<u8>, token: Seq<char>) -> Result<
    Seq<char>,
    TokenserverError,
> {
    match derived_secret(shared_secret, token) {
        Some(key) => Ok(key),
        None => Err(TokenserverError::Configuration),
    }
}

/// What minting for a plaintext gives: the token and its secret, or
/// `Configuration` where the shared secret is not usable.
pub open spec fn minting(shared_secret: Seq<u8>, plaintext: PlaintextFields) -> Result<
    (Seq<char>, Seq<char>),
    TokenserverError,
> {
    match minted(shared_secret, plaintext) {
        Some(pair) => Ok(pair),
        None => Err(TokenserverError::Configuration),
    }
}

/// The token and the derived secret that are minted for a plaintext.
pub open spec fn minted(shared_secret: Seq<u8>, plaintext: PlaintextFields) -> Option<
    (Seq<char>, Seq<char>),
> {
    match sealed_token(shared_secret, plaintext.canonical_bytes()) {
        Some(token) => match derived_secret(shared_secret, token) {
            Some(key) => Some((token, key)),
            None => None,
        },
        None => None,
    }
}

/// `label` followed by `body`.
fn labelled(label: u8, body: &[u8]) -> (message: Vec<u8>)
    ensures
        message@ == seq![label] + body@,
{
    let mut message: Vec<u8> = Vec::new();
    message.push(label);
    message.extend_from_slice(body);
    assert(message@ =~= seq![label] + body@);
    message
}

/// Writes a token out from its payload and its tag.
pub fn token_from_tag(payload: &[u8], tag: &[u8]) -> (token: String)
    ensures
        token@ == token_text(payload@, tag@),
        is_hex_text(token@, 2 * (payload@.len() + tag@.len()) as nat),
{
    let mut bytes: Vec<u8> = Vec::new();
    bytes.extend_from_slice(payload);
    bytes.extend_from_slice(tag);
    assert(bytes@ =~= payload@ + tag@);
    proof {
        lemma_hex_lower_shape(bytes@);
    }
    hex_encode(bytes.as_slice())
}

/// Seals a payload under a shared secret. It fails, with `Configuration`,
/// exactly where the secret is empty.
pub fn seal_token(payload: &[u8], shared_secret: &[u8]) -> (out: Result<String, TokenserverError>)
    ensures
        text_outcome(out) == sealing(shared_secret@, payload@),
        out is Ok <==> usable_secret(shared_secret@),
        out matches Ok(token) ==> is_hex_text(token@, 2 * (payload@.len() + DIGEST_LEN) as nat),
{
    if shared_secret.len() == 0 {
        return Err(TokenserverError::Configuration);
    }
    let message = labelled(TOKEN_LABEL, payload);
    match hmac_sha256_digest(shared_secret, message.as_slice()) {
        Ok(tag) => Ok(token_from_tag(payload, tag.as_slice())),
        Err(_) => Err(TokenserverError::Configuration),
    }
}

/// Derives the secret that goes with a token. A storage node that holds the
/// shared secret gets the secret of a token in this way, from the token
/// alone. It fails, with `Configuration`, exactly where the shared secret is
/// empty.
pub fn derive_secret(token: &str, shared_secret: &[u8]) -> (out: Result<String, TokenserverError>)
    ensures
        text_outcome(out) == deriving(shared_secret@, token@),
        out is Ok <==> usable_secret(shared_secret@),
        out matches Ok(key) ==> is_hex_text(key@, 2 * DIGEST_LEN as nat),
{
    if shared_secret.len() == 0 {
        return Err(TokenserverError::Configuration);
    }
    let message = labelled(SECRET_LABEL, token.as_bytes());
    match hmac_sha256_digest(shared_secret, message.as_slice()) {
        Ok(digest) => Ok(digest_text(digest.as_slice())),
        Err(_) => Err(TokenserverError::Configuration),
    }
}

/// Whether a token is authentic under a shared secret: whether it is the
/// sealed token of some payload.
pub open spec fn is_authentic(shared_secret: Seq<u8>, token: Seq<char>) -> bool {
    exists|payload: Seq<u8>| sealed_token(shared_secret, payload) == Some(token)
}

/// A sealed token that is the text of `bytes` has its payload in all but the
/// last `DIGEST_LEN` of them, and its tag in those.
pub proof fn lemma_sealed_token_parts(
    shared_secret: Seq<u8>,
    payload: Seq<u8>,
    token: Seq<char>,
    bytes: Seq<u8>,
)
    requires
        sealed_token(shared_secret, payload) == Some(token),
        token == hex_lower(bytes),
    ensures
        usable_secret(shared_secret),
        bytes.len() == payload.len() + DIGEST_LEN,
        payload == bytes.subrange(0, payload.len() as int),
        keyed_digest(shared_secret, token_message(payload)) == Some(
            bytes.subrange(payload.len() as int, bytes.len() as int),
        ),
{
    let tag = keyed_digest(shared_secret, token_message(payload)).unwrap();
    lemma_hex_lower_injective(payload + tag, bytes);
    assert(payload =~= bytes.subrange(0, payload.len() as int));
    assert(tag =~= bytes.subrange(payload.len() as int, bytes.len() as int));
}

/// Whether two byte strings are the same. Every byte is looked at, whatever
/// the bytes before it were.
pub fn same_bytes(a: &[u8], b: &[u8]) -> (same: bool)
    ensures
        same == (a@ == b@),
{
    if a.len() != b.len() {
        return false;
    }
    let mut same = true;
    let mut at: usize = 0;
    assert(a@.subrange(0, 0) =~= b@.subrange(0, 0));
    while at < a.len()
        invariant
            at <= a@.len(),
            a@.len() == b@.len(),
            same == (a@.subrange(0, at as int) == b@.subrange(0, at as int)),
        decreases a@.len() - at,
    {
        let ghost before = at;
        let equal = a[at] == b[at];
        same = same && equal;
        at = at + 1;
        proof {
            let x = a@.subrange(0, at as int);
            let y = b@.subrange(0, at as int);
            assert(a@.subrange(0, before as int) =~= x.subrange(0, before as int));
            assert(b@.subrange(0, before as int) =~= y.subrange(0, before as int));
            assert(x[before as int] == a@[before as int]);
            assert(y[before as int] == b@[before as int]);
            if same {
                assert(x =~= y);
            }
        }
    }
    assert(a@.subrange(0, at as int) =~= a@);
    assert(b@.subrange(0, at as int) =~= b@);
    same
}

/// Tells whether a token is authentic under a shared secret: reads the
/// payload and the tag out of it, computes the tag of that payload again, and
/// compares.
pub fn verify_token(token: &str, shared_secret: &[u8]) -> (authentic: bool)
    ensures
        authentic == is_authentic(shared_secret@, token@),
{
    if shared_secret.len() == 0 {
        return false;
    }
    let bytes = match hex_decode(token) {
        Some(bytes) => bytes,
        None => {
            return false;
        },
    };
    if bytes.len() < DIGEST_LEN {
        assert forall|other: Seq<u8>| sealed_token(shared_secret@, other) != Some(token@) by {
            if sealed_token(shared_secret@, other) == Some(token@) {
                lemma_sealed_token_parts(shared_secret@, other, token@, bytes@);
            }
        }
        return false;
    }
    let split = bytes.len() - DIGEST_LEN;
    let payload = slice_subrange(bytes.as_slice(), 0, split);
    let tag = slice_subrange(bytes.as_slice(), split, bytes.len());
    let message = labelled(TOKEN_LABEL, payload);
    let authentic = match hmac_sha256_digest(shared_secret, message.as_slice()) {
        Ok(expected) => same_bytes(expected.as_slice(), tag),
        Err(_) => false,
    };
    proof {
        if authentic {
            assert(payload@ + tag@ =~= bytes@);
            assert(sealed_token(shared_secret@, payload@) == Some(token@));
        } else {
            assert forall|other: Seq<u8>| sealed_token(shared_secret@, other) != Some(token@) by {
                if sealed_token(shared_secret@, other) == Some(token@) {
                    lemma_sealed_token_parts(shared_secret@, other, token@, bytes@);
                    assert(other == payload@);
                }
            }
        }
    }
    authentic
}

/// Mints credentials from plaintexts under a shared secret.
pub struct Tokenlib;

impl Tokenlib {
    /// Mints the token for a plaintext, and the secret derived from it. It
    /// fails, with `Configuration`, exactly where the shared secret is empty.
    pub fn get_token_and_derived_secret(
        plaintext: MakeTokenPlaintext,
        shared_secret: &[u8],
    ) -> (out: Result<(String, String), TokenserverError>)
        ensures
            pair_outcome(out) == minting(shared_secret@, plaintext@),
            out is Ok <==> usable_secret(shared_secret@),
            out matches Ok((token, key)) ==> is_hex_text(token@, token@.len()) && is_hex_text(
                key@,
                2 * DIGEST_LEN as nat,
            ),
    {
        let payload = plaintext.canonical_bytes();
        let token = match seal_token(payload.as_slice(), shared_secret) {
            Ok(token) => token,
            Err(e) => {
                return Err(e);
            },
        };
        match derive_secret(token.as_str(), shared_secret) {
            Ok(key) => Ok((token, key)),
            Err(e) => Err(e),
        }
    }
}

} // verus!
