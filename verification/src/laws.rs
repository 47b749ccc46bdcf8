use crate::decimal::{is_digit, lemma_zero_padded_width, pow10, zero_padded};
use crate::error::{pair_outcome, text_outcome, TokenserverError};
use crate::handlers::{
    account_pseudonym, device_pseudonym, plaintext_for, AssignmentFields, RequestFields,
};
use crate::hashing::{
    is_hex_text, keyed_digest, metrics_hash, pseudonymizing, DIGEST_LEN, PSEUDONYM_LEN,
};
use crate::hexfmt::{
    hex_lower, is_lower_hex, lemma_hex_lower_concat, lemma_hex_lower_injective,
    lemma_hex_lower_shape,
};
use crate::keyid::{key_epoch, key_id_text, KEY_ID_DIGITS};
use crate::plaintext::{lemma_canonical_bytes_prefix, PlaintextFields};
use crate::tokenlib::{
    derived_secret, is_authentic, lemma_sealed_token_parts, minted, minting, sealed_token,
    token_message,
};
use vstd::prelude::*;
use vstd::utf8::encode_utf8;

verus! {

/// Pseudonymising is deterministic: two answers for the same message under
/// the same key are the same text, or the same error.
pub proof fn law_pseudonymize_deterministic(
    first: Result<String, TokenserverError>,
    second: Result<String, TokenserverError>,
    message: Seq<u8>,
    key: Seq<u8>,
)
    requires
        text_outcome(first) == pseudonymizing(message, key),
        text_outcome(second) == pseudonymizing(message, key),
    ensures
        text_outcome(first) == text_outcome(second),
{
}

/// Minting is deterministic: two answers for the same plaintext under the
/// same shared secret are the same token and secret, or the same error.
pub proof fn law_mint_deterministic(
    first: Result<(String, String), TokenserverError>,
    second: Result<(String, String), TokenserverError>,
    shared_secret: Seq<u8>,
    plaintext: PlaintextFields,
)
    requires
        pair_outcome(first) == minting(shared_secret, plaintext),
        pair_outcome(second) == minting(shared_secret, plaintext),
    ensures
        pair_outcome(first) == pair_outcome(second),
{
}

/// The counter of a key-id is the later of the two epochs: none of them is
/// later, and it is one of them.
pub proof fn law_key_epoch_is_latest(keys_changed_at: Option<u64>, generation: u64)
    ensures
        key_epoch(keys_changed_at, generation) >= generation,
        keys_changed_at matches Some(changed) ==> key_epoch(keys_changed_at, generation)
            >= changed,
        key_epoch(keys_changed_at, generation) == generation || keys_changed_at == Some(
            key_epoch(keys_changed_at, generation),
        ),
{
}

/// A key-id whose counter is below ten to the thirteenth starts with exactly
/// thirteen digits, and the hyphen follows them.
pub proof fn law_key_id_has_thirteen_digits(counter: u64, client_state: Seq<u8>)
    requires
        counter < 10_000_000_000_000,
    ensures
        key_id_text(counter, client_state).len() > KEY_ID_DIGITS,
        forall|i: int|
            0 <= i < KEY_ID_DIGITS ==> is_digit(#[trigger] key_id_text(counter, client_state)[i]),
        key_id_text(counter, client_state)[KEY_ID_DIGITS as int] == '-',
        key_id_text(counter, client_state).subrange(0, KEY_ID_DIGITS as int) == zero_padded(
            counter as nat,
            KEY_ID_DIGITS as nat,
        ),
{
    reveal_with_fuel(pow10, 14);
    assert(pow10(13) == 10_000_000_000_000);
    lemma_zero_padded_width(counter as nat, 13);
    let padded = zero_padded(counter as nat, 13);
    let text = key_id_text(counter, client_state);
    assert forall|i: int| 0 <= i < 13 implies is_digit(#[trigger] text[i]) by {
        assert(text[i] == padded[i]);
    }
    assert(text.subrange(0, 13) =~= padded);
}

/// Plaintexts that differ in a field have different tokens, under the same
/// shared secret or under two.
pub proof fn law_distinct_plaintexts_distinct_tokens(
    first_secret: Seq<u8>,
    second_secret: Seq<u8>,
    first: PlaintextFields,
    second: PlaintextFields,
)
    requires
        first.fits(),
        second.fits(),
        first != second,
        minted(first_secret, first) is Some,
        minted(second_secret, second) is Some,
    ensures
        minted(first_secret, first).unwrap().0 != minted(second_secret, second).unwrap().0,
{
    let first_token = sealed_token(first_secret, first.canonical_bytes()).unwrap();
    let second_token = sealed_token(second_secret, second.canonical_bytes()).unwrap();
    if first_token == second_token {
        let first_tag = keyed_digest(first_secret, token_message(first.canonical_bytes())).unwrap();
        let second_tag = keyed_digest(
            second_secret,
            token_message(second.canonical_bytes()),
        ).unwrap();
        lemma_hex_lower_injective(
            first.canonical_bytes() + first_tag,
            second.canonical_bytes() + second_tag,
        );
        lemma_canonical_bytes_prefix(first, second, first_tag, second_tag);
    }
}

/// A minted token is authentic under the shared secret that minted it.
pub proof fn law_minted_token_is_authentic(shared_secret: Seq<u8>, plaintext: PlaintextFields)
    requires
        minted(shared_secret, plaintext) is Some,
    ensures
        is_authentic(shared_secret, minted(shared_secret, plaintext).unwrap().0),
{
    assert(sealed_token(shared_secret, plaintext.canonical_bytes()) == Some(
        minted(shared_secret, plaintext).unwrap().0,
    ));
}

/// A token that was changed behind its payload is not authentic: no text of
/// the same length that starts with the payload's characters is, but for the
/// sealed token itself.
pub proof fn law_changed_tag_is_rejected(
    shared_secret: Seq<u8>,
    payload: Seq<u8>,
    changed: Seq<char>,
)
    requires
        sealed_token(shared_secret, payload) is Some,
        changed != sealed_token(shared_secret, payload).unwrap(),
        changed.len() == sealed_token(shared_secret, payload).unwrap().len(),
        changed.subrange(0, 2 * payload.len() as int) == sealed_token(
            shared_secret,
            payload,
        ).unwrap().subrange(0, 2 * payload.len() as int),
    ensures
        !is_authentic(shared_secret, changed),
{
    let token = sealed_token(shared_secret, payload).unwrap();
    let tag = keyed_digest(shared_secret, token_message(payload)).unwrap();
    lemma_hex_lower_concat(payload, tag);
    lemma_hex_lower_shape(payload);
    lemma_hex_lower_shape(tag);
    lemma_hex_lower_shape(payload + tag);
    assert(token.subrange(0, 2 * payload.len() as int) =~= hex_lower(payload));
    assert forall|other: Seq<u8>| sealed_token(shared_secret, other) != Some(changed) by {
        if sealed_token(shared_secret, other) == Some(changed) {
            let other_tag = keyed_digest(shared_secret, token_message(other)).unwrap();
            lemma_hex_lower_concat(other, other_tag);
            lemma_hex_lower_shape(other);
            lemma_hex_lower_shape(other_tag);
            lemma_hex_lower_shape(other + other_tag);
            assert(other.len() == payload.len());
            assert(changed.subrange(0, 2 * payload.len() as int) =~= hex_lower(other));
            lemma_hex_lower_injective(other, payload);
        }
    }
}

/// A text with a character that is no lowercase hexadecimal digit is no
/// authentic token.
pub proof fn law_foreign_character_is_rejected(
    shared_secret: Seq<u8>,
    changed: Seq<char>,
    at: int,
)
    requires
        0 <= at < changed.len(),
        !is_lower_hex(changed[at]),
    ensures
        !is_authentic(shared_secret, changed),
{
    assert forall|other: Seq<u8>| sealed_token(shared_secret, other) != Some(changed) by {
        if sealed_token(shared_secret, other) == Some(changed) {
            let other_tag = keyed_digest(shared_secret, token_message(other)).unwrap();
            lemma_hex_lower_shape(other + other_tag);
        }
    }
}

/// An authentic token carries the payload that it was sealed for: two
/// payloads with the same token are the same.
pub proof fn law_token_binds_payload(
    shared_secret: Seq<u8>,
    first: Seq<u8>,
    second: Seq<u8>,
)
    requires
        sealed_token(shared_secret, first) is Some,
        sealed_token(shared_secret, first) == sealed_token(shared_secret, second),
    ensures
        first == second,
{
    let token = sealed_token(shared_secret, first).unwrap();
    let tag = keyed_digest(shared_secret, token_message(first)).unwrap();
    lemma_sealed_token_parts(shared_secret, first, token, first + tag);
    lemma_sealed_token_parts(shared_secret, second, token, first + tag);
}

/// The secret of a minted token can be derived again: deriving from the
/// token under the same shared secret gives the secret that was minted.
pub proof fn law_secret_is_rederivable(shared_secret: Seq<u8>, plaintext: PlaintextFields)
    requires
        minted(shared_secret, plaintext) is Some,
    ensures
        derived_secret(shared_secret, minted(shared_secret, plaintext).unwrap().0) == Some(
            minted(shared_secret, plaintext).unwrap().1,
        ),
{
}

/// The pseudonym of an account is thirty-two lowercase hexadecimal digits,
/// and they are the first of the sixty-four of its full pseudonym.
pub proof fn law_account_pseudonym_is_prefix(fxa_uid: Seq<char>, hash_key: Seq<u8>)
    requires
        account_pseudonym(fxa_uid, hash_key) is Some,
    ensures
        metrics_hash(fxa_uid, hash_key) is Some,
        is_hex_text(metrics_hash(fxa_uid, hash_key).unwrap(), 2 * DIGEST_LEN as nat),
        is_hex_text(account_pseudonym(fxa_uid, hash_key).unwrap(), PSEUDONYM_LEN as nat),
        account_pseudonym(fxa_uid, hash_key).unwrap() == metrics_hash(
            fxa_uid,
            hash_key,
        ).unwrap().subrange(0, PSEUDONYM_LEN as int),
{
    let digest = keyed_digest(hash_key, encode_utf8(fxa_uid)).unwrap();
    lemma_hex_lower_shape(digest);
}

/// The pseudonym of a device is thirty-two lowercase hexadecimal digits, and
/// they are the first of the sixty-four of the full pseudonym of the
/// account's pseudonym followed by the device's label.
pub proof fn law_device_pseudonym_is_prefix(hashed_fxa_uid: Seq<char>, hash_key: Seq<u8>)
    requires
        device_pseudonym(hashed_fxa_uid, hash_key) is Some,
    ensures
        metrics_hash(hashed_fxa_uid + "none"@, hash_key) is Some,
        is_hex_text(
            metrics_hash(hashed_fxa_uid + "none"@, hash_key).unwrap(),
            2 * DIGEST_LEN as nat,
        ),
        is_hex_text(device_pseudonym(hashed_fxa_uid, hash_key).unwrap(), PSEUDONYM_LEN as nat),
        device_pseudonym(hashed_fxa_uid, hash_key).unwrap() == metrics_hash(
            hashed_fxa_uid + "none"@,
            hash_key,
        ).unwrap().subrange(0, PSEUDONYM_LEN as int),
{
    let digest = keyed_digest(hash_key, encode_utf8(hashed_fxa_uid + "none"@)).unwrap();
    lemma_hex_lower_shape(digest);
}

/// The expiry of a credential is the time at which it is minted plus the
/// lifetime that was asked for, and its key-id carries the later epoch.
pub proof fn law_expiry_is_time_plus_duration(
    request: RequestFields,
    assignment: AssignmentFields,
    hash_key: Seq<u8>,
    time: u64,
)
    requires
        time + request.duration <= u64::MAX,
        plaintext_for(request, Some(assignment), hash_key, Some(time)) is Ok,
    ensures
        plaintext_for(request, Some(assignment), hash_key, Some(time)).unwrap().expires == time
            + request.duration,
        plaintext_for(request, Some(assignment), hash_key, Some(time)).unwrap().fxa_kid
            == key_id_text(
            key_epoch(assignment.keys_changed_at, request.generation),
            assignment.client_state,
        ),
{
}

} // verus!
