use crate::base64url::{base64_encode, base64_fits, base64_url_nopad};
use crate::decimal::{push_zero_padded, zero_padded};
use vstd::prelude::*;

verus! {

/// Digits to which the counter of a key-id is padded, so that key-ids sort as
/// their counters do.
pub const KEY_ID_DIGITS: usize = 13;

/// The key-rotation epoch as of which a token is minted: the later of the
/// stored "keys changed at" counter and the generation that the caller gave,
/// or that generation where no counter is stored.
pub open spec fn key_epoch(keys_changed_at: Option<u64>, generation: u64) -> u64 {
    match keys_changed_at {
        Some(changed) => if changed >= generation {
            changed
        } else {
            generation
        },
        None => generation,
    }
}

/// The text of a key-id: the padded counter, a hyphen, and the client state
/// in URL-safe base64 without padding.
pub open spec fn key_id_text(counter: u64, client_state: Seq<u8>) -> Seq<char> {
    zero_padded(counter as nat, KEY_ID_DIGITS as nat) + seq!['-'] + base64_url_nopad(client_state)
}

/// Resolves the counter of a key-id.
pub fn key_id_counter(keys_changed_at: Option<u64>, generation: u64) -> (counter: u64)
    ensures
        counter == key_epoch(keys_changed_at, generation),
        counter >= generation,
        keys_changed_at matches Some(changed) ==> counter >= changed,
        counter == generation || keys_changed_at == Some(counter),
{
    match keys_changed_at {
        Some(changed) => if changed >= generation {
            changed
        } else {
            generation
        },
        None => generation,
    }
}

/// Formats a key-id from its counter and the client state.
pub fn format_key_id(counter: u64, client_state: &[u8]) -> (key_id: String)
    requires
        base64_fits(client_state@.len()),
    ensures
        key_id@ == key_id_text(counter, client_state@),
{
    let mut key_id = String::new();
    push_zero_padded(&mut key_id, counter, KEY_ID_DIGITS);
    key_id.push('-');
    let encoded = base64_encode(client_state);
    key_id.append(encoded.as_str());
    assert(key_id@ =~= key_id_text(counter, client_state@));
    key_id
}

} // verus!
