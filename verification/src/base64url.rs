use vstd::prelude::*;

verus! {

/// The URL-safe base64 text of a byte string, without padding characters.
pub uninterp spec fn base64_url_nopad(input: Seq<u8>) -> Seq<char>;

/// Whether the base64 text of `len` bytes has a length that `usize` holds.
pub open spec fn base64_fits(len: nat) -> bool {
    len / 3 * 4 + 3 <= usize::MAX
}

/// Calls `base64::encode_config` with `URL_SAFE_NO_PAD`. Nothing is proved of
/// the text; the contract gives it its name. The crate panics where the
/// length of the text overflows `usize`, which the `requires` leaves out.
#[verifier::external_body]
pub(crate) fn base64_encode(input: &[u8]) -> (text: String)
    requires
        base64_fits(input@.len()),
    ensures
        text@ == base64_url_nopad(input@),
{
    base64::encode_config(input, base64::URL_SAFE_NO_PAD)
}

} // verus!
