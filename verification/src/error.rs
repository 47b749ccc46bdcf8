use vstd::prelude::*;

verus! {

/// Why a credential could not be issued. No variant carries data, so that an
/// error can be logged without exposing an identifier, a secret or a field of
/// the plaintext.
#[derive(Debug, Clone, Copy, PartialEq, Eq, Structural)]
pub enum TokenserverError {
    /// The shared secret is not usable key material.
    Configuration,
    /// No storage node is assigned to the account.
    LookupNotFound,
    /// The keyed hash rejected its key.
    Transform,
    /// The wall clock could not be read.
    ClockUnavailable,
}

/// A text or the error in place of it, the text as its characters.
pub open spec fn text_outcome(out: Result<String, TokenserverError>) -> Result<
    Seq<char>,
    TokenserverError,
> {
    match out {
        Ok(text) => Ok(text@),
        Err(e) => Err(e),
    }
}

/// Two texts or the error in place of them, each text as its characters.
pub open spec fn pair_outcome(out: Result<(String, String), TokenserverError>) -> Result<
    (Seq<char>, Seq<char>),
    TokenserverError,
> {
    match out {
        Ok((first, second)) => Ok((first@, second@)),
        Err(e) => Err(e),
    }
}

} // verus!
