//! Minting of short-lived, node-scoped bearer credentials.
//!
//! An account identifier is pseudonymised with a keyed hash, the fields that a
//! credential authorises are laid out as canonical bytes, and those bytes are
//! authenticated under a long-lived shared secret to give an opaque token and
//! a session secret that a storage node can derive again from the token.

pub mod base64url;
pub mod decimal;
pub mod error;
pub mod handlers;
pub mod hashing;
pub mod hexfmt;
pub mod keyid;
pub mod laws;
pub mod plaintext;
pub mod tokenlib;
