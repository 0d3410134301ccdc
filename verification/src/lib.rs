//! Primitives for protection against cross-site request forgery.
//!
//! A [`CookieToken`] is the secret of one session. From it any number of
//! [`RequestToken`]s can be issued; each hides the secret behind a fresh
//! one-time pad, and each can be checked against the `CookieToken` with no
//! further state.
//!
//! This crate only provides the tokens. Storing the `CookieToken` in a signed
//! cookie or a session, carrying the `RequestToken` in a form field or a
//! header, and choosing the requests that must be checked are left to the
//! integration with the HTTP layer.
use vstd::prelude::*;

mod encoding;
mod error;
mod laws;
mod otp;
mod primitives;
mod token;

pub use encoding::{
    decode_field, decoded_bytes, decoded_field, field_from_decoded, is_symbol, is_text_byte,
    is_text_char, lemma_text_bytes, lemma_text_chars, sized_field, url_safe_decoding,
    url_safe_encoding, PAD,
};
pub use error::Error;
pub use laws::{
    lemma_derived_token_accepted, lemma_other_session_rejects, lemma_tampered_token_rejected,
};
pub use otp::{
    flip_bit, lemma_flip_left_changes_xor, lemma_flip_right_changes_xor, lemma_xor_cancels,
    xor_bytes, xor_into,
};
pub use token::{CookieToken, RequestToken, RequestTokenView};

verus! {

/// Number of bytes in a session secret, and in each half of a request token.
pub const TOKEN_LEN: usize = 32;

/// Number of bytes in the text form of `TOKEN_LEN` bytes.
pub const ENCODED_LEN: usize = 44;

} // verus!
