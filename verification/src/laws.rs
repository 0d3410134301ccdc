//! What holds of every session and of every request token.
use vstd::prelude::*;

use crate::otp::{
    flip_bit, lemma_flip_left_changes_xor, lemma_flip_right_changes_xor, lemma_xor_cancels,
};
use crate::token::{CookieToken, RequestToken};
use crate::TOKEN_LEN;

verus! {

/// A session accepts every token that holds its secret under the token's own
/// pad, whatever the pad is.
pub proof fn lemma_derived_token_accepted(session: CookieToken, token: RequestToken)
    requires
        session.derives(&token),
    ensures
        session.accepts(&token),
{
    session.lemma_secret_len();
    token.lemma_field_lens();
    lemma_xor_cancels(token@.otp, session@);
}

/// A token that holds the secret of one session is accepted by no other
/// session.
pub proof fn lemma_other_session_rejects(
    issuer: CookieToken,
    other: CookieToken,
    token: RequestToken,
)
    requires
        issuer.derives(&token),
        other != issuer,
    ensures
        !other.accepts(&token),
{
    lemma_derived_token_accepted(issuer, token);
    if other.accepts(&token) {
        CookieToken::lemma_same_secret(other, issuer);
    }
}

/// Inverting any one bit of the pad or of the mask of a token that a session
/// accepts gives a token that the session does not accept.
pub proof fn lemma_tampered_token_rejected(
    session: CookieToken,
    token: RequestToken,
    tampered: RequestToken,
    index: int,
    bit: nat,
)
    requires
        session.accepts(&token),
        0 <= index < TOKEN_LEN,
        bit < 8,
        ({
            ||| tampered@.otp == flip_bit(token@.otp, index, bit) && tampered@.mask == token@.mask
            ||| tampered@.otp == token@.otp && tampered@.mask == flip_bit(token@.mask, index, bit)
        }),
    ensures
        !session.accepts(&tampered),
{
    token.lemma_field_lens();
    lemma_flip_left_changes_xor(token@.otp, token@.mask, index, bit);
    lemma_flip_right_changes_xor(token@.otp, token@.mask, index, bit);
}

} // verus!
