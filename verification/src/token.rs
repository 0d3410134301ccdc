//! The session token and the request tokens derived from it.
use vstd::array::*;
use vstd::prelude::*;
use vstd::slice::*;
use vstd::std_specs::convert::TryFromSpecImpl;
use vstd::string::*;
use vstd::utf8::*;

use crate::encoding::{
    decode_field, decoded_field, encode_url_safe, is_text_byte, is_text_char, lemma_text_bytes,
    lemma_text_chars, url_safe_encoding,
};
use crate::error::Error;
use crate::otp::{lemma_xor_cancels, xor_bytes, xor_into};
use crate::primitives::{constant_time_eq, fill_random};
use crate::{ENCODED_LEN, TOKEN_LEN};

verus! {

/// The secret of one session: `TOKEN_LEN` random bytes, made once and never
/// changed.
///
/// Its text form belongs in a signed cookie or in the session.
pub struct CookieToken {
    data: [u8; TOKEN_LEN],
}

/// A token for one request: a one-time pad and the secret of the session
/// masked with it.
///
/// A request token comes from `CookieToken::gen_req_token` or from its text
/// form; there is no other way to make one.
pub struct RequestToken {
    otp: [u8; TOKEN_LEN],
    mask: [u8; TOKEN_LEN],
}

/// What a request token holds.
pub struct RequestTokenView {
    /// The one-time pad.
    pub otp: Seq<u8>,
    /// The pad combined with a secret by exclusive-or.
    pub mask: Seq<u8>,
}

impl View for CookieToken {
    type V = Seq<u8>;

    /// The secret.
    closed spec fn view(&self) -> Seq<u8> {
        self.data@
    }
}

impl View for RequestToken {
    type V = RequestTokenView;

    closed spec fn view(&self) -> RequestTokenView {
        RequestTokenView { otp: self.otp@, mask: self.mask@ }
    }
}

/// An array whose first `n` bytes are those of `bytes`.
spec fn array_of(bytes: Seq<u8>, n: nat) -> [u8; TOKEN_LEN]
    decreases n,
{
    if n == 0 {
        spec_array_fill_for_copy_type::<u8, TOKEN_LEN>(0u8)
    } else {
        spec_array_update(array_of(bytes, (n - 1) as nat), n - 1, bytes[n - 1])
    }
}

proof fn lemma_array_of(bytes: Seq<u8>, n: nat)
    requires
        n <= TOKEN_LEN,
    ensures
        forall|i: int| 0 <= i < n ==> array_of(bytes, n)@[i] == bytes[i],
    decreases n,
{
    if n > 0 {
        lemma_array_of(bytes, (n - 1) as nat);
    }
}

impl CookieToken {
    /// The text form of this token.
    pub open spec fn encoded(&self) -> Seq<char> {
        url_safe_encoding(self@)
    }

    /// The secret of the token that `text` is the text form of, if it is one.
    pub open spec fn decoded(text: Seq<u8>) -> Option<Seq<u8>> {
        decoded_field(text)
    }

    /// The token whose secret is `secret`.
    pub open spec fn of_secret(secret: Seq<u8>) -> CookieToken {
        choose|token: CookieToken| token@ == secret
    }

    /// Whether `token` carries the secret of this session.
    pub open spec fn accepts(&self, token: &RequestToken) -> bool {
        token.secret() == self@
    }

    /// Whether `token` is this session's secret under the token's own pad.
    pub open spec fn derives(&self, token: &RequestToken) -> bool {
        token@.mask == xor_bytes(token@.otp, self@)
    }

    /// A secret is `TOKEN_LEN` bytes long.
    pub proof fn lemma_secret_len(&self)
        ensures
            self@.len() == TOKEN_LEN,
    {
    }

    /// There is a token for every secret of `TOKEN_LEN` bytes.
    pub proof fn lemma_of_secret(secret: Seq<u8>)
        requires
            secret.len() == TOKEN_LEN,
        ensures
            Self::of_secret(secret)@ == secret,
    {
        let token = CookieToken { data: array_of(secret, TOKEN_LEN as nat) };
        lemma_array_of(secret, TOKEN_LEN as nat);
        assert(token@ =~= secret);
    }

    /// Two tokens with the same secret are the same token.
    pub proof fn lemma_same_secret(a: CookieToken, b: CookieToken)
        requires
            a@ == b@,
        ensures
            a == b,
    {
        assert(a.data =~= b.data);
    }

    /// Makes the token of a new session from `TOKEN_LEN` random bytes.
    pub fn new() -> (token: CookieToken)
        ensures
            token@.len() == TOKEN_LEN,
    {
        let mut t = CookieToken { data: [0u8; TOKEN_LEN] };
        fill_random(&mut t.data);
        t
    }

    /// The text form of this token: `ENCODED_LEN` characters that need no
    /// escaping in a URL, a header or an HTML attribute, and from which
    /// `try_from` makes this token again.
    pub fn to_string(&self) -> (text: String)
        ensures
            text@ == self.encoded(),
            text@.len() == ENCODED_LEN,
            encode_utf8(text@).len() == ENCODED_LEN,
            forall|i: int| 0 <= i < text@.len() ==> is_text_char(#[trigger] text@[i]),
            Self::decoded(encode_utf8(text@)) == Some(self@),
    {
        let text = encode_url_safe(&self.data);
        proof {
            lemma_text_bytes(text@);
        }
        text
    }

    /// Issues a request token: a fresh random pad, and this session's secret
    /// masked with it. Every token issued here is accepted here.
    pub fn gen_req_token(&self) -> (token: RequestToken)
        ensures
            self.derives(&token),
            self.accepts(&token),
    {
        let mut otp: [u8; TOKEN_LEN] = [0u8; TOKEN_LEN];
        fill_random(&mut otp);
        let token = self.mask_with(otp);
        proof {
            lemma_xor_cancels(otp@, self@);
        }
        token
    }

    /// The request token with the pad `otp`, and this session's secret masked
    /// with it.
    fn mask_with(&self, otp: [u8; TOKEN_LEN]) -> (token: RequestToken)
        ensures
            token@.otp == otp@,
            token@.mask == xor_bytes(otp@, self@),
    {
        let mut t = RequestToken { otp, mask: [0u8; TOKEN_LEN] };
        xor_into(&t.otp, &self.data, &mut t.mask);
        t
    }

    /// Checks that `token` carries the secret of this session. The secret
    /// that the token carries is recovered in full and then compared in
    /// constant time.
    pub fn verify_req_token(&self, token: RequestToken) -> (r: Result<(), Error>)
        ensures
            r == if self.accepts(&token) {
                Ok::<(), Error>(())
            } else {
                Err::<(), Error>(Error::TokenMismatch)
            },
    {
        let mut expected: [u8; TOKEN_LEN] = [0u8; TOKEN_LEN];
        xor_into(&token.otp, &token.mask, &mut expected);
        if constant_time_eq(&expected, &self.data) {
            Ok(())
        } else {
            Err(Error::TokenMismatch)
        }
    }
}

impl RequestToken {
    /// The secret that this token carries: its mask with the pad taken off.
    pub open spec fn secret(&self) -> Seq<u8> {
        xor_bytes(self@.otp, self@.mask)
    }

    /// The text form of this token: that of the pad, then that of the mask.
    pub open spec fn encoded(&self) -> Seq<char> {
        url_safe_encoding(self@.otp) + url_safe_encoding(self@.mask)
    }

    /// What the token holds that `text` is the text form of, if it is one:
    /// `text` is two fields of `ENCODED_LEN` bytes, with nothing in between.
    pub open spec fn decoded(text: Seq<u8>) -> Option<RequestTokenView> {
        if text.len() == 2 * ENCODED_LEN {
            match (
                decoded_field(text.subrange(0, ENCODED_LEN as int)),
                decoded_field(text.subrange(ENCODED_LEN as int, 2 * ENCODED_LEN)),
            ) {
                (Some(otp), Some(mask)) => Some(RequestTokenView { otp, mask }),
                _ => None,
            }
        } else {
            None
        }
    }

    /// The token that holds `fields`.
    pub open spec fn of_fields(fields: RequestTokenView) -> RequestToken {
        choose|token: RequestToken| token@ == fields
    }

    /// The pad and the mask are `TOKEN_LEN` bytes long each.
    pub proof fn lemma_field_lens(&self)
        ensures
            self@.otp.len() == TOKEN_LEN,
            self@.mask.len() == TOKEN_LEN,
    {
    }

    /// There is a token for every pad and mask of `TOKEN_LEN` bytes each.
    pub proof fn lemma_of_fields(fields: RequestTokenView)
        requires
            fields.otp.len() == TOKEN_LEN,
            fields.mask.len() == TOKEN_LEN,
        ensures
            Self::of_fields(fields)@ == fields,
    {
        let token = RequestToken {
            otp: array_of(fields.otp, TOKEN_LEN as nat),
            mask: array_of(fields.mask, TOKEN_LEN as nat),
        };
        lemma_array_of(fields.otp, TOKEN_LEN as nat);
        lemma_array_of(fields.mask, TOKEN_LEN as nat);
        assert(token@.otp =~= fields.otp);
        assert(token@.mask =~= fields.mask);
    }

    /// Two tokens that hold the same are the same token.
    pub proof fn lemma_same_fields(a: RequestToken, b: RequestToken)
        requires
            a@ == b@,
        ensures
            a == b,
    {
        assert(a.otp =~= b.otp);
        assert(a.mask =~= b.mask);
    }

    /// The text form of this token: `2 * ENCODED_LEN` characters that need no
    /// escaping in a URL, a header or an HTML attribute, and from which
    /// `try_from` makes this token again.
    pub fn to_string(&self) -> (text: String)
        ensures
            text@ == self.encoded(),
            text@.len() == 2 * ENCODED_LEN,
            encode_utf8(text@).len() == 2 * ENCODED_LEN,
            forall|i: int| 0 <= i < text@.len() ==> is_text_char(#[trigger] text@[i]),
            Self::decoded(encode_utf8(text@)) == Some(self@),
    {
        let mut text = encode_url_safe(&self.otp);
        let mask_text = encode_url_safe(&self.mask);
        let ghost otp_text = text@;
        text.append(mask_text.as_str());
        proof {
            lemma_text_bytes(otp_text);
            lemma_text_bytes(mask_text@);
            lemma_text_bytes(text@);
            let bytes = encode_utf8(text@);
            assert(bytes.subrange(0, ENCODED_LEN as int) =~= encode_utf8(otp_text));
            assert(bytes.subrange(ENCODED_LEN as int, 2 * ENCODED_LEN) =~= encode_utf8(
                mask_text@,
            ));
        }
        text
    }
}

impl TryFrom<&str> for CookieToken {
    type Error = Error;

    /// Reads a token from its text form.
    ///
    /// Fails with `Error::InvalidToken` unless `value` is `ENCODED_LEN` bytes
    /// long and decodes to `TOKEN_LEN` bytes; in particular, if it holds a
    /// character outside the alphabet.
    fn try_from(value: &str) -> (r: Result<CookieToken, Error>)
        ensures
            match r {
                Ok(token) => Self::decoded(value.spec_bytes()) == Some(token@),
                Err(e) => e == Error::InvalidToken && Self::decoded(value.spec_bytes()) is None,
            },
            r is Ok ==> value@.len() == ENCODED_LEN && forall|i: int|
                0 <= i < value@.len() ==> is_text_char(#[trigger] value@[i]),
    {
        match decode_field(value.as_bytes()) {
            Ok(data) => {
                let token = CookieToken { data };
                proof {
                    lemma_text_chars(value@);
                    Self::lemma_same_secret(Self::of_secret(token@), token);
                }
                Ok(token)
            },
            Err(e) => Err(e),
        }
    }
}

impl TryFromSpecImpl<&str> for CookieToken {
    open spec fn obeys_try_from_spec() -> bool {
        true
    }

    open spec fn try_from_spec(v: &str) -> Result<Self, Error> {
        match Self::decoded(v.spec_bytes()) {
            Some(secret) => Ok(Self::of_secret(secret)),
            None => Err(Error::InvalidToken),
        }
    }
}

impl TryFrom<&str> for RequestToken {
    type Error = Error;

    /// Reads a token from its text form.
    ///
    /// Fails with `Error::InvalidToken` unless `value` is `2 * ENCODED_LEN`
    /// bytes long and each half decodes to `TOKEN_LEN` bytes; in particular,
    /// if it holds a character outside the alphabet.
    fn try_from(value: &str) -> (r: Result<RequestToken, Error>)
        ensures
            match r {
                Ok(token) => Self::decoded(value.spec_bytes()) == Some(token@),
                Err(e) => e == Error::InvalidToken && Self::decoded(value.spec_bytes()) is None,
            },
            r is Ok ==> value@.len() == 2 * ENCODED_LEN && forall|i: int|
                0 <= i < value@.len() ==> is_text_char(#[trigger] value@[i]),
    {
        let text = value.as_bytes();
        if text.len() != ENCODED_LEN * 2 {
            return Err(Error::InvalidToken);
        }
        let otp_text = slice_subrange(text, 0, ENCODED_LEN);
        let mask_text = slice_subrange(text, ENCODED_LEN, ENCODED_LEN * 2);
        let otp = match decode_field(otp_text) {
            Ok(otp) => otp,
            Err(e) => {
                return Err(e);
            },
        };
        let mask = match decode_field(mask_text) {
            Ok(mask) => mask,
            Err(e) => {
                return Err(e);
            },
        };
        let token = RequestToken { otp, mask };
        proof {
            assert forall|i: int| 0 <= i < text@.len() implies is_text_byte(
                #[trigger] text@[i],
            ) by {
                if i < ENCODED_LEN {
                    assert(text@[i] == otp_text@[i]);
                } else {
                    assert(text@[i] == mask_text@[i - ENCODED_LEN]);
                }
            }
            lemma_text_chars(value@);
            Self::lemma_same_fields(Self::of_fields(token@), token);
        }
        Ok(token)
    }
}

impl TryFromSpecImpl<&str> for RequestToken {
    open spec fn obeys_try_from_spec() -> bool {
        true
    }

    open spec fn try_from_spec(v: &str) -> Result<Self, Error> {
        match Self::decoded(v.spec_bytes()) {
            Some(fields) => Ok(Self::of_fields(fields)),
            None => Err(Error::InvalidToken),
        }
    }
}

} // verus!
