//! The text form of token bytes: URL-safe base64 with padding, of fixed width.
//!
//! The encoding itself is the work of the `base64` crate. What it computes is
//! named here, not proved; the few facts that this module takes on trust are
//! listed with the two functions that call into the crate.
use vstd::prelude::*;
use vstd::utf8::*;

use crate::error::Error;
use crate::{ENCODED_LEN, TOKEN_LEN};

verus! {

/// The byte that pads a text to a multiple of four bytes: `=`.
pub const PAD: u8 = 0x3d;

/// Whether `b` is one of the 64 symbols of the URL-safe alphabet: an ASCII
/// letter or digit, `-` or `_`.
pub open spec fn is_symbol(b: u8) -> bool {
    ||| 0x41 <= b <= 0x5a
    ||| 0x61 <= b <= 0x7a
    ||| 0x30 <= b <= 0x39
    ||| b == 0x2d
    ||| b == 0x5f
}

/// Whether `b` may occur in the text form of a token at all: a symbol of the
/// alphabet, or the padding byte.
pub open spec fn is_text_byte(b: u8) -> bool {
    is_symbol(b) || b == PAD
}

/// Whether `c` is the character of a text byte.
pub open spec fn is_text_char(c: char) -> bool {
    ||| 'A' <= c <= 'Z'
    ||| 'a' <= c <= 'z'
    ||| '0' <= c <= '9'
    ||| c == '-'
    ||| c == '_'
    ||| c == '='
}

/// The text that `base64::encode_config` makes of `bytes` under
/// `base64::URL_SAFE`.
pub uninterp spec fn url_safe_encoding(bytes: Seq<u8>) -> Seq<char>;

/// The bytes that `base64::decode_config` makes of `text` under
/// `base64::URL_SAFE`, or `None` where it reports a `DecodeError`.
pub uninterp spec fn url_safe_decoding(text: Seq<u8>) -> Option<Seq<u8>>;

/// `base64::DecodeError`, the reason that `base64::decode_config` gives for a
/// failure. It is passed on unread: nothing is claimed of what it holds.
#[verifier::external_type_specification]
#[verifier::external_body]
pub struct ExDecodeError(base64::DecodeError);

/// What the outcome of a decoding holds, without the reason of a failure.
pub open spec fn decoded_bytes(decoded: Result<Vec<u8>, base64::DecodeError>) -> Option<Seq<u8>> {
    match decoded {
        Ok(bytes) => Some(bytes@),
        Err(_) => None,
    }
}

/// `decoded` if it is a field of a token, that is `TOKEN_LEN` bytes.
pub open spec fn sized_field(decoded: Option<Seq<u8>>) -> Option<Seq<u8>> {
    match decoded {
        Some(bytes) => if bytes.len() == TOKEN_LEN {
            decoded
        } else {
            None
        },
        None => None,
    }
}

/// The field of a token that `text` stands for, if it stands for one: `text`
/// is `ENCODED_LEN` bytes long and decodes to `TOKEN_LEN` bytes.
pub open spec fn decoded_field(text: Seq<u8>) -> Option<Seq<u8>> {
    if text.len() == ENCODED_LEN {
        sized_field(url_safe_decoding(text))
    } else {
        None
    }
}

/// A text of text characters has one byte for each character.
pub proof fn lemma_text_bytes(text: Seq<char>)
    requires
        forall|i: int| 0 <= i < text.len() ==> is_text_char(#[trigger] text[i]),
    ensures
        encode_utf8(text).len() == text.len(),
        forall|i: int|
            0 <= i < text.len() ==> #[trigger] encode_utf8(text)[i] == text[i] as u8
                && is_text_byte(encode_utf8(text)[i]),
{
    assert(is_ascii_chars(text)) by {
        assert forall|i: int| 0 <= i < text.len() implies '\0' <= #[trigger] text[i]
            <= '\u{7f}' by {
            assert(is_text_char(text[i]));
        }
    }
    is_ascii_chars_encode_utf8(text);
    assert forall|i: int| 0 <= i < text.len() implies is_text_byte(
        #[trigger] encode_utf8(text)[i],
    ) by {
        assert(is_text_char(text[i]));
    }
}

/// A character is its scalar value.
proof fn lemma_char_value(c: char)
    ensures
        '\0' <= c,
        c as u32 as int == c as int,
{
}

/// A text whose bytes are all text bytes is made of text characters, one for
/// each byte.
pub proof fn lemma_text_chars(text: Seq<char>)
    requires
        forall|j: int|
            0 <= j < encode_utf8(text).len() ==> is_text_byte(#[trigger] encode_utf8(text)[j]),
    ensures
        text.len() == encode_utf8(text).len(),
        forall|i: int| 0 <= i < text.len() ==> is_text_char(#[trigger] text[i]),
    decreases text.len(),
{
    if text.len() > 0 {
        let bytes = encode_utf8(text);
        let scalar: u32 = text[0] as u32;
        char_is_scalar(text[0]);
        lemma_char_value(text[0]);
        let head = encode_scalar(scalar);
        let tail = text.drop_first();
        assert(bytes == head + encode_utf8(tail));
        assert(bytes[0] == head[0]);
        assert(is_text_byte(bytes[0]));
        let first: u8 = head[0];
        assert(first < 0x80);
        assert(scalar <= 0x7f && first == scalar) by (bit_vector)
            requires
                first < 0x80,
                first == if scalar <= 0x7f {
                    (scalar & 0x7f) as u8
                } else if scalar <= 0x7ff {
                    0xc0 | ((scalar >> 6) & 0x1f) as u8
                } else if scalar <= 0xffff {
                    0xe0 | ((scalar >> 12) & 0x0f) as u8
                } else {
                    0xf0 | ((scalar >> 18) & 0x07) as u8
                },
        ;
        assert(head.len() == 1);
        assert(is_text_char(text[0]));
        assert forall|j: int| 0 <= j < encode_utf8(tail).len() implies is_text_byte(
            #[trigger] encode_utf8(tail)[j],
        ) by {
            assert(encode_utf8(tail)[j] == bytes[j + 1]);
        }
        lemma_text_chars(tail);
        assert forall|i: int| 0 <= i < text.len() implies is_text_char(#[trigger] text[i]) by {
            if i > 0 {
                assert(text[i] == tail[i - 1]);
            }
        }
    }
}

/// Calls `base64::encode_config` with `base64::URL_SAFE`.
///
/// Taken on trust of that function, for an input of `TOKEN_LEN` bytes: the
/// text is `ENCODED_LEN` characters long, since 32 bytes make ten full groups
/// of four symbols and a last group of three symbols and one padding
/// character; every character comes from the crate's URL-safe table or is the
/// padding character; and `base64::decode_config` under the same
/// configuration turns the text back into the input, which is what the
/// crate's own round-trip tests assert of every input and configuration.
#[verifier::external_body]
pub(crate) fn encode_url_safe(bytes: &[u8; TOKEN_LEN]) -> (text: String)
    ensures
        text@ == url_safe_encoding(bytes@),
        text@.len() == ENCODED_LEN,
        forall|i: int| 0 <= i < text@.len() ==> is_text_char(#[trigger] text@[i]),
        url_safe_decoding(encode_utf8(text@)) == Some(bytes@),
{
    base64::encode_config(bytes, base64::URL_SAFE)
}

/// Calls `base64::decode_config` with `base64::URL_SAFE`.
///
/// Taken on trust of that function: it looks every byte of its input up in
/// the crate's URL-safe table unless the byte is padding, and reports a byte
/// that is not in the table as `DecodeError::InvalidByte`; so an input that it
/// accepts holds text bytes only. It panics only where the length of the
/// input plus three overflows `usize`, which the length of a slice cannot do.
#[verifier::external_body]
pub(crate) fn decode_url_safe(text: &[u8]) -> (decoded: Result<Vec<u8>, base64::DecodeError>)
    ensures
        decoded_bytes(decoded) == url_safe_decoding(text@),
        decoded is Ok ==> forall|i: int| 0 <= i < text@.len() ==> is_text_byte(#[trigger] text@[i]),
{
    base64::decode_config(text, base64::URL_SAFE)
}

/// Turns the outcome of a decoding into a field of a token: the decoded bytes
/// if there are exactly `TOKEN_LEN` of them, `Error::InvalidToken` if the
/// decoding failed or gave any other number of bytes.
pub fn field_from_decoded(decoded: Result<Vec<u8>, base64::DecodeError>) -> (r: Result<
    [u8; TOKEN_LEN],
    Error,
>)
    ensures
        match r {
            Ok(field) => sized_field(decoded_bytes(decoded)) == Some(field@),
            Err(e) => e == Error::InvalidToken && sized_field(decoded_bytes(decoded)) is None,
        },
{
    match decoded {
        Err(_) => Err(Error::InvalidToken),
        Ok(bytes) => {
            if bytes.len() != TOKEN_LEN {
                return Err(Error::InvalidToken);
            }
            let mut field: [u8; TOKEN_LEN] = [0u8; TOKEN_LEN];
            let mut index: usize = 0;
            while index < TOKEN_LEN
                invariant
                    bytes@.len() == TOKEN_LEN,
                    index <= TOKEN_LEN,
                    forall|i: int| 0 <= i < index ==> field@[i] == bytes@[i],
                decreases TOKEN_LEN - index,
            {
                field[index] = bytes[index];
                index += 1;
            }
            assert(field@ =~= bytes@);
            Ok(field)
        },
    }
}

/// Decodes one field of a token from its text form.
///
/// The length of the text is checked before anything is decoded: a text that
/// is not exactly `ENCODED_LEN` bytes long is turned down whatever it holds.
pub fn decode_field(text: &[u8]) -> (r: Result<[u8; TOKEN_LEN], Error>)
    ensures
        match r {
            Ok(field) => decoded_field(text@) == Some(field@),
            Err(e) => e == Error::InvalidToken && decoded_field(text@) is None,
        },
        r is Ok ==> forall|i: int| 0 <= i < text@.len() ==> is_text_byte(#[trigger] text@[i]),
{
    if text.len() != ENCODED_LEN {
        return Err(Error::InvalidToken);
    }
    field_from_decoded(decode_url_safe(text))
}

} // verus!
