use std::collections::HashSet;

use xsrf::{CookieToken, Error, RequestToken, ENCODED_LEN, TOKEN_LEN};

const SECRET_TEXT: &str = "AAECAwQFBgcICQoLDA0ODxAREhMUFRYXGBkaGxwdHh8=";
const OTP_TEXT: &str = "AwoRGB8mLTQ7QklQV15lbHN6gYiPlp2kq7K5wMfO1dw=";
const MASK_TEXT: &str = "AwsTGxsjKzMzS0NbW1NrY2Nrk5ubg4uzs6uj29vTy8M=";

fn bytes_of(text: &str) -> Vec<u8> {
    base64::decode_config(text, base64::URL_SAFE).unwrap()
}

fn text_of(bytes: &[u8]) -> String {
    base64::encode_config(bytes, base64::URL_SAFE)
}

fn request_token(otp: &[u8], mask: &[u8]) -> RequestToken {
    let text = format!("{}{}", text_of(otp), text_of(mask));
    RequestToken::try_from(text.as_str()).unwrap()
}

#[test]
fn cookie_token_to_from_string() {
    let original = CookieToken::new();
    let s = original.to_string();
    assert_eq!(s.len(), ENCODED_LEN);
    let decoded: CookieToken = s.as_str().try_into().unwrap();
    assert_eq!(bytes_of(&original.to_string()), bytes_of(&decoded.to_string()));
}

#[test]
fn request_token_to_from_string() {
    let ct = CookieToken::new();
    let original = ct.gen_req_token();
    let s = original.to_string();
    assert_eq!(s.len(), ENCODED_LEN * 2);
    let decoded: RequestToken = s.as_str().try_into().unwrap();
    let t = decoded.to_string();
    assert_eq!(bytes_of(&s[..ENCODED_LEN]), bytes_of(&t[..ENCODED_LEN]));
    assert_eq!(bytes_of(&s[ENCODED_LEN..]), bytes_of(&t[ENCODED_LEN..]));
}

#[test]
fn gen_and_verify_req_token() {
    let ct = CookieToken::new();
    let rt = ct.gen_req_token();
    ct.verify_req_token(rt).unwrap();
}

#[test]
fn cookie_token_text_is_the_url_safe_base64_of_the_secret() {
    let token = CookieToken::try_from(SECRET_TEXT).unwrap();
    assert_eq!(token.to_string(), SECRET_TEXT);
    let secret: Vec<u8> = (0u8..32).collect();
    assert_eq!(bytes_of(&token.to_string()), secret);

    let zero = CookieToken::try_from("AAAAAAAAAAAAAAAAAAAAAAAAAAAAAAAAAAAAAAAAAAA=").unwrap();
    assert_eq!(zero.to_string(), "AAAAAAAAAAAAAAAAAAAAAAAAAAAAAAAAAAAAAAAAAAA=");
    let ones = CookieToken::try_from("__________________________________________8=").unwrap();
    assert_eq!(bytes_of(&ones.to_string()), vec![0xffu8; TOKEN_LEN]);
    let mixed = CookieToken::try_from("-_---_---_---_---_---_---_---_---_---_---_8=").unwrap();
    assert_eq!(mixed.to_string(), "-_---_---_---_---_---_---_---_---_---_---_8=");
}

#[test]
fn request_token_text_is_pad_then_mask() {
    let text = format!("{}{}", OTP_TEXT, MASK_TEXT);
    let token = RequestToken::try_from(text.as_str()).unwrap();
    let again = token.to_string();
    assert_eq!(again.len(), 2 * ENCODED_LEN);
    assert_eq!(&again[..ENCODED_LEN], OTP_TEXT);
    assert_eq!(&again[ENCODED_LEN..], MASK_TEXT);
}

#[test]
fn known_request_token_verifies_against_its_session() {
    let session = CookieToken::try_from(SECRET_TEXT).unwrap();
    let text = format!("{}{}", OTP_TEXT, MASK_TEXT);
    let token = RequestToken::try_from(text.as_str()).unwrap();
    assert_eq!(session.verify_req_token(token), Ok(()));
}

#[test]
fn swapped_halves_still_carry_the_secret() {
    let session = CookieToken::try_from(SECRET_TEXT).unwrap();
    let text = format!("{}{}", MASK_TEXT, OTP_TEXT);
    let token = RequestToken::try_from(text.as_str()).unwrap();
    assert_eq!(session.verify_req_token(token), Ok(()));
}

#[test]
fn known_request_token_fails_against_another_session() {
    let other = CookieToken::try_from("AAAAAAAAAAAAAAAAAAAAAAAAAAAAAAAAAAAAAAAAAAA=").unwrap();
    let text = format!("{}{}", OTP_TEXT, MASK_TEXT);
    let token = RequestToken::try_from(text.as_str()).unwrap();
    assert_eq!(other.verify_req_token(token), Err(Error::TokenMismatch));
}

#[test]
fn mask_is_pad_xor_secret() {
    let session = CookieToken::new();
    let secret = bytes_of(&session.to_string());
    let text = session.gen_req_token().to_string();
    let otp = bytes_of(&text[..ENCODED_LEN]);
    let mask = bytes_of(&text[ENCODED_LEN..]);
    assert_eq!(otp.len(), TOKEN_LEN);
    assert_eq!(mask.len(), TOKEN_LEN);
    for i in 0..TOKEN_LEN {
        assert_eq!(mask[i], otp[i] ^ secret[i]);
    }
}

#[test]
fn minted_tokens_verify() {
    for _ in 0..50 {
        let session = CookieToken::new();
        for _ in 0..20 {
            assert_eq!(session.verify_req_token(session.gen_req_token()), Ok(()));
        }
    }
}

#[test]
fn token_of_another_session_is_rejected() {
    for _ in 0..200 {
        let t1 = CookieToken::new();
        let t2 = CookieToken::new();
        assert_ne!(t1.to_string(), t2.to_string());
        assert_eq!(t1.verify_req_token(t2.gen_req_token()), Err(Error::TokenMismatch));
        assert_eq!(t2.verify_req_token(t1.gen_req_token()), Err(Error::TokenMismatch));
    }
}

#[test]
fn any_flipped_bit_is_rejected() {
    let session = CookieToken::new();
    let text = session.gen_req_token().to_string();
    let otp = bytes_of(&text[..ENCODED_LEN]);
    let mask = bytes_of(&text[ENCODED_LEN..]);
    assert_eq!(session.verify_req_token(request_token(&otp, &mask)), Ok(()));
    for index in 0..TOKEN_LEN {
        for bit in 0..8 {
            let mut bad_otp = otp.clone();
            bad_otp[index] ^= 1u8 << bit;
            assert_eq!(
                session.verify_req_token(request_token(&bad_otp, &mask)),
                Err(Error::TokenMismatch)
            );
            let mut bad_mask = mask.clone();
            bad_mask[index] ^= 1u8 << bit;
            assert_eq!(
                session.verify_req_token(request_token(&otp, &bad_mask)),
                Err(Error::TokenMismatch)
            );
        }
    }
}

#[test]
fn mismatch_is_reported_wherever_the_secrets_differ() {
    let session = CookieToken::try_from(SECRET_TEXT).unwrap();
    let otp = bytes_of(OTP_TEXT);
    let mask = bytes_of(MASK_TEXT);
    for index in [0, 1, 15, 16, 30, 31] {
        let mut bad = mask.clone();
        bad[index] = !bad[index];
        assert_eq!(
            session.verify_req_token(request_token(&otp, &bad)),
            Err(Error::TokenMismatch)
        );
    }
    let all: Vec<u8> = mask.iter().map(|b| !b).collect();
    assert_eq!(session.verify_req_token(request_token(&otp, &all)), Err(Error::TokenMismatch));
}

#[test]
fn pads_and_masks_do_not_repeat() {
    let session = CookieToken::new();
    let mut pads = HashSet::new();
    let mut masks = HashSet::new();
    for _ in 0..2000 {
        let text = session.gen_req_token().to_string();
        assert!(pads.insert(text[..ENCODED_LEN].to_string()));
        assert!(masks.insert(text[ENCODED_LEN..].to_string()));
    }
    assert_eq!(pads.len(), 2000);
    assert_eq!(masks.len(), 2000);
}

#[test]
fn session_tokens_do_not_repeat() {
    let mut seen = HashSet::new();
    for _ in 0..2000 {
        assert!(seen.insert(CookieToken::new().to_string()));
    }
    assert!(!seen.contains("AAAAAAAAAAAAAAAAAAAAAAAAAAAAAAAAAAAAAAAAAAA="));
}

#[test]
fn issue_encode_decode_verify() {
    let s = CookieToken::new();
    let r1 = s.gen_req_token();
    let r2 = s.gen_req_token();
    let r1_text = r1.to_string();
    let r2_text = r2.to_string();
    assert_ne!(&r1_text[..ENCODED_LEN], &r2_text[..ENCODED_LEN]);
    assert_eq!(s.verify_req_token(r1), Ok(()));
    assert_eq!(s.verify_req_token(r2), Ok(()));

    let s_text = s.to_string();
    let s_again = CookieToken::try_from(s_text.as_str()).unwrap();
    let r1_again = RequestToken::try_from(r1_text.as_str()).unwrap();
    assert_eq!(s_again.to_string(), s_text);
    assert_eq!(r1_again.to_string(), r1_text);
    assert_eq!(s_again.verify_req_token(r1_again), Ok(()));
    let r1_once_more = RequestToken::try_from(r1_text.as_str()).unwrap();
    assert_eq!(s.verify_req_token(r1_once_more), Ok(()));
    let r2_again = RequestToken::try_from(r2_text.as_str()).unwrap();
    assert_eq!(s_again.verify_req_token(r2_again), Ok(()));
}

#[test]
fn a_request_token_can_be_verified_more_than_once() {
    let session = CookieToken::new();
    let text = session.gen_req_token().to_string();
    for _ in 0..3 {
        let token: RequestToken = text.as_str().try_into().unwrap();
        assert_eq!(session.verify_req_token(token), Ok(()));
    }
}

#[test]
fn text_needs_no_escaping() {
    for _ in 0..200 {
        let session = CookieToken::new();
        let text = format!("{}{}", session.to_string(), session.gen_req_token().to_string());
        assert_eq!(text.len(), 3 * ENCODED_LEN);
        assert_eq!(text.chars().count(), 3 * ENCODED_LEN);
        for c in text.chars() {
            assert!(c.is_ascii_alphanumeric() || c == '-' || c == '_' || c == '=');
        }
    }
}
