use pkce::consts::{CV_DEFAULT_SIZE, CV_MAX_SIZE, CV_MIN_SIZE};
use pkce::errors::{B64Error, CodeVerfierError};
use pkce::pkce::{gen_code_challenge, gen_code_verifier};
use pkce::token::{finish_token, sample_unreserved, urlsafe_token};
use pkce::urlsafe::{decode_url_safe, encode_url_safe};

fn is_unreserved(c: char) -> bool {
    c.is_ascii_alphanumeric() || c == '-' || c == '.' || c == '_' || c == '~'
}

#[test]
fn test_gen_code_verifier_default_size() {
    let code_verifier: String = gen_code_verifier(None).unwrap();
    assert_eq!(code_verifier.len(), CV_DEFAULT_SIZE);
}

#[test]
fn test_gen_code_verifier_custom_size() {
    let custom_size: usize = 64;
    let code_verifier: String = gen_code_verifier(Some(custom_size)).unwrap();
    assert_eq!(code_verifier.len(), custom_size);
}

#[test]
fn test_gen_code_verifier_invalid_size() {
    assert_eq!(gen_code_verifier(Some(32)), Err(CodeVerfierError::TooSmall));
}

#[test]
fn test_gen_code_challenge() {
    let code_verifier: &str = "foo_bar";
    let code_challenge: String = gen_code_challenge(code_verifier);
    assert_eq!(code_challenge.len(), CV_MIN_SIZE);
}

#[test]
fn verifier_every_valid_size_has_that_length_and_alphabet() {
    for size in CV_MIN_SIZE..=CV_MAX_SIZE {
        let v = gen_code_verifier(Some(size)).unwrap();
        assert_eq!(v.chars().count(), size);
        assert!(v.chars().all(is_unreserved));
    }
}

#[test]
fn verifier_size_bounds() {
    assert_eq!(gen_code_verifier(Some(42)), Err(CodeVerfierError::TooSmall));
    assert_eq!(gen_code_verifier(Some(0)), Err(CodeVerfierError::TooSmall));
    assert_eq!(gen_code_verifier(Some(129)), Err(CodeVerfierError::TooBig));
    assert_eq!(gen_code_verifier(Some(usize::MAX)), Err(CodeVerfierError::TooBig));
    assert_eq!(gen_code_verifier(Some(43)).unwrap().len(), 43);
    assert_eq!(gen_code_verifier(Some(128)).unwrap().len(), 128);
}

#[test]
fn token_size_bounds() {
    assert_eq!(urlsafe_token(42), Err(CodeVerfierError::TooSmall));
    assert_eq!(urlsafe_token(129), Err(CodeVerfierError::TooBig));
    assert_eq!(urlsafe_token(100).unwrap().len(), 100);
}

#[test]
fn verifiers_do_not_repeat() {
    let mut seen: Vec<String> = Vec::new();
    for _ in 0..100 {
        let v = gen_code_verifier(Some(CV_MIN_SIZE)).unwrap();
        assert!(!seen.contains(&v));
        seen.push(v);
    }
}

#[test]
fn challenge_rfc7636_example() {
    let c = gen_code_challenge("dBjftJeZ4CVP-mB92K27uhbUJU1p1r_wW1gFWFOEjXk");
    assert_eq!(c, "E9Melhoa2OwvFrEMTJguCHaoeK1t8URWbuGJSstw-cM");
}

#[test]
fn challenge_is_deterministic() {
    let v = gen_code_verifier(None).unwrap();
    assert_eq!(gen_code_challenge(&v), gen_code_challenge(&v));
    assert_eq!(gen_code_challenge("foo_bar"), gen_code_challenge("foo_bar"));
}

#[test]
fn challenge_length_for_any_input() {
    assert_eq!(gen_code_challenge("").len(), 43);
    assert_eq!(gen_code_challenge("é ü").len(), 43);
    let long: String = "x".repeat(1000);
    assert_eq!(gen_code_challenge(&long).len(), 43);
}

#[test]
fn challenge_differs_for_different_verifiers() {
    assert_ne!(gen_code_challenge("foo_bar"), gen_code_challenge("foo_baz"));
}

#[test]
fn encode_known_values() {
    assert_eq!(encode_url_safe(&[]), "");
    assert_eq!(encode_url_safe(&[251]), "-w");
    assert_eq!(encode_url_safe(&[251, 255]), "-_8");
    assert_eq!(encode_url_safe(b"foo"), "Zm9v");
    assert_eq!(encode_url_safe(b"foob"), "Zm9vYg");
    assert_eq!(encode_url_safe(&[0xfb, 0xef, 0xbe]), "----");
    assert_eq!(encode_url_safe(&[0xff, 0xff, 0xff]), "____");
}

#[test]
fn round_trip_decode_of_encode() {
    let samples: Vec<Vec<u8>> = vec![
        vec![],
        vec![0],
        vec![255, 254],
        vec![1, 2, 3],
        (0..=255u8).collect(),
    ];
    for b in samples {
        let s = encode_url_safe(&b);
        assert_eq!(decode_url_safe(&s), Ok(b));
    }
}

#[test]
fn decode_rejects_standard_alphabet() {
    assert_eq!(decode_url_safe("+w"), Err(B64Error::InvalidEncoding));
    assert_eq!(decode_url_safe("/w"), Err(B64Error::InvalidEncoding));
    assert_eq!(decode_url_safe("Zm9v+A"), Err(B64Error::InvalidEncoding));
    assert_eq!(decode_url_safe("Zm9vYg=="), Err(B64Error::InvalidEncoding));
    assert_eq!(decode_url_safe("Zm9é"), Err(B64Error::InvalidEncoding));
}

#[test]
fn decode_rejects_malformed() {
    assert_eq!(decode_url_safe("Z"), Err(B64Error::DecodeError));
    assert_eq!(decode_url_safe("Zm9vY"), Err(B64Error::DecodeError));
    assert_eq!(decode_url_safe("-x"), Err(B64Error::DecodeError));
}

#[test]
fn decode_known_values() {
    assert_eq!(decode_url_safe(""), Ok(vec![]));
    assert_eq!(decode_url_safe("-w"), Ok(vec![251]));
    assert_eq!(decode_url_safe("Zm9vYg"), Ok(b"foob".to_vec()));
}

#[test]
fn sample_keeps_bytes_below_bound() {
    let mut token: Vec<u8> = Vec::new();
    sample_unreserved(&mut token, &[0, 65, 198, 255, 66, 197, 25, 26, 61, 62, 63, 64], 20);
    assert_eq!(token, b"A~A~Za9-._".to_vec());
}

#[test]
fn sample_stops_at_size() {
    let mut token: Vec<u8> = b"xy".to_vec();
    sample_unreserved(&mut token, &[0, 1, 2, 3], 4);
    assert_eq!(token, b"xyAB".to_vec());
    let mut full: Vec<u8> = b"xyz".to_vec();
    sample_unreserved(&mut full, &[0, 1], 2);
    assert_eq!(full, b"xyz".to_vec());
}

#[test]
fn error_messages() {
    assert_eq!(CodeVerfierError::TooBig.message(), "it must be less than 128");
    assert_eq!(CodeVerfierError::TooSmall.message(), "it must be greater than 43");
    assert_eq!(B64Error::InvalidEncoding.message(), "Invalid Base64 encoding.");
    assert_eq!(B64Error::DecodeError.message(), "Cannot decode the given value");
}

#[test]
fn finish_token_complete() {
    assert_eq!(finish_token(b"Ab9-._~".to_vec(), 7), Ok("Ab9-._~".to_string()));
    assert_eq!(finish_token(Vec::new(), 0), Ok(String::new()));
}

#[test]
fn finish_token_short_or_long() {
    assert_eq!(finish_token(b"Ab9".to_vec(), 4), Err(CodeVerfierError::RandomSourceFailed));
    assert_eq!(finish_token(b"Ab9".to_vec(), 2), Err(CodeVerfierError::RandomSourceFailed));
}
