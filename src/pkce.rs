//! Code verifiers and code challenges.
use vstd::prelude::*;
use sha2::Digest;
use vstd::string::StringSliceAdditionalSpecFns;
use crate::consts::{CV_DEFAULT_SIZE, CV_MAX_SIZE, CV_MIN_SIZE};
use crate::errors::CodeVerfierError;
use crate::token::{is_unreserved_char, urlsafe_token};
use crate::urlsafe::{all_url_safe, encode_spec, encode_url_safe};

verus! {

/// The SHA-256 digest of `b`.
pub uninterp spec fn sha256_of(b: Seq<u8>) -> Seq<u8>;

/// Relies on `sha2::Sha256::digest`: the 32-byte SHA-256 digest of the input.
#[verifier::external_body]
fn sha256(bytes: &[u8]) -> (r: Vec<u8>)
    ensures
        r@ == sha256_of(bytes@),
        r@.len() == 32,
{
    sha2::Sha256::digest(bytes).to_vec()
}

/// The code challenge of a verifier whose UTF-8 encoding is `bytes`: the
/// unpadded URL-safe Base64 of its SHA-256 digest.
pub open spec fn challenge_spec(bytes: Seq<u8>) -> Seq<char> {
    encode_spec(sha256_of(bytes))
}

/// The length that a verifier request for `n` asks for.
pub open spec fn requested_size(n: Option<usize>) -> usize {
    match n {
        Some(s) => s,
        None => CV_DEFAULT_SIZE,
    }
}

/// A random code verifier of `n` characters, or of `CV_DEFAULT_SIZE` where
/// `n` is `None`, over the unreserved characters `[A-Za-z0-9-._~]`.
pub fn gen_code_verifier(n: Option<usize>) -> (r: Result<String, CodeVerfierError>)
    ensures
        requested_size(n) < CV_MIN_SIZE <==> r == Err::<String, CodeVerfierError>(
            CodeVerfierError::TooSmall,
        ),
        requested_size(n) > CV_MAX_SIZE <==> r == Err::<String, CodeVerfierError>(
            CodeVerfierError::TooBig,
        ),
        CV_MIN_SIZE <= requested_size(n) <= CV_MAX_SIZE ==> (r is Ok || r == Err::<
            String,
            CodeVerfierError,
        >(CodeVerfierError::RandomSourceFailed)),
        r matches Ok(v) ==> v@.len() == requested_size(n) && forall|i: int|
            0 <= i < v@.len() ==> is_unreserved_char(#[trigger] v@[i]),
{
    let size: usize = match n {
        Some(s) => s,
        None => CV_DEFAULT_SIZE,
    };
    urlsafe_token(size)
}

/// The code challenge of `code_verifier`: SHA-256 over its UTF-8 bytes,
/// encoded in unpadded URL-safe Base64. Any string is accepted.
pub fn gen_code_challenge(code_verifier: &str) -> (r: String)
    ensures
        r@ == challenge_spec(code_verifier.spec_bytes()),
        r@.len() == 43,
        all_url_safe(r@),
{
    let digest = sha256(code_verifier.as_bytes());
    encode_url_safe(digest.as_slice())
}

/// Equal verifiers have equal challenges: the challenge depends on the
/// verifier's bytes alone.
pub proof fn lemma_challenge_deterministic(v: Seq<u8>, w: Seq<u8>)
    requires
        v == w,
    ensures
        challenge_spec(v) == challenge_spec(w),
{
}

} // verus!
