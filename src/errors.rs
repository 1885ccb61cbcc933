use vstd::prelude::*;

verus! {

/// Marker for failures of a token exchange.
#[derive(Debug, Clone, Copy, PartialEq, Eq, Structural)]
pub struct TokenError;

/// Marker for failures of nonce handling.
#[derive(Debug, Clone, Copy, PartialEq, Eq, Structural)]
pub struct NonceError;

/// Marker for failures of authorization state handling.
#[derive(Debug, Clone, Copy, PartialEq, Eq, Structural)]
pub struct StateError;

/// Why a code verifier could not be produced.
#[derive(Debug, Clone, Copy, PartialEq, Eq, Structural)]
pub enum CodeVerfierError {
    /// The requested length is above the largest allowed.
    TooBig,
    /// The requested length is below the smallest allowed.
    TooSmall,
    /// The operating system's secure random source failed, or every round of
    /// draws allowed kept too few characters to fill the verifier.
    RandomSourceFailed,
}

/// Why a URL-safe Base64 string could not be decoded.
#[derive(Debug, Clone, Copy, PartialEq, Eq, Structural)]
pub enum B64Error {
    /// The text holds a character outside the URL-safe Base64 alphabet.
    InvalidEncoding,
    /// The text is in the alphabet but is no canonical unpadded encoding.
    DecodeError,
}

impl CodeVerfierError {
    /// A sentence that tells a person what went wrong.
    pub fn message(&self) -> (r: String)
        ensures
            r@ == match self {
                CodeVerfierError::TooBig => "it must be less than 128"@,
                CodeVerfierError::TooSmall => "it must be greater than 43"@,
                CodeVerfierError::RandomSourceFailed => "the secure random source failed"@,
            },
    {
        match self {
            CodeVerfierError::TooBig => "it must be less than 128".to_owned(),
            CodeVerfierError::TooSmall => "it must be greater than 43".to_owned(),
            CodeVerfierError::RandomSourceFailed => "the secure random source failed".to_owned(),
        }
    }
}

impl B64Error {
    /// A sentence that tells a person what went wrong.
    pub fn message(&self) -> (r: String)
        ensures
            r@ == match self {
                B64Error::InvalidEncoding => "Invalid Base64 encoding."@,
                B64Error::DecodeError => "Cannot decode the given value"@,
            },
    {
        match self {
            B64Error::InvalidEncoding => "Invalid Base64 encoding.".to_owned(),
            B64Error::DecodeError => "Cannot decode the given value".to_owned(),
        }
    }
}

} // verus!
