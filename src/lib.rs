//! Proof Key for Code Exchange (RFC 7636): code verifiers and code challenges.
pub mod consts;
pub mod errors;
pub mod pkce;
pub mod token;
pub mod urlsafe;
