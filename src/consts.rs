use vstd::prelude::*;

verus! {

/// Shortest code verifier that RFC 7636 allows.
pub const CV_MIN_SIZE: usize = 43;

/// Longest code verifier that RFC 7636 allows.
pub const CV_MAX_SIZE: usize = 128;

/// Length of a code verifier when the caller names none.
pub const CV_DEFAULT_SIZE: usize = 96;

} // verus!
