//! The errors of the signing and authentication layer.

use vstd::prelude::*;

verus! {

/// What went wrong, by kind.
#[derive(Debug, PartialEq, Eq)]
pub enum ClobError {
    /// Malformed input: a secret key that is not hex or no valid scalar, a
    /// token id that is not a decimal integer, a price or size out of range.
    InputValidation,
    /// The credential exchange was refused or answered malformed; carries the
    /// response body.
    AuthenticationFailed(String),
    /// The curve operation behind a signature failed.
    SigningFailure,
    /// The exchange could not be reached or answered with something that is
    /// not a response; carries what is known.
    TransportError(String),
    /// An operation that needs session credentials was asked for before
    /// authentication.
    NotAuthenticated,
}

} // verus!
