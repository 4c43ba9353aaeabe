//! The ways in which a protocol step can fail.

use vstd::prelude::*;

verus! {

/// Why a protocol step was refused. Every error ends the attempt; nothing is
/// retried inside the library.
#[derive(Clone, Copy, Debug, PartialEq, Eq, Structural)]
pub enum AuthError {
    /// A secret lies outside `[1, Q-1]`, a group element outside `[0, P-1]`,
    /// or a challenge scalar outside `[0, Q-1]`.
    InvalidInput,
    /// No identity is registered under the username.
    UserNotFound,
    /// The challenge id was never issued or has already been consumed; the
    /// two cases are deliberately not told apart.
    ChallengeNotFound,
    /// The answer does not satisfy the verification equations; which of the
    /// two failed is deliberately not told.
    AuthenticationFailure,
}

impl AuthError {
    /// The wording of each error.
    pub open spec fn text(self) -> Seq<char> {
        match self {
            AuthError::InvalidInput => "Invalid input"@,
            AuthError::UserNotFound => "User not found"@,
            AuthError::ChallengeNotFound => "Challenge not found"@,
            AuthError::AuthenticationFailure => "Authentication Failure"@,
        }
    }

    /// A short human-readable description, fit for a status message.
    pub fn message(&self) -> (s: &'static str)
        ensures
            s@ == self.text(),
    {
        match self {
            AuthError::InvalidInput => "Invalid input",
            AuthError::UserNotFound => "User not found",
            AuthError::ChallengeNotFound => "Challenge not found",
            AuthError::AuthenticationFailure => "Authentication Failure",
        }
    }
}

} // verus!
