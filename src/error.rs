//! The failures of a protocol request.
use vstd::prelude::*;

verus! {

/// Why a request failed. A proof that does not match is not an error: it is
/// reported as a rejected verification.
#[derive(Debug, Clone, Copy, PartialEq, Eq, Structural)]
pub enum AuthError {
    /// No session is open under the given authentication id.
    SessionNotFound,
    /// The user named by a session is not registered.
    UserNotFound,
    /// The response is negative.
    InvalidArgument,
    /// A numeric field is not a decimal integer in range.
    MalformedInput,
    /// A session is already open under the given authentication id.
    DuplicateSession,
}

} // verus!
