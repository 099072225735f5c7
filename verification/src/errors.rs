//! Typed error taxonomy for the service.
//!
//! Internally every failure keeps its cause as a tagged variant; the lossy
//! collapse to a generic HTTP status happens only at the boundary, in
//! [`status_of`].

use vstd::prelude::*;

verus! {

/// Why a request could not be served.
#[derive(Clone, Copy, Debug, PartialEq, Eq, Structural)]
pub enum ApiError {
    /// A required deployment parameter is absent or malformed.
    Configuration,
    /// A call to the external identity provider failed or returned
    /// a malformed response.
    Transport,
    /// The relational database or the key-value store failed.
    Persistence,
    /// The requested record does not exist (reserved; unused by the
    /// current HTTP surface).
    NotFound,
    /// No valid session accompanies the request.
    Unauthorized,
    /// The OAuth anti-forgery state is unknown or already consumed.
    InvalidOAuthState,
}

/// The HTTP status that [`status_of`] assigns to an error.
pub open spec fn spec_status_of(e: ApiError) -> u16 {
    match e {
        ApiError::InvalidOAuthState => 400,
        ApiError::Unauthorized => 401,
        ApiError::NotFound => 404,
        ApiError::Configuration => 500,
        ApiError::Transport => 500,
        ApiError::Persistence => 500,
    }
}

/// Collapse an error to the status code reported to the caller: bad or
/// expired OAuth state is the client's fault (400), a missing session is
/// unauthorized (401), and every dependency failure is an opaque 500.
pub fn status_of(e: &ApiError) -> (status: u16)
    ensures
        status == spec_status_of(*e),
{
    match e {
        ApiError::InvalidOAuthState => 400,
        ApiError::Unauthorized => 401,
        ApiError::NotFound => 404,
        ApiError::Configuration => 500,
        ApiError::Transport => 500,
        ApiError::Persistence => 500,
    }
}

} // verus!
