//! Data exchanged with the external identity provider.
//!
//! The three HTTP round trips themselves (authorization-code grant,
//! access-token-to-API-token exchange, profile fetch) are plain network
//! I/O performed by the host program; everything computed around them
//! lives here.

use crate::errors::ApiError;
use vstd::prelude::*;

verus! {

/// Body of the provider's token endpoint response.
#[derive(Debug)]
pub struct OAuthTokenResponse {
    pub access_token: String,
    pub token_type: String,
    pub scope: Option<String>,
    pub refresh_token: Option<String>,
    /// Seconds until the access token expires.
    pub expires_in: Option<i64>,
    /// Unix timestamp (seconds) the token was created at.
    pub created_at: Option<i64>,
}

/// An access token with its expiry resolved to an instant.
#[derive(Debug)]
pub struct TokenWithExpiry {
    pub access_token: String,
    pub refresh_token: Option<String>,
    /// Unix timestamp (seconds), when the provider reported one.
    pub expires_at: Option<i64>,
}

/// The provider's user profile.
#[derive(Debug, Clone)]
pub struct InatUser {
    pub id: i64,
    pub login: String,
    pub name: Option<String>,
    pub icon_url: Option<String>,
    pub email: Option<String>,
}

/// The expiry instant denoted by a token response: creation instant
/// plus lifetime when the provider reports both (and the sum is
/// representable), otherwise unset.
pub open spec fn spec_expires_at(created_at: Option<i64>, expires_in: Option<i64>) -> Option<i64> {
    match (created_at, expires_in) {
        (Some(c), Some(e)) => if i64::MIN <= c + e <= i64::MAX {
            Some((c + e) as i64)
        } else {
            None
        },
        _ => None,
    }
}

/// Resolve a token response to an access token with a concrete expiry
/// instant; the token strings are carried over unchanged.
pub fn token_from_response(resp: OAuthTokenResponse) -> (token: TokenWithExpiry)
    ensures
        token.access_token == resp.access_token,
        token.refresh_token == resp.refresh_token,
        token.expires_at == spec_expires_at(resp.created_at, resp.expires_in),
{
    let expires_at = match (resp.created_at, resp.expires_in) {
        (Some(c), Some(e)) => c.checked_add(e),
        _ => None,
    };
    TokenWithExpiry { access_token: resp.access_token, refresh_token: resp.refresh_token, expires_at }
}

/// Take the single profile out of the provider's result list; an empty
/// list signals a provider-side inconsistency and is a transport error.
pub fn first_user(mut results: Vec<InatUser>) -> (r: Result<InatUser, ApiError>)
    ensures
        results@.len() == 0 ==> (r matches Err(e) && e == ApiError::Transport),
        results@.len() > 0 ==> (r matches Ok(u) && u == results@[0]),
{
    if results.len() == 0 {
        Err(ApiError::Transport)
    } else {
        Ok(results.remove(0))
    }
}

} // verus!
