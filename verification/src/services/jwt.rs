//! The claims of a token: whom it is for and how long it is good.
use crate::models::error::{AuthenticationError, GlobalError};
use crate::services::cookie::TOKEN_DURATION;
use vstd::prelude::*;

verus! {

/// The claims of a token. `sub` is the payload; `iat` and `exp` are the times
/// of issue and of expiry, in seconds since the epoch.
#[derive(Debug)]
pub struct Claims {
    pub sub: String,
    pub iat: u64,
    pub exp: u64,
}

/// `Claims` as mathematics.
pub struct ClaimsView {
    pub sub: Seq<char>,
    pub iat: u64,
    pub exp: u64,
}

impl DeepView for Claims {
    type V = ClaimsView;

    open spec fn deep_view(&self) -> ClaimsView {
        ClaimsView { sub: self.sub@, iat: self.iat, exp: self.exp }
    }
}

impl Claims {
    /// The claims with the given values.
    pub fn new(sub: String, iat: u64, exp: u64) -> (claims: Claims)
        ensures
            claims.deep_view() == (ClaimsView { sub: sub@, iat, exp }),
    {
        Claims { sub, iat, exp }
    }

    /// The claims of a token issued at the time `now`: it expires after the
    /// duration of a token.
    pub fn issued_at(sub: String, now: u64) -> (claims: Claims)
        requires
            now + TOKEN_DURATION <= u64::MAX,
        ensures
            claims.deep_view() == (ClaimsView { sub: sub@, iat: now, exp: (now + TOKEN_DURATION) as u64 }),
    {
        Claims { sub, iat: now, exp: now + 10800 }
    }

    /// Has the token expired at the time `now`?
    pub fn is_expired(&self, now: u64) -> (expired: bool)
        ensures
            expired == (self.exp < now),
    {
        self.exp < now
    }
}

/// Checks the claims of a token whose signature has been verified: the
/// payload of a token that has not expired, and an invalid token otherwise.
pub fn verify(claims: Claims, now: u64) -> (payload: Result<String, AuthenticationError>)
    ensures
        claims.exp < now ==> payload == Err::<String, AuthenticationError>(AuthenticationError::InvalidToken),
        claims.exp >= now ==> payload is Ok && payload->Ok_0@ == claims.sub@,
{
    if claims.is_expired(now) {
        Err(AuthenticationError::InvalidToken)
    } else {
        Ok(claims.sub)
    }
}

/// Decides whether a request is let through, from the claims of the token in
/// its authorization cookie: without a cookie, and with a token that has
/// expired, it is not.
pub fn is_authorized(cookie: Option<Claims>, now: u64) -> (payload: Result<String, GlobalError>)
    ensures
        match cookie {
            Some(claims) if claims.exp >= now => payload is Ok && payload->Ok_0@ == claims.sub@,
            _ => payload is Err && payload->Err_0 == GlobalError::AuthenticationError(
                AuthenticationError::InvalidToken,
            ),
        },
{
    match cookie {
        Some(claims) => match verify(claims, now) {
            Ok(payload) => Ok(payload),
            Err(error) => Err(GlobalError::AuthenticationError(error)),
        },
        None => Err(GlobalError::AuthenticationError(AuthenticationError::InvalidToken)),
    }
}

} // verus!
