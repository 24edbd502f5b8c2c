//! The cookie that carries a user's token.
use crate::chance::fresh_id;
use vstd::prelude::*;

verus! {

/// How long a token is good for, in seconds: three hours.
pub const TOKEN_DURATION: i64 = 10800;

/// The kinds of cookies.
#[derive(Debug, Clone, Copy, PartialEq, Eq)]
pub enum CookieType {
    Authorization,
    Session,
}

/// To which requests a browser attaches a cookie.
#[derive(Debug, Clone, Copy, PartialEq, Eq)]
pub enum SameSite {
    /// Only to requests from the cookie's own site.
    Strict,
    /// Also when the user navigates to the site from elsewhere.
    Lax,
    /// To requests from any site.
    AnySite,
}

/// A cookie, by what it says.
#[derive(Debug)]
pub struct AuthCookie<'a> {
    pub name: &'static str,
    pub value: &'a str,
    /// In seconds.
    pub max_age: i64,
    pub same_site: SameSite,
    pub http_only: bool,
    pub secure: bool,
}

/// `AuthCookie` as mathematics.
pub struct AuthCookieView {
    pub name: Seq<char>,
    pub value: Seq<char>,
    pub max_age: i64,
    pub same_site: SameSite,
    pub http_only: bool,
    pub secure: bool,
}

impl<'a> DeepView for AuthCookie<'a> {
    type V = AuthCookieView;

    open spec fn deep_view(&self) -> AuthCookieView {
        AuthCookieView {
            name: self.name@,
            value: self.value@,
            max_age: self.max_age,
            same_site: self.same_site,
            http_only: self.http_only,
            secure: self.secure,
        }
    }
}

/// The cookie that carries `token`.
pub open spec fn auth_cookie(token: Seq<char>) -> AuthCookieView {
    AuthCookieView {
        name: "Authorization"@,
        value: token,
        max_age: TOKEN_DURATION,
        same_site: SameSite::AnySite,
        http_only: true,
        secure: true,
    }
}

/// The cookie that carries `token`: named `Authorization`, good for as long
/// as the token, sent from any site, over secure connections only, and out of
/// reach of scripts.
pub fn create_cookie<'a>(token: &'a str) -> (cookie: AuthCookie<'a>)
    ensures
        cookie.deep_view() == auth_cookie(token@),
{
    AuthCookie {
        name: "Authorization",
        value: token,
        max_age: TOKEN_DURATION,
        same_site: SameSite::AnySite,
        http_only: true,
        secure: true,
    }
}

/// A fresh session identifier, 36 characters long.
pub fn generate_session_id() -> (id: String)
    ensures
        id@.len() == 36,
{
    fresh_id()
}

} // verus!
