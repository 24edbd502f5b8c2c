//! What a client sends to log in or register, and what it is answered.
use crate::chat::models::{ChatUser, ChatUserView};
use crate::models::user::User;
use crate::services::cookie::{auth_cookie, create_cookie, AuthCookie};
use vstd::prelude::*;

verus! {

/// The credentials that a client sends.
#[derive(Debug)]
pub struct AuthForm {
    pub username: String,
    pub password: String,
}

/// The answer to a request to log in or register.
#[derive(Debug)]
pub struct AuthResponse {
    pub session_id: Option<String>,
    pub ok: bool,
    pub message: &'static str,
    pub user: Option<ChatUser>,
    pub error_message: Option<String>,
}

/// `AuthResponse` as mathematics.
pub struct AuthResponseView {
    pub session_id: Option<Seq<char>>,
    pub ok: bool,
    pub message: Seq<char>,
    pub user: Option<ChatUserView>,
    pub error_message: Option<Seq<char>>,
}

impl DeepView for AuthResponse {
    type V = AuthResponseView;

    open spec fn deep_view(&self) -> AuthResponseView {
        AuthResponseView {
            session_id: self.session_id.deep_view(),
            ok: self.ok,
            message: self.message@,
            user: self.user.deep_view(),
            error_message: self.error_message.deep_view(),
        }
    }
}

impl AuthResponse {
    /// The answer that lets `user` in with the token issued for the user: the
    /// body names the user, whose identifier is the session's, and the cookie
    /// carries the token.
    pub fn succeed_with_token<'a>(user: User, token: &'a str) -> (out: (AuthResponse, AuthCookie<'a>))
        ensures
            out.0.deep_view() == (AuthResponseView {
                session_id: Some(user.id@),
                ok: true,
                message: "Success!"@,
                user: Some(ChatUserView { id: user.id@, username: user.username@, connected: false }),
                error_message: None,
            }),
            out.1.deep_view() == auth_cookie(token@),
    {
        let user = user.convert();
        let cookie = create_cookie(token);
        let body = AuthResponse {
            session_id: Some(user.id.clone()),
            ok: true,
            message: "Success!",
            user: Some(user),
            error_message: None,
        };
        (body, cookie)
    }
}

} // verus!
