//! Users as durable storage holds them.
use crate::chat::models::{ChatUser, ChatUserView};
use vstd::prelude::*;

verus! {

/// A stored user.
#[derive(Debug)]
pub struct User {
    pub id: String,
    pub username: String,
    /// The hash of the password.
    pub password: String,
}

/// A user about to be stored.
#[derive(Debug)]
pub struct NewUser<'a> {
    pub username: &'a str,
    /// The hash of the password.
    pub password: String,
}

impl User {
    /// The user as the router knows it: not connected, and without the
    /// password.
    pub fn convert(self) -> (user: ChatUser)
        ensures
            user.deep_view() == (ChatUserView { id: self.id@, username: self.username@, connected: false }),
    {
        ChatUser { id: self.id, username: self.username, connected: false }
    }
}

impl<'a> NewUser<'a> {
    /// The record of a user with the given name and hashed password.
    pub fn record(username: &'a str, hashed_password: String) -> (user: NewUser<'a>)
        ensures
            user.username@ == username@,
            user.password@ == hashed_password@,
    {
        NewUser { username, password: hashed_password }
    }
}

} // verus!
