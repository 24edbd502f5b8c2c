//! Rooms as durable storage holds them.
use crate::chat::room::PublicRoom;
use vstd::prelude::*;

verus! {

/// A stored room.
#[derive(Debug)]
pub struct Room {
    pub id: String,
    pub name: String,
    pub password: Option<String>,
    pub admin: String,
}

/// A room about to be stored.
#[derive(Debug)]
pub struct NewRoom<'a> {
    pub id: &'a str,
    pub name: &'a str,
    pub password: Option<&'a str>,
    pub admin: &'a str,
}

impl<'a> NewRoom<'a> {
    /// The record of a public room that `admin` opened. Rooms have no
    /// passwords yet; the record holds a note in their place.
    pub fn record(room: &'a PublicRoom, admin: &'a str) -> (stored: NewRoom<'a>)
        ensures
            stored.id@ == room.id@,
            stored.name@ == room.name@,
            stored.password.deep_view() == Some("To do"@),
            stored.admin@ == admin@,
    {
        NewRoom { id: room.id.as_str(), name: room.name.as_str(), password: Some("To do"), admin }
    }
}

} // verus!
