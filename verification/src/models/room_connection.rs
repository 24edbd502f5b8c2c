//! Memberships of rooms as durable storage holds them.
use vstd::prelude::*;

verus! {

/// A stored membership: the user is a member of the room.
#[derive(Debug)]
pub struct RoomConnection {
    pub room_id: String,
    pub user_id: String,
}

/// A membership about to be stored.
#[derive(Debug)]
pub struct NewRoomConnection<'a> {
    pub room_id: &'a str,
    pub user_id: &'a str,
}

impl<'a> NewRoomConnection<'a> {
    /// The record of the membership of `user_id` in `room_id`.
    pub fn record(room_id: &'a str, user_id: &'a str) -> (stored: NewRoomConnection<'a>)
        ensures
            stored.room_id@ == room_id@,
            stored.user_id@ == user_id@,
    {
        NewRoomConnection { room_id, user_id }
    }
}

} // verus!
