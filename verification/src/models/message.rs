//! Messages as durable storage holds them.
use crate::chat::models::ChatMessage;
use vstd::prelude::*;

verus! {

/// A stored message. Its receiver is a user or a room, never both.
#[derive(Debug)]
pub struct Message {
    pub id: String,
    pub sender_id: String,
    pub receiver_user: Option<String>,
    pub receiver_room: Option<String>,
    pub content: String,
    /// When the message was stored, in seconds since the epoch.
    pub timestamp: i64,
}

/// A message about to be stored.
#[derive(Debug)]
pub struct NewMessage<'a> {
    pub id: &'a str,
    pub sender_id: &'a str,
    pub receiver_user: Option<&'a str>,
    pub receiver_room: Option<&'a str>,
    pub content: &'a str,
    /// The time of storing, in seconds since the epoch.
    pub timestamp: i64,
}

impl<'a> NewMessage<'a> {
    /// The record of a chat message: its receiver is entered as a room where
    /// `room` says so, and as a user otherwise.
    pub fn record(message: &'a ChatMessage, room: bool, timestamp: i64) -> (stored: NewMessage<'a>)
        ensures
            stored.id@ == message.id@,
            stored.sender_id@ == message.sender_id@,
            stored.content@ == message.content@,
            stored.timestamp == timestamp,
            stored.receiver_user.deep_view() == if room {
                None::<Seq<char>>
            } else {
                Some(message.receiver_id@)
            },
            stored.receiver_room.deep_view() == if room {
                Some(message.receiver_id@)
            } else {
                None::<Seq<char>>
            },
    {
        NewMessage {
            id: message.id.as_str(),
            sender_id: message.sender_id.as_str(),
            receiver_user: if !room {
                Some(message.receiver_id.as_str())
            } else {
                None
            },
            receiver_room: if room {
                Some(message.receiver_id.as_str())
            } else {
                None
            },
            content: message.content.as_str(),
            timestamp,
        }
    }
}

} // verus!
