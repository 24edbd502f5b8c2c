//! The four durable writes that the router and the engine ask for. They are
//! handed out as values; whoever runs the state machines carries them to
//! storage, and no outcome of a write ever comes back.
use crate::chat::models::{ChatMessage, ChatMessageView};
use crate::chat::room::{PublicRoom, PublicRoomView};
use vstd::prelude::*;

verus! {

/// Count one more tournament win for a user.
#[derive(Debug)]
pub struct StoreHoFEntry {
    pub user_id: String,
}

/// Store a new room together with the user who opened it.
#[derive(Debug)]
pub struct StoreRoom {
    pub room: PublicRoom,
    pub admin_id: String,
}

/// Store a message; `is_room` says whether its receiver is a room.
#[derive(Debug)]
pub struct StoreChatMessage {
    pub message: ChatMessage,
    pub is_room: bool,
}

/// Store that a user is a member of a room.
#[derive(Debug)]
pub struct StoreRoomConnection {
    pub room_id: String,
    pub user_id: String,
}

/// One durable write.
#[derive(Debug)]
pub enum DbWrite {
    HoFEntry(StoreHoFEntry),
    Room(StoreRoom),
    ChatMessage(StoreChatMessage),
    RoomConnection(StoreRoomConnection),
}

/// `DbWrite` as mathematics.
pub enum DbWriteView {
    HoFEntry { user_id: Seq<char> },
    Room { room: PublicRoomView, admin_id: Seq<char> },
    ChatMessage { message: ChatMessageView, is_room: bool },
    RoomConnection { room_id: Seq<char>, user_id: Seq<char> },
}

impl DeepView for StoreHoFEntry {
    type V = DbWriteView;

    open spec fn deep_view(&self) -> DbWriteView {
        DbWriteView::HoFEntry { user_id: self.user_id@ }
    }
}

impl DeepView for StoreRoom {
    type V = DbWriteView;

    open spec fn deep_view(&self) -> DbWriteView {
        DbWriteView::Room { room: self.room.deep_view(), admin_id: self.admin_id@ }
    }
}

impl DeepView for StoreChatMessage {
    type V = DbWriteView;

    open spec fn deep_view(&self) -> DbWriteView {
        DbWriteView::ChatMessage { message: self.message.deep_view(), is_room: self.is_room }
    }
}

impl DeepView for StoreRoomConnection {
    type V = DbWriteView;

    open spec fn deep_view(&self) -> DbWriteView {
        DbWriteView::RoomConnection { room_id: self.room_id@, user_id: self.user_id@ }
    }
}

impl DeepView for DbWrite {
    type V = DbWriteView;

    open spec fn deep_view(&self) -> DbWriteView {
        match self {
            DbWrite::HoFEntry(write) => write.deep_view(),
            DbWrite::Room(write) => write.deep_view(),
            DbWrite::ChatMessage(write) => write.deep_view(),
            DbWrite::RoomConnection(write) => write.deep_view(),
        }
    }
}

} // verus!
