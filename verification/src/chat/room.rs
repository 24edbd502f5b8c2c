//! Public rooms: a name, the members and the room's own message list.
use crate::chat::models::{copy_ids, copy_messages, ChatMessage, ChatMessageView};
use crate::ids::{contains_id, insert_id, remove_id, with_id, without_id};
use vstd::prelude::*;

verus! {

/// A public room. Members are kept in the order in which they joined, each
/// once.
#[derive(Debug)]
pub struct PublicRoom {
    pub id: String,
    pub name: String,
    pub users: Vec<String>,
    pub messages: Vec<ChatMessage>,
}

/// `PublicRoom` as mathematics.
pub struct PublicRoomView {
    pub id: Seq<char>,
    pub name: Seq<char>,
    pub users: Seq<Seq<char>>,
    pub messages: Seq<ChatMessageView>,
}

impl DeepView for PublicRoom {
    type V = PublicRoomView;

    open spec fn deep_view(&self) -> PublicRoomView {
        PublicRoomView {
            id: self.id@,
            name: self.name@,
            users: self.users.deep_view(),
            messages: self.messages.deep_view(),
        }
    }
}

impl Clone for PublicRoom {
    fn clone(&self) -> (copy: Self)
        ensures
            copy.deep_view() == self.deep_view(),
    {
        PublicRoom {
            id: self.id.clone(),
            name: self.name.clone(),
            users: copy_ids(&self.users),
            messages: copy_messages(&self.messages),
        }
    }
}

impl PublicRoom {
    /// A new room with `user_id` as its only member and no messages.
    pub fn new_insert(id: &str, user_id: &str, name: &str) -> (room: PublicRoom)
        ensures
            room.deep_view() == (PublicRoomView {
                id: id@,
                name: name@,
                users: seq![user_id@],
                messages: Seq::empty(),
            }),
    {
        let mut users: Vec<String> = Vec::new();
        users.push(user_id.to_owned());
        let messages: Vec<ChatMessage> = Vec::new();
        assert(users.deep_view() =~= seq![user_id@]);
        assert(messages.deep_view() =~= Seq::empty());
        PublicRoom { id: id.to_owned(), name: name.to_owned(), users, messages }
    }

    /// The room's whole message list.
    pub fn get_messages(&self) -> (messages: Vec<ChatMessage>)
        ensures
            messages.deep_view() == self.deep_view().messages,
    {
        copy_messages(&self.messages)
    }

    /// The room's members.
    pub fn get_user_ids(&self) -> (users: Vec<String>)
        ensures
            users.deep_view() == self.deep_view().users,
    {
        copy_ids(&self.users)
    }

    /// Makes `id` a member, if it is none yet.
    pub fn set_user(&mut self, id: &str)
        ensures
            final(self).deep_view() == (PublicRoomView {
                users: with_id(old(self).deep_view().users, id@),
                ..old(self).deep_view()
            }),
    {
        let user = id.to_owned();
        insert_id(&mut self.users, &user);
    }

    /// Takes `id` out of the members.
    pub fn remove_user(&mut self, id: &str)
        ensures
            final(self).deep_view() == (PublicRoomView {
                users: without_id(old(self).deep_view().users, id@),
                ..old(self).deep_view()
            }),
    {
        let user = id.to_owned();
        remove_id(&mut self.users, &user);
    }

    /// Is `id` a member?
    pub fn has_user(&self, id: &str) -> (member: bool)
        ensures
            member == self.deep_view().users.contains(id@),
    {
        let user = id.to_owned();
        contains_id(&self.users, &user)
    }

    /// Appends a message to the room's list.
    pub fn store_message(&mut self, message: ChatMessage)
        ensures
            final(self).deep_view() == (PublicRoomView {
                messages: old(self).deep_view().messages.push(message.deep_view()),
                ..old(self).deep_view()
            }),
    {
        self.messages.push(message);
        assert(self.messages.deep_view() =~= old(self).messages.deep_view().push(message.deep_view()));
    }
}

/// What the router tells clients about rooms.
#[derive(Debug)]
pub enum RoomData {
    Message(ChatMessage),
    Room(PublicRoom),
    Rooms(Vec<PublicRoom>),
    /// The session (first) that joined the room (second).
    Joined((String, String)),
}

/// `RoomData` as mathematics.
pub enum RoomDataView {
    Message(ChatMessageView),
    Room(PublicRoomView),
    Rooms(Seq<PublicRoomView>),
    Joined((Seq<char>, Seq<char>)),
}

impl DeepView for RoomData {
    type V = RoomDataView;

    open spec fn deep_view(&self) -> RoomDataView {
        match self {
            RoomData::Message(message) => RoomDataView::Message(message.deep_view()),
            RoomData::Room(room) => RoomDataView::Room(room.deep_view()),
            RoomData::Rooms(rooms) => RoomDataView::Rooms(rooms.deep_view()),
            RoomData::Joined(pair) => RoomDataView::Joined((pair.0@, pair.1@)),
        }
    }
}

/// A copy of a list of rooms.
pub fn copy_rooms(rooms: &Vec<PublicRoom>) -> (copy: Vec<PublicRoom>)
    ensures
        copy.deep_view() == rooms.deep_view(),
{
    let mut copy: Vec<PublicRoom> = Vec::new();
    let mut i: usize = 0;
    while i < rooms.len()
        invariant
            i <= rooms.len(),
            copy.deep_view() == rooms.deep_view().take(i as int),
        decreases rooms.len() - i,
    {
        let ghost before = copy.deep_view();
        let item = rooms[i].clone();
        copy.push(item);
        assert(copy.deep_view() =~= before.push(rooms.deep_view()[i as int]));
        assert(copy.deep_view() =~= rooms.deep_view().take(i + 1));
        i += 1;
    }
    assert(rooms.deep_view().take(rooms.len() as int) =~= rooms.deep_view());
    copy
}

impl Clone for RoomData {
    fn clone(&self) -> (copy: Self)
        ensures
            copy.deep_view() == self.deep_view(),
    {
        match self {
            RoomData::Message(message) => RoomData::Message(message.clone()),
            RoomData::Room(room) => RoomData::Room(room.clone()),
            RoomData::Rooms(rooms) => RoomData::Rooms(copy_rooms(rooms)),
            RoomData::Joined(pair) => RoomData::Joined((pair.0.clone(), pair.1.clone())),
        }
    }
}

} // verus!
