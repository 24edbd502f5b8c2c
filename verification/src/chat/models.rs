//! The records that the router stores and exchanges.
use vstd::prelude::*;

verus! {

/// A user as the router knows it.
#[derive(Debug)]
pub struct ChatUser {
    pub id: String,
    pub username: String,
    pub connected: bool,
}

/// `ChatUser` as mathematics.
pub struct ChatUserView {
    pub id: Seq<char>,
    pub username: Seq<char>,
    pub connected: bool,
}

impl DeepView for ChatUser {
    type V = ChatUserView;

    open spec fn deep_view(&self) -> ChatUserView {
        ChatUserView { id: self.id@, username: self.username@, connected: self.connected }
    }
}

impl Clone for ChatUser {
    fn clone(&self) -> (copy: Self)
        ensures
            copy.deep_view() == self.deep_view(),
    {
        ChatUser { id: self.id.clone(), username: self.username.clone(), connected: self.connected }
    }
}

/// A chat message: stored in the log, sent to clients and written to durable
/// storage. Everything but `read` is fixed once the message exists.
#[derive(Debug)]
pub struct ChatMessage {
    pub id: String,
    /// The session of the sender.
    pub sender_id: String,
    /// The session of the receiver, or a room.
    pub receiver_id: String,
    pub content: String,
    /// Whether the receiver has read the message.
    pub read: bool,
}

/// `ChatMessage` as mathematics.
pub struct ChatMessageView {
    pub id: Seq<char>,
    pub sender_id: Seq<char>,
    pub receiver_id: Seq<char>,
    pub content: Seq<char>,
    pub read: bool,
}

impl DeepView for ChatMessage {
    type V = ChatMessageView;

    open spec fn deep_view(&self) -> ChatMessageView {
        ChatMessageView {
            id: self.id@,
            sender_id: self.sender_id@,
            receiver_id: self.receiver_id@,
            content: self.content@,
            read: self.read,
        }
    }
}

impl Clone for ChatMessage {
    fn clone(&self) -> (copy: Self)
        ensures
            copy.deep_view() == self.deep_view(),
    {
        ChatMessage {
            id: self.id.clone(),
            sender_id: self.sender_id.clone(),
            receiver_id: self.receiver_id.clone(),
            content: self.content.clone(),
            read: self.read,
        }
    }
}

/// A copy of a list of messages.
pub fn copy_messages(messages: &Vec<ChatMessage>) -> (copy: Vec<ChatMessage>)
    ensures
        copy.deep_view() == messages.deep_view(),
{
    let mut copy: Vec<ChatMessage> = Vec::new();
    let mut i: usize = 0;
    while i < messages.len()
        invariant
            i <= messages.len(),
            copy.deep_view() == messages.deep_view().take(i as int),
        decreases messages.len() - i,
    {
        let ghost before = copy.deep_view();
        let item = messages[i].clone();
        copy.push(item);
        assert(copy.deep_view() =~= before.push(messages.deep_view()[i as int]));
        assert(copy.deep_view() =~= messages.deep_view().take(i + 1));
        i += 1;
    }
    assert(messages.deep_view().take(messages.len() as int) =~= messages.deep_view());
    copy
}

/// A copy of a list of identifiers.
pub fn copy_ids(ids: &Vec<String>) -> (copy: Vec<String>)
    ensures
        copy.deep_view() == ids.deep_view(),
{
    let mut copy: Vec<String> = Vec::new();
    let mut i: usize = 0;
    while i < ids.len()
        invariant
            i <= ids.len(),
            copy.deep_view() == ids.deep_view().take(i as int),
        decreases ids.len() - i,
    {
        let ghost before = copy.deep_view();
        let item = ids[i].clone();
        copy.push(item);
        assert(copy.deep_view() =~= before.push(ids.deep_view()[i as int]));
        assert(copy.deep_view() =~= ids.deep_view().take(i + 1));
        i += 1;
    }
    assert(ids.deep_view().take(ids.len() as int) =~= ids.deep_view());
    copy
}

/// A copy of a list of users.
pub fn copy_users(users: &Vec<ChatUser>) -> (copy: Vec<ChatUser>)
    ensures
        copy.deep_view() == users.deep_view(),
{
    let mut copy: Vec<ChatUser> = Vec::new();
    let mut i: usize = 0;
    while i < users.len()
        invariant
            i <= users.len(),
            copy.deep_view() == users.deep_view().take(i as int),
        decreases users.len() - i,
    {
        let ghost before = copy.deep_view();
        let item = users[i].clone();
        copy.push(item);
        assert(copy.deep_view() =~= before.push(users.deep_view()[i as int]));
        assert(copy.deep_view() =~= users.deep_view().take(i + 1));
        i += 1;
    }
    assert(users.deep_view().take(users.len() as int) =~= users.deep_view());
    copy
}

/// A request to point the session `id` at the user or room `room_id`.
#[derive(Debug)]
pub struct Join {
    pub id: String,
    pub room_id: String,
}

/// `Join` as mathematics.
pub struct JoinView {
    pub id: Seq<char>,
    pub room_id: Seq<char>,
}

impl DeepView for Join {
    type V = JoinView;

    open spec fn deep_view(&self) -> JoinView {
        JoinView { id: self.id@, room_id: self.room_id@ }
    }
}

impl Clone for Join {
    fn clone(&self) -> (copy: Self)
        ensures
            copy.deep_view() == self.deep_view(),
    {
        Join { id: self.id.clone(), room_id: self.room_id.clone() }
    }
}

/// The messages that a client reports as read.
#[derive(Debug)]
pub struct Read {
    pub messages: Vec<ChatMessage>,
}

impl DeepView for Read {
    type V = Seq<ChatMessageView>;

    open spec fn deep_view(&self) -> Seq<ChatMessageView> {
        self.messages.deep_view()
    }
}

impl Clone for Read {
    fn clone(&self) -> (copy: Self)
        ensures
            copy.deep_view() == self.deep_view(),
    {
        Read { messages: copy_messages(&self.messages) }
    }
}

/// A request to open a public room.
#[derive(Debug)]
pub struct CreateRoom {
    pub sender_id: String,
    pub name: String,
}

/// `CreateRoom` as mathematics.
pub struct CreateRoomView {
    pub sender_id: Seq<char>,
    pub name: Seq<char>,
}

impl DeepView for CreateRoom {
    type V = CreateRoomView;

    open spec fn deep_view(&self) -> CreateRoomView {
        CreateRoomView { sender_id: self.sender_id@, name: self.name@ }
    }
}

impl Clone for CreateRoom {
    fn clone(&self) -> (copy: Self)
        ensures
            copy.deep_view() == self.deep_view(),
    {
        CreateRoom { sender_id: self.sender_id.clone(), name: self.name.clone() }
    }
}

} // verus!
