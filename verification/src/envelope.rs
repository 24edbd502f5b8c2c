//! The envelope of everything on the wire: a header that names the kind of
//! message, and the data.
use crate::chat::models::{
    copy_messages, copy_users, ChatMessage, ChatMessageView, ChatUser, ChatUserView, CreateRoom,
    CreateRoomView, Join, JoinView,
};
use crate::chat::room::{RoomData, RoomDataView};
use crate::db::{DbWrite, DbWriteView};
use crate::rps::models::{RPSData, RPSDataView};
use vstd::prelude::*;

verus! {

/// A serialised message on its way to one session.
#[derive(Debug)]
pub struct SocketMessage(pub String);

/// The data of a message.
#[derive(Debug)]
pub enum MessageData {
    String(String),
    /// A list of chat messages.
    List(Vec<ChatMessage>),
    /// A list of users.
    Users(Vec<ChatUser>),
    User(ChatUser),
    ChatMessage(ChatMessage),
    Join(Join),
    /// Everything about games.
    RPS(RPSData),
    /// Everything about rooms.
    Room(RoomData),
    CreateRoom(CreateRoom),
}

/// `MessageData` as mathematics.
pub enum MessageDataView {
    String(Seq<char>),
    List(Seq<ChatMessageView>),
    Users(Seq<ChatUserView>),
    User(ChatUserView),
    ChatMessage(ChatMessageView),
    Join(JoinView),
    RPS(RPSDataView),
    Room(RoomDataView),
    CreateRoom(CreateRoomView),
}

impl DeepView for MessageData {
    type V = MessageDataView;

    open spec fn deep_view(&self) -> MessageDataView {
        match self {
            MessageData::String(text) => MessageDataView::String(text@),
            MessageData::List(messages) => MessageDataView::List(messages.deep_view()),
            MessageData::Users(users) => MessageDataView::Users(users.deep_view()),
            MessageData::User(user) => MessageDataView::User(user.deep_view()),
            MessageData::ChatMessage(message) => MessageDataView::ChatMessage(message.deep_view()),
            MessageData::Join(join) => MessageDataView::Join(join.deep_view()),
            MessageData::RPS(data) => MessageDataView::RPS(data.deep_view()),
            MessageData::Room(data) => MessageDataView::Room(data.deep_view()),
            MessageData::CreateRoom(request) => MessageDataView::CreateRoom(request.deep_view()),
        }
    }
}

/// A message: its header and its data.
#[derive(Debug)]
pub struct ClientMessage {
    pub header: String,
    pub data: MessageData,
}

/// `ClientMessage` as mathematics.
pub struct ClientMessageView {
    pub header: Seq<char>,
    pub data: MessageDataView,
}

impl DeepView for ClientMessage {
    type V = ClientMessageView;

    open spec fn deep_view(&self) -> ClientMessageView {
        ClientMessageView { header: self.header@, data: self.data.deep_view() }
    }
}

/// A message under the given header.
pub fn generate_message(header: &str, data: MessageData) -> (message: ClientMessage)
    ensures
        message.deep_view() == (ClientMessageView { header: header@, data: data.deep_view() }),
{
    ClientMessage { header: header.to_owned(), data }
}

/// A message for the session `to`.
#[derive(Debug)]
pub struct Outbound {
    pub to: String,
    pub message: ClientMessage,
}

/// `Outbound` as mathematics.
pub struct OutboundView {
    pub to: Seq<char>,
    pub message: ClientMessageView,
}

impl DeepView for Outbound {
    type V = OutboundView;

    open spec fn deep_view(&self) -> OutboundView {
        OutboundView { to: self.to@, message: self.message.deep_view() }
    }
}

impl Clone for MessageData {
    fn clone(&self) -> (copy: Self)
        ensures
            copy.deep_view() == self.deep_view(),
    {
        match self {
            MessageData::String(text) => MessageData::String(text.clone()),
            MessageData::List(messages) => MessageData::List(copy_messages(messages)),
            MessageData::Users(users) => MessageData::Users(copy_users(users)),
            MessageData::User(user) => MessageData::User(user.clone()),
            MessageData::ChatMessage(message) => MessageData::ChatMessage(message.clone()),
            MessageData::Join(join) => MessageData::Join(join.clone()),
            MessageData::RPS(data) => MessageData::RPS(data.clone()),
            MessageData::Room(data) => MessageData::Room(data.clone()),
            MessageData::CreateRoom(request) => MessageData::CreateRoom(request.clone()),
        }
    }
}

impl Clone for ClientMessage {
    fn clone(&self) -> (copy: Self)
        ensures
            copy.deep_view() == self.deep_view(),
    {
        ClientMessage { header: self.header.clone(), data: self.data.clone() }
    }
}

/// One copy of `message` for each of `to`, in order.
pub open spec fn fan_out(to: Seq<Seq<char>>, message: ClientMessageView) -> Seq<OutboundView> {
    to.map_values(|id: Seq<char>| OutboundView { to: id, message })
}

/// Adds one copy of `message` for each of `to` to `out`.
pub fn deliver_to_all(out: &mut Vec<Outbound>, to: &Vec<String>, message: &ClientMessage)
    ensures
        final(out).deep_view() == old(out).deep_view() + fan_out(to.deep_view(), message.deep_view()),
{
    let mut i: usize = 0;
    assert(old(out).deep_view() + fan_out(to.deep_view().take(0), message.deep_view()) =~= old(out).deep_view());
    while i < to.len()
        invariant
            i <= to.len(),
            out.deep_view() == old(out).deep_view() + fan_out(to.deep_view().take(i as int), message.deep_view()),
        decreases to.len() - i,
    {
        let ghost before = out.deep_view();
        let one = Outbound { to: to[i].clone(), message: message.clone() };
        out.push(one);
        assert(out.deep_view() =~= before.push(OutboundView { to: to[i as int]@, message: message.deep_view() }));
        assert(out.deep_view() =~= old(out).deep_view() + fan_out(to.deep_view().take(i + 1), message.deep_view()));
        i += 1;
    }
    assert(to.deep_view().take(to.len() as int) =~= to.deep_view());
}

/// What a step of the router or the engine asks of the outside: messages to
/// deliver to sessions, in order, and writes to durable storage, in order.
#[derive(Debug)]
pub struct Effects {
    pub deliveries: Vec<Outbound>,
    pub writes: Vec<DbWrite>,
}

/// `Effects` as mathematics.
pub struct EffectsView {
    pub deliveries: Seq<OutboundView>,
    pub writes: Seq<DbWriteView>,
}

impl DeepView for Effects {
    type V = EffectsView;

    open spec fn deep_view(&self) -> EffectsView {
        EffectsView { deliveries: self.deliveries.deep_view(), writes: self.writes.deep_view() }
    }
}

/// No effects at all.
pub open spec fn no_effects() -> EffectsView {
    EffectsView { deliveries: Seq::empty(), writes: Seq::empty() }
}

impl Effects {
    /// No effects at all.
    pub fn none() -> (effects: Effects)
        ensures
            effects.deep_view() == no_effects(),
    {
        let deliveries: Vec<Outbound> = Vec::new();
        let writes: Vec<DbWrite> = Vec::new();
        assert(deliveries.deep_view() =~= Seq::empty());
        assert(writes.deep_view() =~= Seq::empty());
        Effects { deliveries, writes }
    }
}

} // verus!
