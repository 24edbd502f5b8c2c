//! Every text frame of a connection passes through here: the header of its
//! envelope decides where the payload goes.
use crate::chat::models::{ChatMessageView, CreateRoom, CreateRoomView, Join, JoinView, Read};
use crate::envelope::{
    generate_message, ClientMessage, ClientMessageView, MessageData, MessageDataView,
};
use crate::rps::models::{RPSData, RPSDataView};
use vstd::prelude::*;

verus! {

/// The header of the envelope that `text` holds: the string under `header` of
/// the JSON object that `text` is, if `text` is one and has one.
pub uninterp spec fn header_of(text: Seq<char>) -> Option<Seq<char>>;

/// `serde_json::from_str` to a `serde_json::Value`, then the value's index
/// `"header"` and its `as_str`: the header of the envelope, or nothing where
/// the text is no JSON or holds no string under that key.
#[verifier::external_body]
fn parse_header(text: &str) -> (header: Option<String>)
    ensures
        header.deep_view() == header_of(text@),
{
    match serde_json::from_str::<serde_json::Value>(text) {
        Ok(value) => match value["header"].as_str() {
            Some(header) => Some(header.to_string()),
            None => None,
        },
        Err(_) => None,
    }
}

/// The header of the envelope that `s` holds.
pub fn get_header(s: String) -> (header: Option<String>)
    ensures
        header.deep_view() == header_of(s@),
{
    parse_header(s.as_str())
}

/// Where the payload of an envelope goes.
#[derive(Debug, Clone, Copy, PartialEq, Eq)]
pub enum Route {
    /// A chat message for the router; nobody waits for an answer.
    ChatMessage,
    /// A join for the router; the connection waits for the messages.
    Join,
    /// A report of read messages for the router; nobody waits.
    Read,
    /// A request to open a room, for the router; nobody waits.
    CreateRoom,
    /// A request for the engine; the connection waits for the answer.
    Rps,
    /// A greeting that is answered on the spot.
    Lol,
    /// A header that nobody handles.
    Bad,
}

/// The route that a header stands for.
pub open spec fn route_of(header: Seq<char>) -> Route {
    if header == "chat_message"@ {
        Route::ChatMessage
    } else if header == "join"@ {
        Route::Join
    } else if header == "read"@ {
        Route::Read
    } else if header == "create_room"@ {
        Route::CreateRoom
    } else if header == "rps"@ {
        Route::Rps
    } else if header == "lol"@ {
        Route::Lol
    } else {
        Route::Bad
    }
}

/// Is `header` the text `name`?
fn is_header(header: &String, name: &str) -> (same: bool)
    ensures
        same == (header@ == name@),
{
    *header == name.to_owned()
}

/// The route that a header stands for.
pub fn route(header: &String) -> (to: Route)
    ensures
        to == route_of(header@),
{
    if is_header(header, "chat_message") {
        Route::ChatMessage
    } else if is_header(header, "join") {
        Route::Join
    } else if is_header(header, "read") {
        Route::Read
    } else if is_header(header, "create_room") {
        Route::CreateRoom
    } else if is_header(header, "rps") {
        Route::Rps
    } else if is_header(header, "lol") {
        Route::Lol
    } else {
        Route::Bad
    }
}

/// What a payload asks for, once its route is known.
#[derive(Debug)]
pub enum Request {
    /// Hand the message to the router and go on.
    Chat(ClientMessage),
    /// Ask the router and wait for the messages.
    Join(Join),
    /// Hand the report to the router and go on.
    Read(Read),
    /// Hand the request to the router and go on.
    CreateRoom(CreateRoom),
    /// Ask the engine and wait for the answer.
    Rps(RPSData),
    /// The payload does not fit its header: nothing to do.
    Nothing,
}

/// `Request` as mathematics.
pub enum RequestView {
    Chat(ClientMessageView),
    Join(JoinView),
    Read(Seq<ChatMessageView>),
    CreateRoom(CreateRoomView),
    Rps(RPSDataView),
    Nothing,
}

impl DeepView for Request {
    type V = RequestView;

    open spec fn deep_view(&self) -> RequestView {
        match self {
            Request::Chat(message) => RequestView::Chat(message.deep_view()),
            Request::Join(join) => RequestView::Join(join.deep_view()),
            Request::Read(read) => RequestView::Read(read.deep_view()),
            Request::CreateRoom(request) => RequestView::CreateRoom(request.deep_view()),
            Request::Rps(data) => RequestView::Rps(data.deep_view()),
            Request::Nothing => RequestView::Nothing,
        }
    }
}

/// What a payload asks for on a route: the payload must be of the kind that
/// the route carries, or nothing happens.
pub open spec fn request_of(to: Route, data: MessageDataView) -> RequestView {
    match (to, data) {
        (Route::ChatMessage, MessageDataView::ChatMessage(message)) => RequestView::Chat(
            ClientMessageView { header: "chat_message"@, data },
        ),
        (Route::Join, MessageDataView::Join(join)) => RequestView::Join(join),
        (Route::Read, MessageDataView::List(messages)) => RequestView::Read(messages),
        (Route::CreateRoom, MessageDataView::CreateRoom(request)) => RequestView::CreateRoom(request),
        (Route::Rps, MessageDataView::RPS(rps)) => RequestView::Rps(rps),
        _ => RequestView::Nothing,
    }
}

/// Turns a parsed payload into the request that its route carries.
pub fn handle(to: Route, data: MessageData) -> (request: Request)
    ensures
        request.deep_view() == request_of(to, data.deep_view()),
{
    match to {
        Route::ChatMessage => match data {
            MessageData::ChatMessage(message) => Request::Chat(
                generate_message("chat_message", MessageData::ChatMessage(message)),
            ),
            _ => Request::Nothing,
        },
        Route::Join => match data {
            MessageData::Join(join) => Request::Join(join),
            _ => Request::Nothing,
        },
        Route::Read => match data {
            MessageData::List(messages) => Request::Read(Read { messages }),
            _ => Request::Nothing,
        },
        Route::CreateRoom => match data {
            MessageData::CreateRoom(request) => Request::CreateRoom(request),
            _ => Request::Nothing,
        },
        Route::Rps => match data {
            MessageData::RPS(rps) => Request::Rps(rps),
            _ => Request::Nothing,
        },
        _ => Request::Nothing,
    }
}

} // verus!
