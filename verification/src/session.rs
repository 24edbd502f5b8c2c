//! The supervisor of one connection: it announces the connection, watches the
//! heartbeat, reads frames and says where each goes. It decides; whoever runs
//! it carries its commands out and comes back with what happened.
use crate::chat::models::{
    ChatMessage, ChatMessageView, ChatUser, ChatUserView, CreateRoom, CreateRoomView,
    Join, JoinView, Read,
};
use crate::connection::{Connect, Disconnect};
use crate::envelope::{
    generate_message, ClientMessage, ClientMessageView, MessageData, MessageDataView,
};
use crate::ez_handler::{get_header, handle, header_of, request_of, route, route_of, Request, RequestView, Route};
use crate::rps::models::{RPSData, RPSDataView, RPSError};
use vstd::prelude::*;

verus! {

/// Time between two checks of the heartbeat, in seconds.
pub const HEARTBEAT_INTERVAL: u64 = 5;

/// Time without a sign of life after which a client is given up, in seconds.
pub const CLIENT_TIMEOUT: u64 = 10;

/// Why a connection is closed.
#[derive(Debug)]
pub struct CloseReason {
    pub code: u16,
    pub description: Option<String>,
}

/// `CloseReason` as mathematics.
pub struct CloseReasonView {
    pub code: u16,
    pub description: Option<Seq<char>>,
}

impl DeepView for CloseReason {
    type V = CloseReasonView;

    open spec fn deep_view(&self) -> CloseReasonView {
        CloseReasonView { code: self.code, description: self.description.deep_view() }
    }
}

/// A frame as it comes off the connection.
#[derive(Debug)]
pub enum WsFrame {
    Ping(Vec<u8>),
    Pong(Vec<u8>),
    Text(String),
    Binary(Vec<u8>),
    Close(Option<CloseReason>),
    Continuation,
    Nop,
}

/// `WsFrame` as mathematics.
pub enum WsFrameView {
    Ping(Seq<u8>),
    Pong(Seq<u8>),
    Text(Seq<char>),
    Binary(Seq<u8>),
    Close(Option<CloseReasonView>),
    Continuation,
    Nop,
}

impl DeepView for WsFrame {
    type V = WsFrameView;

    open spec fn deep_view(&self) -> WsFrameView {
        match self {
            WsFrame::Ping(bytes) => WsFrameView::Ping(bytes@),
            WsFrame::Pong(bytes) => WsFrameView::Pong(bytes@),
            WsFrame::Text(text) => WsFrameView::Text(text@),
            WsFrame::Binary(bytes) => WsFrameView::Binary(bytes@),
            WsFrame::Close(reason) => WsFrameView::Close(reason.deep_view()),
            WsFrame::Continuation => WsFrameView::Continuation,
            WsFrame::Nop => WsFrameView::Nop,
        }
    }
}

/// What the supervisor wants done.
#[derive(Debug)]
pub enum Command {
    /// Announce the connection to the router and to the engine.
    Connect(Connect),
    /// Announce to the router that the connection is gone.
    Disconnect(Disconnect),
    /// Probe the client.
    Ping,
    /// Answer a probe of the client with the bytes it sent.
    Pong(Vec<u8>),
    /// Write a message to the client.
    Text(ClientMessage),
    /// Close the connection.
    Close(Option<CloseReason>),
    /// Stop supervising.
    Stop,
    /// Parse the payload of the text as the route says and come back with it.
    Parse(Route, String),
    /// Hand a message to the router and go on.
    Chat(ClientMessage),
    /// Ask the router, wait, and come back with the messages.
    Join(Join),
    /// Hand a report of read messages to the router and go on.
    Read(Read),
    /// Hand a request to open a room to the router and go on.
    CreateRoom(CreateRoom),
    /// Ask the engine, wait, and come back with the answer.
    Rps(RPSData),
}

/// `Command` as mathematics.
pub enum CommandView {
    Connect(ChatUserView),
    Disconnect(Seq<char>),
    Ping,
    Pong(Seq<u8>),
    Text(ClientMessageView),
    Close(Option<CloseReasonView>),
    Stop,
    Parse(Route, Seq<char>),
    Chat(ClientMessageView),
    Join(JoinView),
    Read(Seq<ChatMessageView>),
    CreateRoom(CreateRoomView),
    Rps(RPSDataView),
}

impl DeepView for Command {
    type V = CommandView;

    open spec fn deep_view(&self) -> CommandView {
        match self {
            Command::Connect(connect) => CommandView::Connect(connect.deep_view()),
            Command::Disconnect(disconnect) => CommandView::Disconnect(disconnect.deep_view()),
            Command::Ping => CommandView::Ping,
            Command::Pong(bytes) => CommandView::Pong(bytes@),
            Command::Text(message) => CommandView::Text(message.deep_view()),
            Command::Close(reason) => CommandView::Close(reason.deep_view()),
            Command::Stop => CommandView::Stop,
            Command::Parse(to, text) => CommandView::Parse(*to, text@),
            Command::Chat(message) => CommandView::Chat(message.deep_view()),
            Command::Join(join) => CommandView::Join(join.deep_view()),
            Command::Read(read) => CommandView::Read(read.deep_view()),
            Command::CreateRoom(request) => CommandView::CreateRoom(request.deep_view()),
            Command::Rps(data) => CommandView::Rps(data.deep_view()),
        }
    }
}

/// The supervisor of one connection, made for a user whose identity has been
/// established already.
#[derive(Debug)]
pub struct WsChatSession {
    /// The session's identifier: the user's.
    pub id: String,
    pub username: String,
    /// The room that the session starts in: the user's own.
    pub room: String,
    /// When the client last gave a sign of life, in seconds.
    pub heartbeat: u64,
    /// Whether the router has been told that the connection is gone.
    pub gone: bool,
}

/// `WsChatSession` as mathematics.
pub struct SessionView {
    pub id: Seq<char>,
    pub username: Seq<char>,
    pub room: Seq<char>,
    pub heartbeat: u64,
    pub gone: bool,
}

impl DeepView for WsChatSession {
    type V = SessionView;

    open spec fn deep_view(&self) -> SessionView {
        SessionView {
            id: self.id@,
            username: self.username@,
            room: self.room@,
            heartbeat: self.heartbeat,
            gone: self.gone,
        }
    }
}

/// How many of the commands announce a disconnect.
pub open spec fn disconnects(commands: Seq<CommandView>) -> nat
    decreases commands.len(),
{
    if commands.len() == 0 {
        0
    } else {
        disconnects(commands.drop_last()) + if commands.last() is Disconnect {
            1nat
        } else {
            0nat
        }
    }
}

impl SessionView {
    /// The commands that end the supervision: tell the router, then stop.
    pub open spec fn farewell(self) -> Seq<CommandView> {
        seq![CommandView::Disconnect(self.id), CommandView::Stop]
    }

    /// The connection is given up: the router is told, unless it has been told
    /// before, and the supervision stops.
    pub open spec fn dropped(self) -> (SessionView, Seq<CommandView>) {
        if self.gone {
            (self, Seq::empty())
        } else {
            (SessionView { gone: true, ..self }, self.farewell())
        }
    }

    /// The supervision starts: the connection is announced.
    pub open spec fn started(self) -> (SessionView, Seq<CommandView>) {
        if self.gone {
            (self, Seq::empty())
        } else {
            (
                self,
                seq![
                    CommandView::Connect(
                        ChatUserView { id: self.id, username: self.username, connected: true },
                    ),
                ],
            )
        }
    }

    /// The seconds since the last sign of life at the time `now`.
    pub open spec fn silence(self, now: u64) -> int {
        if now >= self.heartbeat {
            now - self.heartbeat
        } else {
            0
        }
    }

    /// The heartbeat is checked at the time `now`: a client that has been
    /// silent for longer than the timeout is given up, any other is probed.
    pub open spec fn beat(self, now: u64) -> (SessionView, Seq<CommandView>) {
        if self.gone {
            (self, Seq::empty())
        } else if self.silence(now) > CLIENT_TIMEOUT {
            self.dropped()
        } else {
            (self, seq![CommandView::Ping])
        }
    }

    /// A text frame has come whose envelope has the header `header`. Without a
    /// header the envelope is malformed and the connection is given up. The
    /// greeting is answered on the spot, an unknown header is ignored, and
    /// for every other header the payload is to be parsed.
    pub open spec fn texted(self, header: Option<Seq<char>>, text: Seq<char>) -> (
        SessionView,
        Seq<CommandView>,
    ) {
        if self.gone {
            (self, Seq::empty())
        } else {
            match header {
                None => self.dropped(),
                Some(name) => match route_of(name) {
                    Route::Bad => (self, Seq::empty()),
                    Route::Lol => (
                        self,
                        seq![
                            CommandView::Text(
                                ClientMessageView { header: "lel"@, data: MessageDataView::String("lel"@) },
                            ),
                        ],
                    ),
                    to => (self, seq![CommandView::Parse(to, text)]),
                },
            }
        }
    }

    /// A frame has come at the time `now`, or reading one has failed.
    pub open spec fn framed(self, frame: Result<WsFrameView, ()>, now: u64) -> (
        SessionView,
        Seq<CommandView>,
    ) {
        if self.gone {
            (self, Seq::empty())
        } else {
            match frame {
                Err(_) => self.dropped(),
                Ok(WsFrameView::Ping(bytes)) => (
                    SessionView { heartbeat: now, ..self },
                    seq![CommandView::Pong(bytes)],
                ),
                Ok(WsFrameView::Pong(_)) => (SessionView { heartbeat: now, ..self }, Seq::empty()),
                Ok(WsFrameView::Text(text)) => self.texted(header_of(text), text),
                Ok(WsFrameView::Binary(_)) => (self, Seq::empty()),
                Ok(WsFrameView::Close(reason)) => (
                    SessionView { gone: true, ..self },
                    seq![CommandView::Close(reason)] + self.farewell(),
                ),
                Ok(WsFrameView::Continuation) => self.dropped(),
                Ok(WsFrameView::Nop) => (self, Seq::empty()),
            }
        }
    }

    /// The parsed payload of a text frame is there: the request that it stands
    /// for is passed on.
    pub open spec fn dispatched(self, to: Route, data: MessageDataView) -> (
        SessionView,
        Seq<CommandView>,
    ) {
        if self.gone {
            (self, Seq::empty())
        } else {
            match request_of(to, data) {
                RequestView::Chat(message) => (self, seq![CommandView::Chat(message)]),
                RequestView::Join(join) => (self, seq![CommandView::Join(join)]),
                RequestView::Read(messages) => (self, seq![CommandView::Read(messages)]),
                RequestView::CreateRoom(request) => (self, seq![CommandView::CreateRoom(request)]),
                RequestView::Rps(rps) => (self, seq![CommandView::Rps(rps)]),
                RequestView::Nothing => (self, Seq::empty()),
            }
        }
    }

    /// The router has answered a join: the messages are written to the client,
    /// if there are any.
    pub open spec fn join_answered(self, messages: Seq<ChatMessageView>) -> (
        SessionView,
        Seq<CommandView>,
    ) {
        if self.gone || messages.len() == 0 {
            (self, Seq::empty())
        } else {
            (
                self,
                seq![
                    CommandView::Text(
                        ClientMessageView { header: "read"@, data: MessageDataView::List(messages) },
                    ),
                ],
            )
        }
    }

    /// The engine has answered: its answer is written to the client; its
    /// refusal ends the connection.
    pub open spec fn rps_answered(self, answer: Result<RPSDataView, Seq<char>>) -> (
        SessionView,
        Seq<CommandView>,
    ) {
        if self.gone {
            (self, Seq::empty())
        } else {
            match answer {
                Ok(data) => (
                    self,
                    seq![
                        CommandView::Text(
                            ClientMessageView { header: "rps"@, data: MessageDataView::RPS(data) },
                        ),
                    ],
                ),
                Err(_) => self.dropped(),
            }
        }
    }
}

/// What can happen to a supervisor.
pub enum SessionEvent {
    Started,
    /// The heartbeat is checked at a time.
    Tick(u64),
    /// A frame came at a time, or reading one failed.
    Frame(Result<WsFrameView, ()>, u64),
    /// The parsed payload of a text frame is there.
    Payload(Route, MessageDataView),
    JoinAnswer(Seq<ChatMessageView>),
    RpsAnswer(Result<RPSDataView, Seq<char>>),
    Stopping,
}

/// The supervisor after an event, and what it wants done.
pub open spec fn react(s: SessionView, event: SessionEvent) -> (SessionView, Seq<CommandView>) {
    match event {
        SessionEvent::Started => s.started(),
        SessionEvent::Tick(now) => s.beat(now),
        SessionEvent::Frame(frame, now) => s.framed(frame, now),
        SessionEvent::Payload(to, data) => s.dispatched(to, data),
        SessionEvent::JoinAnswer(messages) => s.join_answered(messages),
        SessionEvent::RpsAnswer(answer) => s.rps_answered(answer),
        SessionEvent::Stopping => s.dropped(),
    }
}

/// All commands of a run of events, in order.
pub open spec fn commands_of(s: SessionView, events: Seq<SessionEvent>) -> Seq<CommandView>
    decreases events.len(),
{
    if events.len() == 0 {
        Seq::empty()
    } else {
        commands_of(s, events.drop_last()) + react(state_after(s, events.drop_last()), events.last()).1
    }
}

/// The supervisor after a run of events.
pub open spec fn state_after(s: SessionView, events: Seq<SessionEvent>) -> SessionView
    decreases events.len(),
{
    if events.len() == 0 {
        s
    } else {
        react(state_after(s, events.drop_last()), events.last()).0
    }
}

/// Counting disconnects adds up over the parts of a list of commands.
pub proof fn lemma_disconnects_add(a: Seq<CommandView>, b: Seq<CommandView>)
    ensures
        disconnects(a + b) == disconnects(a) + disconnects(b),
    decreases b.len(),
{
    if b.len() == 0 {
        assert(a + b =~= a);
    } else {
        lemma_disconnects_add(a, b.drop_last());
        assert((a + b).drop_last() =~= a + b.drop_last());
        assert((a + b).last() == b.last());
    }
}

/// One event announces the disconnect exactly when it is the one that gives
/// the connection up; a connection that was given up stays so and is silent.
pub proof fn lemma_react_disconnects(s: SessionView, event: SessionEvent)
    ensures
        s.gone ==> react(s, event) == (s, Seq::<CommandView>::empty()),
        disconnects(react(s, event).1) == if !s.gone && react(s, event).0.gone {
            1nat
        } else {
            0nat
        },
{
    let out = react(s, event).1;
    let farewell = s.farewell();
    assert(disconnects(Seq::<CommandView>::empty()) == 0);
    assert(disconnects(farewell) == 1) by {
        assert(farewell.drop_last() =~= seq![CommandView::Disconnect(s.id)]);
        assert(farewell.drop_last().drop_last() =~= Seq::<CommandView>::empty());
        reveal_with_fuel(disconnects, 3);
    }
    if out.len() == 1 {
        assert(out.drop_last() =~= Seq::<CommandView>::empty());
        reveal_with_fuel(disconnects, 2);
    }
    match event {
        SessionEvent::Frame(Ok(WsFrameView::Close(reason)), now) => {
            if !s.gone {
                lemma_disconnects_add(seq![CommandView::Close(reason)], farewell);
                assert(seq![CommandView::Close(reason)].drop_last() =~= Seq::<CommandView>::empty());
                reveal_with_fuel(disconnects, 2);
            }
        },
        _ => {},
    }
}

/// The disconnect is announced exactly once: over any run of events from a
/// live connection, the router is told once if the connection was given up
/// during the run, and not at all if it was not.
pub proof fn disconnect_is_announced_once(s: SessionView, events: Seq<SessionEvent>)
    requires
        !s.gone,
    ensures
        disconnects(commands_of(s, events)) == if state_after(s, events).gone {
            1nat
        } else {
            0nat
        },
    decreases events.len(),
{
    if events.len() > 0 {
        disconnect_is_announced_once(s, events.drop_last());
        let before = state_after(s, events.drop_last());
        lemma_react_disconnects(before, events.last());
        lemma_disconnects_add(commands_of(s, events.drop_last()), react(before, events.last()).1);
    }
}

/// No commands.
fn no_commands() -> (commands: Vec<Command>)
    ensures
        commands.deep_view() == Seq::<CommandView>::empty(),
{
    let commands: Vec<Command> = Vec::new();
    assert(commands.deep_view() =~= Seq::empty());
    commands
}

/// One command.
fn one_command(command: Command) -> (commands: Vec<Command>)
    ensures
        commands.deep_view() == seq![command.deep_view()],
{
    let mut commands: Vec<Command> = Vec::new();
    commands.push(command);
    assert(commands.deep_view() =~= seq![command.deep_view()]);
    commands
}

impl WsChatSession {
    /// The supervisor of a connection of the user `id`, seen alive at `now`.
    pub fn new(id: String, username: String, now: u64) -> (session: WsChatSession)
        ensures
            session.deep_view() == (SessionView {
                id: id@,
                username: username@,
                room: id@,
                heartbeat: now,
                gone: false,
            }),
    {
        let room = id.clone();
        WsChatSession { id, username, room, heartbeat: now, gone: false }
    }

    /// Gives the connection up.
    pub fn stopping(&mut self) -> (commands: Vec<Command>)
        ensures
            (final(self).deep_view(), commands.deep_view()) == old(self).deep_view().dropped(),
    {
        if self.gone {
            no_commands()
        } else {
            self.gone = true;
            let mut commands: Vec<Command> = Vec::new();
            commands.push(Command::Disconnect(Disconnect { session_id: self.id.clone() }));
            commands.push(Command::Stop);
            assert(commands.deep_view() =~= old(self).deep_view().farewell());
            commands
        }
    }

    /// Starts the supervision.
    pub fn started(&mut self) -> (commands: Vec<Command>)
        ensures
            (final(self).deep_view(), commands.deep_view()) == old(self).deep_view().started(),
    {
        if self.gone {
            no_commands()
        } else {
            let user = ChatUser { id: self.id.clone(), username: self.username.clone(), connected: true };
            one_command(Command::Connect(Connect { user }))
        }
    }

    /// Checks the heartbeat at the time `now`.
    pub fn hb(&mut self, now: u64) -> (commands: Vec<Command>)
        ensures
            (final(self).deep_view(), commands.deep_view()) == old(self).deep_view().beat(now),
    {
        if self.gone {
            no_commands()
        } else if now >= self.heartbeat && now - self.heartbeat > CLIENT_TIMEOUT {
            self.stopping()
        } else {
            one_command(Command::Ping)
        }
    }

    /// Takes a text frame whose header has been read.
    pub fn on_text(&mut self, header: Option<String>, text: String) -> (commands: Vec<Command>)
        ensures
            (final(self).deep_view(), commands.deep_view()) == old(self).deep_view().texted(
                header.deep_view(),
                text@,
            ),
    {
        if self.gone {
            return no_commands();
        }
        match header {
            None => self.stopping(),
            Some(name) => {
                let to = route(&name);
                match to {
                    Route::Bad => no_commands(),
                    Route::Lol => {
                        let lel = generate_message("lel", MessageData::String("lel".to_owned()));
                        one_command(Command::Text(lel))
                    },
                    _ => one_command(Command::Parse(to, text)),
                }
            },
        }
    }

    /// Takes a frame that came at the time `now`, or the failure to read one.
    pub fn handle(&mut self, msg: Result<WsFrame, ()>, now: u64) -> (commands: Vec<Command>)
        ensures
            (final(self).deep_view(), commands.deep_view()) == old(self).deep_view().framed(
                match msg {
                    Ok(frame) => Ok(frame.deep_view()),
                    Err(error) => Err(error),
                },
                now,
            ),
    {
        if self.gone {
            return no_commands();
        }
        match msg {
            Err(_) => self.stopping(),
            Ok(WsFrame::Ping(bytes)) => {
                self.heartbeat = now;
                one_command(Command::Pong(bytes))
            },
            Ok(WsFrame::Pong(_)) => {
                self.heartbeat = now;
                no_commands()
            },
            Ok(WsFrame::Text(text)) => {
                let header = get_header(text.clone());
                self.on_text(header, text)
            },
            Ok(WsFrame::Binary(_)) => no_commands(),
            Ok(WsFrame::Close(reason)) => {
                self.gone = true;
                let mut commands: Vec<Command> = Vec::new();
                commands.push(Command::Close(reason));
                commands.push(Command::Disconnect(Disconnect { session_id: self.id.clone() }));
                commands.push(Command::Stop);
                assert(commands.deep_view() =~= seq![CommandView::Close(reason.deep_view())] + old(
                    self,
                ).deep_view().farewell());
                commands
            },
            Ok(WsFrame::Continuation) => self.stopping(),
            Ok(WsFrame::Nop) => no_commands(),
        }
    }

    /// Takes the parsed payload of a text frame.
    pub fn dispatch(&mut self, to: Route, data: MessageData) -> (commands: Vec<Command>)
        ensures
            (final(self).deep_view(), commands.deep_view()) == old(self).deep_view().dispatched(
                to,
                data.deep_view(),
            ),
    {
        if self.gone {
            return no_commands();
        }
        match handle(to, data) {
            Request::Chat(message) => one_command(Command::Chat(message)),
            Request::Join(join) => one_command(Command::Join(join)),
            Request::Read(read) => one_command(Command::Read(read)),
            Request::CreateRoom(request) => one_command(Command::CreateRoom(request)),
            Request::Rps(rps) => one_command(Command::Rps(rps)),
            Request::Nothing => no_commands(),
        }
    }

    /// Takes the router's answer to a join.
    pub fn join_reply(&mut self, messages: Vec<ChatMessage>) -> (commands: Vec<Command>)
        ensures
            (final(self).deep_view(), commands.deep_view()) == old(self).deep_view().join_answered(
                messages.deep_view(),
            ),
    {
        if self.gone || messages.len() == 0 {
            no_commands()
        } else {
            one_command(Command::Text(generate_message("read", MessageData::List(messages))))
        }
    }

    /// Takes the engine's answer.
    pub fn rps_reply(&mut self, answer: Result<RPSData, RPSError>) -> (commands: Vec<Command>)
        ensures
            (final(self).deep_view(), commands.deep_view()) == old(self).deep_view().rps_answered(
                match answer {
                    Ok(data) => Ok(data.deep_view()),
                    Err(error) => Err(error.message@),
                },
            ),
    {
        if self.gone {
            return no_commands();
        }
        match answer {
            Ok(data) => one_command(Command::Text(generate_message("rps", MessageData::RPS(data)))),
            Err(_) => self.stopping(),
        }
    }
}

} // verus!
