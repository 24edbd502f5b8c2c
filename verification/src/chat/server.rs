//! The router: which sessions are connected, what each session is pointed at,
//! the users, the rooms and the message log.
use crate::chance::fresh_id;
use crate::chat::models::{
    copy_ids, copy_messages, copy_users, ChatMessage, ChatMessageView, ChatUser, ChatUserView,
    CreateRoom, Join, Read,
};
use crate::chat::room::{copy_rooms, PublicRoom, PublicRoomView, RoomData, RoomDataView};
use crate::connection::{Connect, Disconnect};
use crate::db::{DbWrite, DbWriteView, StoreChatMessage, StoreRoom, StoreRoomConnection};
use crate::envelope::{
    deliver_to_all, fan_out, generate_message, no_effects, ClientMessage, ClientMessageView, Effects,
    EffectsView, MessageData, MessageDataView, Outbound, OutboundView,
};
use crate::ids::{
    common, common_ids, contains_id, first_index, insert_id, lemma_first_at, lemma_first_index,
    lemma_with_id_distinct, remove_id, with_id, without_id,
};
use crate::table::{
    find_key, keys, lemma_key_absent, lemma_key_at, lemma_upsert_keys, put,
    remove_key, upsert, value_of, without_key,
};
use vstd::prelude::*;

verus! {

/// Owns the state of the chat: sessions, focus, users, rooms and messages.
pub struct ChatServer {
    /// The sessions that have a connection.
    sessions: Vec<String>,
    /// What each session is pointed at: a user or a room.
    id_pointers: Vec<(String, String)>,
    public_rooms: Vec<PublicRoom>,
    /// The log of every message, in order of arrival.
    messages: Vec<ChatMessage>,
    /// Every user that ever connected.
    users: Vec<ChatUser>,
}

/// The router as mathematics.
pub struct ChatServerView {
    pub sessions: Seq<Seq<char>>,
    pub id_pointers: Seq<(Seq<char>, Seq<char>)>,
    pub public_rooms: Seq<PublicRoomView>,
    pub messages: Seq<ChatMessageView>,
    pub users: Seq<ChatUserView>,
}

impl DeepView for ChatServer {
    type V = ChatServerView;

    closed spec fn deep_view(&self) -> ChatServerView {
        ChatServerView {
            sessions: self.sessions.deep_view(),
            id_pointers: self.id_pointers.deep_view(),
            public_rooms: self.public_rooms.deep_view(),
            messages: self.messages.deep_view(),
            users: self.users.deep_view(),
        }
    }
}

/// The identifiers of the rooms, in order.
pub open spec fn room_ids(rooms: Seq<PublicRoomView>) -> Seq<Seq<char>> {
    rooms.map_values(|r: PublicRoomView| r.id)
}

/// The identifiers of the users, in order.
pub open spec fn user_ids(users: Seq<ChatUserView>) -> Seq<Seq<char>> {
    users.map_values(|u: ChatUserView| u.id)
}

/// The identifiers of the messages, in order.
pub open spec fn message_ids(messages: Seq<ChatMessageView>) -> Seq<Seq<char>> {
    messages.map_values(|m: ChatMessageView| m.id)
}

/// A message under `header`.
pub open spec fn envelope(header: Seq<char>, data: MessageDataView) -> ClientMessageView {
    ClientMessageView { header, data }
}

/// `users` with the connected flag of the user `id` set to `flag`.
pub open spec fn flagged(users: Seq<ChatUserView>, id: Seq<char>, flag: bool) -> Seq<ChatUserView> {
    if user_ids(users).contains(id) {
        let at = first_index(user_ids(users), id);
        users.update(at, ChatUserView { connected: flag, ..users[at] })
    } else {
        users
    }
}

/// Is `m` a message that `id` received from `other`?
pub open spec fn received_from(m: ChatMessageView, id: Seq<char>, other: Seq<char>) -> bool {
    m.receiver_id == id && m.sender_id == other
}

/// Is `m` a message between `id` and `other`, in either direction?
pub open spec fn between(m: ChatMessageView, id: Seq<char>, other: Seq<char>) -> bool {
    received_from(m, id, other) || received_from(m, other, id)
}

/// The log with every message that `id` received from `other` marked as read.
pub open spec fn marked(messages: Seq<ChatMessageView>, id: Seq<char>, other: Seq<char>) -> Seq<
    ChatMessageView,
> {
    messages.map_values(
        |m: ChatMessageView|
            if received_from(m, id, other) {
                ChatMessageView { read: true, ..m }
            } else {
                m
            },
    )
}

/// The messages between `id` and `other`, in the order of the log.
pub open spec fn conversation(messages: Seq<ChatMessageView>, id: Seq<char>, other: Seq<char>) -> Seq<
    ChatMessageView,
>
    decreases messages.len(),
{
    if messages.len() == 0 {
        Seq::empty()
    } else if between(messages.last(), id, other) {
        conversation(messages.drop_last(), id, other).push(messages.last())
    } else {
        conversation(messages.drop_last(), id, other)
    }
}

/// The messages that `user` sent or received, in the order of the log.
pub open spec fn involving(messages: Seq<ChatMessageView>, user: Seq<char>) -> Seq<ChatMessageView>
    decreases messages.len(),
{
    if messages.len() == 0 {
        Seq::empty()
    } else if messages.last().sender_id == user || messages.last().receiver_id == user {
        involving(messages.drop_last(), user).push(messages.last())
    } else {
        involving(messages.drop_last(), user)
    }
}

/// Does the log hold an unread message that `id` received from `other`?
pub open spec fn has_unread(messages: Seq<ChatMessageView>, id: Seq<char>, other: Seq<char>) -> bool {
    exists|i: int| 0 <= i < messages.len() && received_from(#[trigger] messages[i], id, other) && !messages[i].read
}

impl ChatServerView {
    /// The router's invariant: no session, focus entry, room or user occurs
    /// twice.
    pub open spec fn wf(self) -> bool {
        &&& self.sessions.no_duplicates()
        &&& keys(self.id_pointers).no_duplicates()
        &&& room_ids(self.public_rooms).no_duplicates()
        &&& user_ids(self.users).no_duplicates()
    }

    /// What the session `id` is pointed at.
    pub open spec fn focus(self, id: Seq<char>) -> Option<Seq<char>> {
        value_of(self.id_pointers, id)
    }

    /// `message` for the session that `sender` is pointed at, if that is a
    /// connected session.
    pub open spec fn send(self, sender: Seq<char>, message: ClientMessageView) -> Seq<OutboundView> {
        match self.focus(sender) {
            Some(target) => self.send_direct(target, message),
            None => Seq::empty(),
        }
    }

    /// `message` for the session `receiver`, if it is connected.
    pub open spec fn send_direct(self, receiver: Seq<char>, message: ClientMessageView) -> Seq<
        OutboundView,
    > {
        if self.sessions.contains(receiver) {
            seq![OutboundView { to: receiver, message }]
        } else {
            Seq::empty()
        }
    }

    /// `message` for every connected session.
    pub open spec fn broadcast(self, message: ClientMessageView) -> Seq<OutboundView> {
        fan_out(self.sessions, message)
    }

    /// `message` for every connected member of the room `room_id`.
    pub open spec fn room_broadcast(self, room_id: Seq<char>, message: ClientMessageView) -> Seq<
        OutboundView,
    > {
        if room_ids(self.public_rooms).contains(room_id) {
            let room = self.public_rooms[first_index(room_ids(self.public_rooms), room_id)];
            fan_out(common(room.users, self.sessions), message)
        } else {
            Seq::empty()
        }
    }
}

/// The focus entries that do not point at `target`, in order.
pub open spec fn not_pointing_at(pointers: Seq<(Seq<char>, Seq<char>)>, target: Seq<char>) -> Seq<
    (Seq<char>, Seq<char>),
>
    decreases pointers.len(),
{
    if pointers.len() == 0 {
        Seq::empty()
    } else if pointers.last().1 == target {
        not_pointing_at(pointers.drop_last(), target)
    } else {
        not_pointing_at(pointers.drop_last(), target).push(pointers.last())
    }
}

/// The log with the first message under the identifier `id` marked as read.
pub open spec fn mark_read(messages: Seq<ChatMessageView>, id: Seq<char>) -> Seq<ChatMessageView> {
    if message_ids(messages).contains(id) {
        let at = first_index(message_ids(messages), id);
        messages.update(at, ChatMessageView { read: true, ..messages[at] })
    } else {
        messages
    }
}

/// The log after each of `acks`, in order, is marked as read by identifier.
pub open spec fn acked(messages: Seq<ChatMessageView>, acks: Seq<ChatMessageView>) -> Seq<
    ChatMessageView,
>
    decreases acks.len(),
{
    if acks.len() == 0 {
        messages
    } else {
        mark_read(acked(messages, acks.drop_last()), acks.last().id)
    }
}

/// The users among `users`, in order, whose session is connected and pointed
/// at `target`.
pub open spec fn listeners(
    users: Seq<Seq<char>>,
    pointers: Seq<(Seq<char>, Seq<char>)>,
    sessions: Seq<Seq<char>>,
    target: Seq<char>,
) -> Seq<Seq<char>>
    decreases users.len(),
{
    if users.len() == 0 {
        Seq::empty()
    } else if value_of(pointers, users.last()) == Some(target) && sessions.contains(users.last()) {
        listeners(users.drop_last(), pointers, sessions, target).push(users.last())
    } else {
        listeners(users.drop_last(), pointers, sessions, target)
    }
}

/// One message for one session.
pub open spec fn unicast(to: Seq<char>, message: ClientMessageView) -> Seq<OutboundView> {
    seq![OutboundView { to, message }]
}

impl ChatServerView {
    /// A user connects. The user is registered as connected, or an existing
    /// record is flagged as connected; the session is registered and pointed
    /// at itself. Every session, the new one too, is told of the user; then
    /// the new session is sent its own identifier, all users and, if there
    /// are any, all rooms.
    pub open spec fn connected(self, user: ChatUserView) -> (ChatServerView, EffectsView) {
        let users = if user_ids(self.users).contains(user.id) {
            flagged(self.users, user.id, true)
        } else {
            self.users.push(ChatUserView { connected: true, ..user })
        };
        let next = ChatServerView {
            users,
            sessions: with_id(self.sessions, user.id),
            id_pointers: upsert(self.id_pointers, user.id, user.id),
            ..self
        };
        let rooms = if self.public_rooms.len() > 0 {
            unicast(
                user.id,
                envelope("room"@, MessageDataView::Room(RoomDataView::Rooms(self.public_rooms))),
            )
        } else {
            Seq::empty()
        };
        (
            next,
            EffectsView {
                deliveries: next.broadcast(envelope("user_connected"@, MessageDataView::User(user)))
                    + unicast(user.id, envelope("session"@, MessageDataView::String(user.id)))
                    + unicast(user.id, envelope("users"@, MessageDataView::Users(users))) + rooms,
                writes: Seq::empty(),
            },
        )
    }

    /// A session disconnects. It and its focus entry are removed. The user's
    /// record stays and is flagged as not connected. Nobody stays pointed at
    /// the session. Everybody still connected is told.
    pub open spec fn disconnected(self, id: Seq<char>) -> (ChatServerView, EffectsView) {
        let next = ChatServerView {
            sessions: without_id(self.sessions, id),
            id_pointers: not_pointing_at(without_key(self.id_pointers, id), id),
            users: flagged(self.users, id, false),
            ..self
        };
        (
            next,
            EffectsView {
                deliveries: next.broadcast(envelope("user_disconnected"@, MessageDataView::String(id))),
                writes: Seq::empty(),
            },
        )
    }

    /// The session `id` joins `target` and is pointed at it from now on.
    ///
    /// Where `target` is a room: a new member is added and announced to
    /// everybody, the membership is written to durable storage, and the room's
    /// whole message list is returned. Otherwise the messages between the two
    /// are returned, those that `id` received marked as read; if some were
    /// unread and `id` is not joining itself, the other side is sent the list.
    pub open spec fn joined(self, id: Seq<char>, target: Seq<char>) -> (
        ChatServerView,
        Seq<ChatMessageView>,
        EffectsView,
    ) {
        let pointers = upsert(self.id_pointers, id, target);
        if room_ids(self.public_rooms).contains(target) {
            let at = first_index(room_ids(self.public_rooms), target);
            let room = self.public_rooms[at];
            let entered = PublicRoomView { users: with_id(room.users, id), ..room };
            let next = ChatServerView {
                id_pointers: pointers,
                public_rooms: self.public_rooms.update(at, entered),
                ..self
            };
            let deliveries = if room.users.contains(id) {
                Seq::empty()
            } else {
                next.broadcast(envelope("room"@, MessageDataView::Room(RoomDataView::Joined((id, target)))))
            };
            (
                next,
                room.messages,
                EffectsView {
                    deliveries,
                    writes: seq![DbWriteView::RoomConnection { room_id: room.id, user_id: id }],
                },
            )
        } else {
            let log = marked(self.messages, id, target);
            let next = ChatServerView { id_pointers: pointers, messages: log, ..self };
            let found = conversation(log, id, target);
            let deliveries = if id != target && has_unread(self.messages, id, target) {
                next.send(id, envelope("read"@, MessageDataView::List(found)))
            } else {
                Seq::empty()
            };
            (next, found, EffectsView { deliveries, writes: Seq::empty() })
        }
    }

    /// A message is submitted. It is appended to the log and written to durable
    /// storage.
    ///
    /// Where the receiver is a room, it is also appended to the room's own list
    /// and relayed to every member of the room who is connected and pointed at
    /// the room.
    /// Otherwise it is relayed to whatever the sender is pointed at, unless the
    /// sender wrote to itself, and in any case sent back to the sender.
    pub open spec fn submitted(self, msg: ChatMessageView) -> (ChatServerView, EffectsView) {
        let log = self.messages.push(msg);
        let note = envelope("chat_message"@, MessageDataView::ChatMessage(msg));
        if room_ids(self.public_rooms).contains(msg.receiver_id) {
            let at = first_index(room_ids(self.public_rooms), msg.receiver_id);
            let room = self.public_rooms[at];
            let stored = PublicRoomView { messages: room.messages.push(msg), ..room };
            (
                ChatServerView { messages: log, public_rooms: self.public_rooms.update(at, stored), ..self },
                EffectsView {
                    deliveries: fan_out(
                        listeners(room.users, self.id_pointers, self.sessions, room.id),
                        note,
                    ),
                    writes: seq![DbWriteView::ChatMessage { message: msg, is_room: true }],
                },
            )
        } else {
            let relay = if msg.receiver_id != msg.sender_id {
                self.send(msg.sender_id, note)
            } else {
                Seq::empty()
            };
            (
                ChatServerView { messages: log, ..self },
                EffectsView {
                    deliveries: relay + self.send_direct(msg.sender_id, note),
                    writes: seq![DbWriteView::ChatMessage { message: msg, is_room: false }],
                },
            )
        }
    }

    /// A client reports messages as read. Each is marked in the log by its
    /// identifier, and the list goes to the sender of the last of them.
    pub open spec fn acknowledged(self, acks: Seq<ChatMessageView>) -> (ChatServerView, EffectsView) {
        let sender = if acks.len() > 0 {
            acks.last().sender_id
        } else {
            Seq::empty()
        };
        (
            ChatServerView { messages: acked(self.messages, acks), ..self },
            EffectsView {
                deliveries: self.send_direct(sender, envelope("read"@, MessageDataView::List(acks))),
                writes: Seq::empty(),
            },
        )
    }

    /// A room is opened under the identifier `id` with `sender` as its only
    /// member. It takes the place of a room with that identifier, or comes
    /// last; it is written to durable storage and announced to everybody.
    pub open spec fn room_created(self, sender: Seq<char>, name: Seq<char>, id: Seq<char>) -> (
        ChatServerView,
        EffectsView,
    ) {
        let room = PublicRoomView { id, name, users: seq![sender], messages: Seq::empty() };
        let rooms = if room_ids(self.public_rooms).contains(id) {
            self.public_rooms.update(first_index(room_ids(self.public_rooms), id), room)
        } else {
            self.public_rooms.push(room)
        };
        (
            ChatServerView { public_rooms: rooms, ..self },
            EffectsView {
                deliveries: self.broadcast(envelope("room"@, MessageDataView::Room(RoomDataView::Room(room)))),
                writes: seq![DbWriteView::Room { room, admin_id: sender }],
            },
        )
    }
}

impl ChatServer {
    /// A router that knows nobody and nothing.
    pub fn new() -> (server: ChatServer)
        ensures
            server.deep_view() == (ChatServerView {
                sessions: Seq::empty(),
                id_pointers: Seq::empty(),
                public_rooms: Seq::empty(),
                messages: Seq::empty(),
                users: Seq::empty(),
            }),
            server.deep_view().wf(),
    {
        let sessions: Vec<String> = Vec::new();
        let id_pointers: Vec<(String, String)> = Vec::new();
        let public_rooms: Vec<PublicRoom> = Vec::new();
        let messages: Vec<ChatMessage> = Vec::new();
        let users: Vec<ChatUser> = Vec::new();
        assert(sessions.deep_view() =~= Seq::empty());
        assert(id_pointers.deep_view() =~= Seq::empty());
        assert(public_rooms.deep_view() =~= Seq::empty());
        assert(messages.deep_view() =~= Seq::empty());
        assert(users.deep_view() =~= Seq::empty());
        assert(keys(id_pointers.deep_view()) =~= Seq::empty());
        assert(room_ids(public_rooms.deep_view()) =~= Seq::empty());
        assert(user_ids(users.deep_view()) =~= Seq::empty());
        ChatServer { sessions, id_pointers, public_rooms, messages, users }
    }

    /// The connected sessions.
    pub fn get_sessions(&self) -> (sessions: Vec<String>)
        ensures
            sessions.deep_view() == self.deep_view().sessions,
    {
        copy_ids(&self.sessions)
    }

    /// Every user that ever connected.
    pub fn get_users(&self) -> (users: Vec<ChatUser>)
        ensures
            users.deep_view() == self.deep_view().users,
    {
        copy_users(&self.users)
    }

    /// Every room.
    pub fn get_rooms(&self) -> (rooms: Vec<PublicRoom>)
        ensures
            rooms.deep_view() == self.deep_view().public_rooms,
    {
        copy_rooms(&self.public_rooms)
    }

    /// The whole message log.
    pub fn get_log(&self) -> (messages: Vec<ChatMessage>)
        ensures
            messages.deep_view() == self.deep_view().messages,
    {
        copy_messages(&self.messages)
    }

    /// What the session `id` is pointed at.
    pub fn get_focus(&self, id: &str) -> (target: Option<String>)
        ensures
            target.deep_view() == self.deep_view().focus(id@),
    {
        let key = id.to_owned();
        match find_key(&self.id_pointers, &key) {
            Some(at) => {
                proof {
                    lemma_key_at(self.id_pointers.deep_view(), id@, at as int);
                }
                Some(self.id_pointers[at].1.clone())
            },
            None => {
                proof {
                    lemma_key_absent(self.id_pointers.deep_view(), id@);
                }
                None
            },
        }
    }

    /// `message` for the session `receiver`, if it is connected.
    pub fn send_direct(&self, receiver: &str, message: ClientMessage) -> (out: Vec<Outbound>)
        ensures
            out.deep_view() == self.deep_view().send_direct(receiver@, message.deep_view()),
    {
        let mut out: Vec<Outbound> = Vec::new();
        let to = receiver.to_owned();
        if contains_id(&self.sessions, &to) {
            out.push(Outbound { to, message });
            assert(out.deep_view() =~= seq![OutboundView { to: receiver@, message: message.deep_view() }]);
        } else {
            assert(out.deep_view() =~= Seq::empty());
        }
        out
    }

    /// `message` for the session that `sender` is pointed at, if that is a
    /// connected session.
    pub fn send(&self, sender: &str, message: ClientMessage) -> (out: Vec<Outbound>)
        ensures
            out.deep_view() == self.deep_view().send(sender@, message.deep_view()),
    {
        match self.get_focus(sender) {
            Some(target) => self.send_direct(target.as_str(), message),
            None => {
                let out: Vec<Outbound> = Vec::new();
                assert(out.deep_view() =~= Seq::empty());
                out
            },
        }
    }

    /// `message` for every connected session.
    pub fn broadcast(&self, message: ClientMessage) -> (out: Vec<Outbound>)
        ensures
            out.deep_view() == self.deep_view().broadcast(message.deep_view()),
    {
        let mut out: Vec<Outbound> = Vec::new();
        assert(out.deep_view() =~= Seq::empty());
        deliver_to_all(&mut out, &self.sessions, &message);
        assert(out.deep_view() =~= self.deep_view().broadcast(message.deep_view()));
        out
    }

    /// Index of the room with the identifier `id`.
    fn find_room(&self, id: &String) -> (at: Option<usize>)
        ensures
            at is Some <==> room_ids(self.deep_view().public_rooms).contains(id@),
            at is Some ==> at.unwrap() == first_index(room_ids(self.deep_view().public_rooms), id@)
                && at.unwrap() < self.public_rooms.len(),
    {
        let ghost ids = room_ids(self.deep_view().public_rooms);
        let mut i: usize = 0;
        while i < self.public_rooms.len()
            invariant
                i <= self.public_rooms.len(),
                ids == room_ids(self.deep_view().public_rooms),
                forall|j: int| 0 <= j < i ==> ids[j] != id@,
            decreases self.public_rooms.len() - i,
        {
            if self.public_rooms[i].id == *id {
                proof {
                    assert(ids[i as int] == id@);
                    lemma_first_at(ids, id@, i as int);
                }
                return Some(i);
            }
            i += 1;
        }
        proof {
            if ids.contains(id@) {
                let k = choose|k: int| 0 <= k < ids.len() && ids[k] == id@;
                assert(false);
            }
        }
        None
    }

    /// Index of the user with the identifier `id`.
    fn find_user(&self, id: &String) -> (at: Option<usize>)
        ensures
            at is Some <==> user_ids(self.deep_view().users).contains(id@),
            at is Some ==> at.unwrap() == first_index(user_ids(self.deep_view().users), id@)
                && at.unwrap() < self.users.len(),
    {
        let ghost ids = user_ids(self.deep_view().users);
        let mut i: usize = 0;
        while i < self.users.len()
            invariant
                i <= self.users.len(),
                ids == user_ids(self.deep_view().users),
                forall|j: int| 0 <= j < i ==> ids[j] != id@,
            decreases self.users.len() - i,
        {
            if self.users[i].id == *id {
                proof {
                    assert(ids[i as int] == id@);
                    lemma_first_at(ids, id@, i as int);
                }
                return Some(i);
            }
            i += 1;
        }
        proof {
            if ids.contains(id@) {
                let k = choose|k: int| 0 <= k < ids.len() && ids[k] == id@;
                assert(false);
            }
        }
        None
    }

    /// `message` for every connected member of the room `room_id`.
    pub fn room_broadcast(&self, room_id: &str, message: ClientMessage) -> (out: Vec<Outbound>)
        ensures
            out.deep_view() == self.deep_view().room_broadcast(room_id@, message.deep_view()),
    {
        let mut out: Vec<Outbound> = Vec::new();
        assert(out.deep_view() =~= Seq::empty());
        let id = room_id.to_owned();
        match self.find_room(&id) {
            Some(at) => {
                let to = common_ids(&self.public_rooms[at].users, &self.sessions);
                deliver_to_all(&mut out, &to, &message);
                assert(out.deep_view() =~= self.deep_view().room_broadcast(room_id@, message.deep_view()));
            },
            None => {},
        }
        out
    }

    /// The messages between `id` and `other`, after marking as read those that
    /// `id` received from `other`.
    pub fn get_messages(&mut self, id: &str, other_id: &str) -> (found: Vec<ChatMessage>)
        ensures
            final(self).deep_view() == (ChatServerView {
                messages: marked(old(self).deep_view().messages, id@, other_id@),
                ..old(self).deep_view()
            }),
            found.deep_view() == conversation(final(self).deep_view().messages, id@, other_id@),
    {
        let ghost log = self.deep_view().messages;
        let me = id.to_owned();
        let other = other_id.to_owned();
        let mut found: Vec<ChatMessage> = Vec::new();
        let mut i: usize = 0;
        assert(marked(log, id@, other_id@).take(0) =~= Seq::empty());
        while i < self.messages.len()
            invariant
                i <= self.messages.len(),
                me@ == id@,
                other@ == other_id@,
                self.messages.len() == log.len(),
                self.sessions == old(self).sessions,
                self.id_pointers == old(self).id_pointers,
                self.public_rooms == old(self).public_rooms,
                self.users == old(self).users,
                forall|j: int| 0 <= j < i ==> self.messages.deep_view()[j] == marked(log, id@, other_id@)[j],
                forall|j: int| i <= j < log.len() ==> self.messages.deep_view()[j] == log[j],
                found.deep_view() == conversation(marked(log, id@, other_id@).take(i as int), id@, other_id@),
            decreases self.messages.len() - i,
        {
            let ghost before = found.deep_view();
            let ghost target = marked(log, id@, other_id@);
            proof {
                assert(target.take(i + 1).drop_last() =~= target.take(i as int));
                assert(target.take(i + 1).last() == target[i as int]);
            }
            let ghost prev = self.messages.deep_view();
            if self.messages[i].receiver_id == me && self.messages[i].sender_id == other {
                if !self.messages[i].read {
                    self.messages[i].read = true;
                    assert(self.messages.deep_view() =~= prev.update(
                        i as int,
                        ChatMessageView { read: true, ..prev[i as int] },
                    ));
                }
                assert(self.messages.deep_view()[i as int] == target[i as int]);
                let copy = self.messages[i].clone();
                found.push(copy);
                assert(found.deep_view() =~= before.push(target[i as int]));
            } else if self.messages[i].receiver_id == other && self.messages[i].sender_id == me {
                let copy = self.messages[i].clone();
                found.push(copy);
                assert(found.deep_view() =~= before.push(target[i as int]));
            }
            i += 1;
        }
        assert(self.messages.deep_view() =~= marked(log, id@, other_id@));
        assert(marked(log, id@, other_id@).take(log.len() as int) =~= marked(log, id@, other_id@));
        found
    }
}

/// Dropping focus entries drops keys and adds none.
pub proof fn lemma_not_pointing_at(pointers: Seq<(Seq<char>, Seq<char>)>, target: Seq<char>)
    ensures
        forall|x: Seq<char>| #[trigger]
            keys(not_pointing_at(pointers, target)).contains(x) ==> keys(pointers).contains(x),
        keys(pointers).no_duplicates() ==> keys(not_pointing_at(pointers, target)).no_duplicates(),
        forall|i: int|
            0 <= i < not_pointing_at(pointers, target).len() ==> (#[trigger] not_pointing_at(
                pointers,
                target,
            )[i]).1 != target,
    decreases pointers.len(),
{
    if pointers.len() > 0 {
        let front = pointers.drop_last();
        let last = pointers.last();
        lemma_not_pointing_at(front, target);
        let sub = not_pointing_at(front, target);
        let out = not_pointing_at(pointers, target);
        assert(keys(pointers).drop_last() =~= keys(front));
        assert(keys(pointers).last() == last.0);
        assert forall|x: Seq<char>| #[trigger] keys(out).contains(x) implies keys(pointers).contains(x) by {
            let k = choose|k: int| 0 <= k < keys(out).len() && keys(out)[k] == x;
            if k < sub.len() {
                assert(keys(sub)[k] == x);
                assert(keys(sub).contains(x));
                let m = choose|m: int| 0 <= m < keys(front).len() && keys(front)[m] == x;
                assert(keys(pointers)[m] == x);
            } else {
                assert(keys(pointers)[pointers.len() - 1] == x);
            }
        }
        if keys(pointers).no_duplicates() {
            assert(keys(front).no_duplicates());
            if last.1 != target {
                assert(keys(out) =~= keys(sub).push(last.0));
                assert(!keys(sub).contains(last.0)) by {
                    if keys(sub).contains(last.0) {
                        let m = choose|m: int| 0 <= m < keys(front).len() && keys(front)[m] == last.0;
                        assert(keys(pointers)[m] == keys(pointers)[pointers.len() - 1]);
                    }
                }
                assert forall|i: int, j: int|
                    0 <= i < keys(out).len() && 0 <= j < keys(out).len() && i != j implies keys(out)[i]
                    != keys(out)[j] by {
                    if i < sub.len() {
                        assert(keys(sub).contains(keys(sub)[i]));
                    }
                    if j < sub.len() {
                        assert(keys(sub).contains(keys(sub)[j]));
                    }
                }
            }
        }
    }
}

/// Removing an entry from a list without duplicates leaves none.
pub proof fn lemma_remove_distinct(ids: Seq<Seq<char>>, at: int)
    requires
        ids.no_duplicates(),
        0 <= at < ids.len(),
    ensures
        ids.remove(at).no_duplicates(),
{
    let out = ids.remove(at);
    assert forall|i: int, j: int| 0 <= i < out.len() && 0 <= j < out.len() && i != j implies out[i] != out[j] by {
        let a = if i < at { i } else { i + 1 };
        let b = if j < at { j } else { j + 1 };
        assert(out[i] == ids[a]);
        assert(out[j] == ids[b]);
    }
}

/// A disconnect keeps the router well formed.
pub proof fn lemma_disconnected_wf(s: ChatServerView, id: Seq<char>)
    requires
        s.wf(),
    ensures
        s.disconnected(id).0.wf(),
{
    let next = s.disconnected(id).0;
    lemma_first_index(s.sessions, id);
    if s.sessions.contains(id) {
        lemma_remove_distinct(s.sessions, first_index(s.sessions, id));
    }
    let pointers = without_key(s.id_pointers, id);
    lemma_first_index(keys(s.id_pointers), id);
    if keys(s.id_pointers).contains(id) {
        let at = first_index(keys(s.id_pointers), id);
        lemma_remove_distinct(keys(s.id_pointers), at);
        assert(keys(pointers) =~= keys(s.id_pointers).remove(at));
    }
    lemma_not_pointing_at(pointers, id);
    lemma_first_index(user_ids(s.users), id);
    assert(user_ids(next.users) =~= user_ids(s.users));
}

/// A connect keeps the router well formed.
pub proof fn lemma_connected_wf(s: ChatServerView, user: ChatUserView)
    requires
        s.wf(),
    ensures
        s.connected(user).0.wf(),
{
    let next = s.connected(user).0;
    lemma_with_id_distinct(s.sessions, user.id);
    lemma_upsert_keys(s.id_pointers, user.id, user.id);
    lemma_with_id_distinct(keys(s.id_pointers), user.id);
    lemma_first_index(user_ids(s.users), user.id);
    if user_ids(s.users).contains(user.id) {
        assert(user_ids(next.users) =~= user_ids(s.users));
    } else {
        assert(user_ids(next.users) =~= user_ids(s.users).push(user.id));
        lemma_with_id_distinct(user_ids(s.users), user.id);
        assert(with_id(user_ids(s.users), user.id) == user_ids(s.users).push(user.id));
    }
}

impl ChatServer {
    /// Sets the connected flag of the user `id`, if there is one.
    fn flag_user(&mut self, id: &String, flag: bool)
        ensures
            final(self).deep_view() == (ChatServerView {
                users: flagged(old(self).deep_view().users, id@, flag),
                ..old(self).deep_view()
            }),
    {
        let ghost before = self.deep_view().users;
        match self.find_user(id) {
            Some(at) => {
                self.users[at].connected = flag;
                assert(self.users.deep_view() =~= before.update(
                    at as int,
                    ChatUserView { connected: flag, ..before[at as int] },
                ));
            },
            None => {},
        }
    }

    /// Drops every focus entry that points at `gone`.
    pub fn clean_rooms(&mut self, gone: &str)
        ensures
            final(self).deep_view() == (ChatServerView {
                id_pointers: not_pointing_at(old(self).deep_view().id_pointers, gone@),
                ..old(self).deep_view()
            }),
    {
        let ghost before = self.deep_view().id_pointers;
        let target = gone.to_owned();
        let mut kept: Vec<(String, String)> = Vec::new();
        let mut i: usize = 0;
        assert(before.take(0) =~= Seq::empty());
        assert(kept.deep_view() =~= Seq::empty());
        while i < self.id_pointers.len()
            invariant
                i <= self.id_pointers.len(),
                target@ == gone@,
                self.id_pointers.deep_view() == before,
                kept.deep_view() == not_pointing_at(before.take(i as int), gone@),
            decreases self.id_pointers.len() - i,
        {
            let ghost sofar = kept.deep_view();
            proof {
                assert(before.take(i + 1).drop_last() =~= before.take(i as int));
                assert(before.take(i + 1).last() == before[i as int]);
            }
            if !(self.id_pointers[i].1 == target) {
                let entry = (self.id_pointers[i].0.clone(), self.id_pointers[i].1.clone());
                kept.push(entry);
                assert(kept.deep_view() =~= sofar.push(before[i as int]));
            }
            i += 1;
        }
        assert(before.take(before.len() as int) =~= before);
        self.id_pointers = kept;
    }

    /// Registers the session of a user that has connected, tells everybody,
    /// and greets the session with its identifier, the users and the rooms.
    pub fn connect(&mut self, msg: Connect) -> (effects: Effects)
        requires
            old(self).deep_view().wf(),
        ensures
            (final(self).deep_view(), effects.deep_view()) == old(self).deep_view().connected(msg.deep_view()),
            final(self).deep_view().wf(),
    {
        let ghost before = self.deep_view();
        let Connect { user } = msg;
        proof {
            lemma_connected_wf(before, user.deep_view());
        }
        match self.find_user(&user.id) {
            Some(_) => {
                self.flag_user(&user.id, true);
            },
            None => {
                let fresh = ChatUser { id: user.id.clone(), username: user.username.clone(), connected: true };
                self.users.push(fresh);
                assert(self.users.deep_view() =~= before.users.push(
                    ChatUserView { connected: true, ..user.deep_view() },
                ));
            },
        }
        insert_id(&mut self.sessions, &user.id);
        put(&mut self.id_pointers, user.id.clone(), user.id.clone());
        let note = generate_message("user_connected", MessageData::User(user.clone()));
        let mut deliveries = self.broadcast(note);
        let ghost first = deliveries.deep_view();
        let session = generate_message("session", MessageData::String(user.id.clone()));
        deliveries.push(Outbound { to: user.id.clone(), message: session });
        assert(deliveries.deep_view() =~= first + unicast(
            user.id@,
            envelope("session"@, MessageDataView::String(user.id@)),
        ));
        let ghost second = deliveries.deep_view();
        let roster = generate_message("users", MessageData::Users(self.get_users()));
        deliveries.push(Outbound { to: user.id.clone(), message: roster });
        assert(deliveries.deep_view() =~= second + unicast(
            user.id@,
            envelope("users"@, MessageDataView::Users(self.deep_view().users)),
        ));
        let ghost third = deliveries.deep_view();
        if self.public_rooms.len() > 0 {
            let rooms = generate_message("room", MessageData::Room(RoomData::Rooms(self.get_rooms())));
            deliveries.push(Outbound { to: user.id.clone(), message: rooms });
            assert(deliveries.deep_view() =~= third + unicast(
                user.id@,
                envelope("room"@, MessageDataView::Room(RoomDataView::Rooms(before.public_rooms))),
            ));
        } else {
            assert(deliveries.deep_view() =~= third + Seq::<OutboundView>::empty());
        }
        let writes: Vec<DbWrite> = Vec::new();
        assert(writes.deep_view() =~= Seq::empty());
        Effects { deliveries, writes }
    }

    /// Forgets the session that has disconnected and tells everybody else.
    pub fn disconnect(&mut self, msg: Disconnect) -> (effects: Effects)
        requires
            old(self).deep_view().wf(),
        ensures
            (final(self).deep_view(), effects.deep_view()) == old(self).deep_view().disconnected(
                msg.session_id@,
            ),
            final(self).deep_view().wf(),
    {
        let ghost before = self.deep_view();
        let Disconnect { session_id } = msg;
        proof {
            lemma_disconnected_wf(before, session_id@);
        }
        remove_id(&mut self.sessions, &session_id);
        remove_key(&mut self.id_pointers, &session_id);
        self.flag_user(&session_id, false);
        self.clean_rooms(session_id.as_str());
        let note = generate_message("user_disconnected", MessageData::String(session_id));
        let deliveries = self.broadcast(note);
        let writes: Vec<DbWrite> = Vec::new();
        assert(writes.deep_view() =~= Seq::empty());
        Effects { deliveries, writes }
    }
}

/// A join keeps the router well formed.
pub proof fn lemma_joined_wf(s: ChatServerView, id: Seq<char>, target: Seq<char>)
    requires
        s.wf(),
    ensures
        s.joined(id, target).0.wf(),
{
    let next = s.joined(id, target).0;
    lemma_upsert_keys(s.id_pointers, id, target);
    lemma_with_id_distinct(keys(s.id_pointers), id);
    lemma_first_index(room_ids(s.public_rooms), target);
    assert(room_ids(next.public_rooms) =~= room_ids(s.public_rooms));
}

impl ChatServer {
    /// Does the log hold an unread message that `id` received from `other`?
    fn any_unread(&self, id: &String, other: &String) -> (unread: bool)
        ensures
            unread == has_unread(self.deep_view().messages, id@, other@),
    {
        let ghost log = self.deep_view().messages;
        let mut i: usize = 0;
        while i < self.messages.len()
            invariant
                i <= self.messages.len(),
                log == self.deep_view().messages,
                forall|j: int| 0 <= j < i ==> !(received_from(#[trigger] log[j], id@, other@) && !log[j].read),
            decreases self.messages.len() - i,
        {
            if self.messages[i].receiver_id == *id && self.messages[i].sender_id == *other
                && !self.messages[i].read {
                assert(received_from(log[i as int], id@, other@) && !log[i as int].read);
                return true;
            }
            i += 1;
        }
        false
    }

    /// Those of `users`, in order, whose session is connected and pointed at
    /// `target`.
    fn listeners_of(&self, users: &Vec<String>, target: &String) -> (to: Vec<String>)
        ensures
            to.deep_view() == listeners(
                users.deep_view(),
                self.deep_view().id_pointers,
                self.deep_view().sessions,
                target@,
            ),
    {
        let ghost view = self.deep_view();
        let ghost ids = users.deep_view();
        let mut to: Vec<String> = Vec::new();
        let mut i: usize = 0;
        assert(ids.take(0) =~= Seq::empty());
        assert(to.deep_view() =~= Seq::empty());
        while i < users.len()
            invariant
                i <= users.len(),
                view == self.deep_view(),
                ids == users.deep_view(),
                to.deep_view() == listeners(ids.take(i as int), view.id_pointers, view.sessions, target@),
            decreases users.len() - i,
        {
            let ghost sofar = to.deep_view();
            proof {
                assert(ids.take(i + 1).drop_last() =~= ids.take(i as int));
                assert(ids.take(i + 1).last() == users[i as int]@);
            }
            let focus = self.get_focus(users[i].as_str());
            let pointed = match focus {
                Some(at) => at == *target,
                None => false,
            };
            if pointed && contains_id(&self.sessions, &users[i]) {
                to.push(users[i].clone());
                assert(to.deep_view() =~= sofar.push(users[i as int]@));
            }
            i += 1;
        }
        assert(ids.take(ids.len() as int) =~= ids);
        to
    }

    /// Points a session at a user or a room and returns the messages of that
    /// conversation.
    pub fn join(&mut self, msg: Join) -> (out: (Vec<ChatMessage>, Effects))
        requires
            old(self).deep_view().wf(),
        ensures
            (final(self).deep_view(), out.0.deep_view(), out.1.deep_view()) == old(self).deep_view().joined(
                msg.id@,
                msg.room_id@,
            ),
            final(self).deep_view().wf(),
    {
        let ghost before = self.deep_view();
        let Join { id, room_id } = msg;
        proof {
            lemma_joined_wf(before, id@, room_id@);
        }
        put(&mut self.id_pointers, id.clone(), room_id.clone());
        let mut writes: Vec<DbWrite> = Vec::new();
        match self.find_room(&room_id) {
            Some(at) => {
                let ghost room = before.public_rooms[at as int];
                let mut deliveries: Vec<Outbound> = Vec::new();
                assert(deliveries.deep_view() =~= Seq::empty());
                if !self.public_rooms[at].has_user(id.as_str()) {
                    self.public_rooms[at].set_user(id.as_str());
                    assert(self.public_rooms.deep_view() =~= before.public_rooms.update(
                        at as int,
                        PublicRoomView { users: with_id(room.users, id@), ..room },
                    ));
                    let note = generate_message(
                        "room",
                        MessageData::Room(RoomData::Joined((id.clone(), room_id.clone()))),
                    );
                    deliveries = self.broadcast(note);
                } else {
                    assert(self.public_rooms.deep_view() =~= before.public_rooms.update(
                        at as int,
                        PublicRoomView { users: with_id(room.users, id@), ..room },
                    ));
                }
                let found = self.public_rooms[at].get_messages();
                writes.push(
                    DbWrite::RoomConnection(
                        StoreRoomConnection { room_id: self.public_rooms[at].id.clone(), user_id: id },
                    ),
                );
                assert(writes.deep_view() =~= seq![
                    DbWriteView::RoomConnection { room_id: room.id, user_id: id@ },
                ]);
                (found, Effects { deliveries, writes })
            },
            None => {
                assert(writes.deep_view() =~= Seq::empty());
                let unread = self.any_unread(&id, &room_id);
                let found = self.get_messages(id.as_str(), room_id.as_str());
                let deliveries = if id != room_id && unread {
                    let note = generate_message("read", MessageData::List(copy_messages(&found)));
                    self.send(id.as_str(), note)
                } else {
                    let nothing: Vec<Outbound> = Vec::new();
                    assert(nothing.deep_view() =~= Seq::empty());
                    nothing
                };
                (found, Effects { deliveries, writes })
            },
        }
    }
}

impl ChatServer {
    /// Stores a message and relays it.
    pub fn submit(&mut self, msg: ChatMessage) -> (effects: Effects)
        requires
            old(self).deep_view().wf(),
        ensures
            (final(self).deep_view(), effects.deep_view()) == old(self).deep_view().submitted(msg.deep_view()),
            final(self).deep_view().wf(),
    {
        let ghost before = self.deep_view();
        let ghost rooms = room_ids(before.public_rooms);
        proof {
            lemma_first_index(rooms, msg.receiver_id@);
        }
        let stored = msg.clone();
        self.messages.push(stored);
        assert(self.messages.deep_view() =~= before.messages.push(msg.deep_view()));
        let note = generate_message("chat_message", MessageData::ChatMessage(msg.clone()));
        let mut deliveries: Vec<Outbound> = Vec::new();
        let mut writes: Vec<DbWrite> = Vec::new();
        assert(deliveries.deep_view() =~= Seq::empty());
        match self.find_room(&msg.receiver_id) {
            Some(at) => {
                let ghost room = before.public_rooms[at as int];
                let to = self.listeners_of(&self.public_rooms[at].users, &self.public_rooms[at].id);
                self.public_rooms[at].store_message(msg.clone());
                assert(self.public_rooms.deep_view() =~= before.public_rooms.update(
                    at as int,
                    PublicRoomView { messages: room.messages.push(msg.deep_view()), ..room },
                ));
                assert(room_ids(self.deep_view().public_rooms) =~= rooms);
                deliver_to_all(&mut deliveries, &to, &note);
                assert(deliveries.deep_view() =~= fan_out(to.deep_view(), note.deep_view()));
                writes.push(DbWrite::ChatMessage(StoreChatMessage { message: msg, is_room: true }));
                assert(writes.deep_view() =~= seq![
                    DbWriteView::ChatMessage { message: msg.deep_view(), is_room: true },
                ]);
            },
            None => {
                if msg.receiver_id != msg.sender_id {
                    deliveries = self.send(msg.sender_id.as_str(), note.clone());
                }
                let ghost relay = deliveries.deep_view();
                let mut back = self.send_direct(msg.sender_id.as_str(), note);
                let ghost echo = back.deep_view();
                deliveries.append(&mut back);
                assert(deliveries.deep_view() =~= relay + echo);
                writes.push(DbWrite::ChatMessage(StoreChatMessage { message: msg, is_room: false }));
                assert(writes.deep_view() =~= seq![
                    DbWriteView::ChatMessage { message: msg.deep_view(), is_room: false },
                ]);
            },
        }
        Effects { deliveries, writes }
    }

    /// Handles a message from a client: a chat message is stored and relayed,
    /// anything else is ignored.
    pub fn handle(&mut self, message: ClientMessage) -> (effects: Effects)
        requires
            old(self).deep_view().wf(),
        ensures
            final(self).deep_view().wf(),
            (final(self).deep_view(), effects.deep_view()) == (match message.deep_view().data {
                MessageDataView::ChatMessage(msg) => old(self).deep_view().submitted(msg),
                _ => (old(self).deep_view(), no_effects()),
            }),
    {
        match message.data {
            MessageData::ChatMessage(msg) => self.submit(msg),
            _ => Effects::none(),
        }
    }

    /// Marks the first message under `id` as read.
    fn mark(&mut self, id: &String)
        ensures
            final(self).deep_view() == (ChatServerView {
                messages: mark_read(old(self).deep_view().messages, id@),
                ..old(self).deep_view()
            }),
    {
        let ghost log = self.deep_view().messages;
        let ghost ids = message_ids(log);
        let mut i: usize = 0;
        while i < self.messages.len()
            invariant
                i <= self.messages.len(),
                *self == *old(self),
                log == self.deep_view().messages,
                ids == message_ids(log),
                forall|j: int| 0 <= j < i ==> ids[j] != id@,
            decreases self.messages.len() - i,
        {
            if self.messages[i].id == *id {
                proof {
                    assert(ids[i as int] == id@);
                    lemma_first_at(ids, id@, i as int);
                }
                self.messages[i].read = true;
                assert(self.messages.deep_view() =~= log.update(
                    i as int,
                    ChatMessageView { read: true, ..log[i as int] },
                ));
                return ;
            }
            i += 1;
        }
        proof {
            if ids.contains(id@) {
                let k = choose|k: int| 0 <= k < ids.len() && ids[k] == id@;
                assert(false);
            }
        }
    }

    /// Marks the reported messages as read and passes the report on to the
    /// sender of the last of them.
    pub fn read(&mut self, message: Read) -> (effects: Effects)
        requires
            old(self).deep_view().wf(),
        ensures
            (final(self).deep_view(), effects.deep_view()) == old(self).deep_view().acknowledged(
                message.deep_view(),
            ),
            final(self).deep_view().wf(),
    {
        let ghost before = self.deep_view();
        let Read { messages } = message;
        let ghost acks = messages.deep_view();
        let mut sender = String::new();
        let mut i: usize = 0;
        assert(acks.take(0) =~= Seq::empty());
        while i < messages.len()
            invariant
                i <= messages.len(),
                acks == messages.deep_view(),
                self.deep_view() == (ChatServerView {
                    messages: acked(before.messages, acks.take(i as int)),
                    ..before
                }),
                sender@ == if i > 0 {
                    acks[i - 1].sender_id
                } else {
                    Seq::<char>::empty()
                },
            decreases messages.len() - i,
        {
            proof {
                assert(acks.take(i + 1).drop_last() =~= acks.take(i as int));
                assert(acks.take(i + 1).last() == acks[i as int]);
            }
            sender = messages[i].sender_id.clone();
            self.mark(&messages[i].id);
            i += 1;
        }
        assert(acks.take(acks.len() as int) =~= acks);
        let note = generate_message("read", MessageData::List(messages));
        let deliveries = self.send_direct(sender.as_str(), note);
        let writes: Vec<DbWrite> = Vec::new();
        assert(writes.deep_view() =~= Seq::empty());
        Effects { deliveries, writes }
    }

    /// Opens a room under a given identifier, writes it to durable storage and
    /// announces it to everybody.
    pub fn create_room_as(&mut self, message: CreateRoom, id: String) -> (effects: Effects)
        requires
            old(self).deep_view().wf(),
        ensures
            (final(self).deep_view(), effects.deep_view()) == old(self).deep_view().room_created(
                message.sender_id@,
                message.name@,
                id@,
            ),
            final(self).deep_view().wf(),
    {
        let ghost before = self.deep_view();
        let ghost ids = room_ids(before.public_rooms);
        let CreateRoom { sender_id, name } = message;
        let room = PublicRoom::new_insert(id.as_str(), sender_id.as_str(), name.as_str());
        let ghost fresh = room.deep_view();
        proof {
            lemma_first_index(ids, id@);
        }
        match self.find_room(&id) {
            Some(at) => {
                self.public_rooms.set(at, room.clone());
                assert(self.public_rooms.deep_view() =~= before.public_rooms.update(at as int, fresh));
                assert(room_ids(self.deep_view().public_rooms) =~= ids);
            },
            None => {
                self.public_rooms.push(room.clone());
                assert(self.public_rooms.deep_view() =~= before.public_rooms.push(fresh));
                assert(room_ids(self.deep_view().public_rooms) =~= ids.push(id@));
                proof {
                    lemma_with_id_distinct(ids, id@);
                }
            },
        }
        let note = generate_message("room", MessageData::Room(RoomData::Room(room.clone())));
        let deliveries = self.broadcast(note);
        let mut writes: Vec<DbWrite> = Vec::new();
        writes.push(DbWrite::Room(StoreRoom { room, admin_id: sender_id }));
        assert(writes.deep_view() =~= seq![DbWriteView::Room { room: fresh, admin_id: sender_id@ }]);
        Effects { deliveries, writes }
    }

    /// Opens a room under a fresh identifier; the identifier comes back with
    /// the effects.
    pub fn create_room(&mut self, message: CreateRoom) -> (out: (String, Effects))
        requires
            old(self).deep_view().wf(),
        ensures
            (final(self).deep_view(), out.1.deep_view()) == old(self).deep_view().room_created(
                message.sender_id@,
                message.name@,
                out.0@,
            ),
            final(self).deep_view().wf(),
    {
        let id = fresh_id();
        let effects = self.create_room_as(message, id.clone());
        (id, effects)
    }
}

impl ChatServer {
    /// Every message that `user_id` sent or received.
    pub fn get_private_messages(&self, user_id: &str) -> (found: Vec<ChatMessage>)
        ensures
            found.deep_view() == involving(self.deep_view().messages, user_id@),
    {
        let ghost log = self.deep_view().messages;
        let user = user_id.to_owned();
        let mut found: Vec<ChatMessage> = Vec::new();
        let mut i: usize = 0;
        assert(log.take(0) =~= Seq::empty());
        assert(found.deep_view() =~= Seq::empty());
        while i < self.messages.len()
            invariant
                i <= self.messages.len(),
                user@ == user_id@,
                log == self.deep_view().messages,
                found.deep_view() == involving(log.take(i as int), user_id@),
            decreases self.messages.len() - i,
        {
            let ghost before = found.deep_view();
            proof {
                assert(log.take(i + 1).drop_last() =~= log.take(i as int));
                assert(log.take(i + 1).last() == log[i as int]);
            }
            if self.messages[i].sender_id == user || self.messages[i].receiver_id == user {
                let copy = self.messages[i].clone();
                found.push(copy);
                assert(found.deep_view() =~= before.push(log[i as int]));
            }
            i += 1;
        }
        assert(log.take(log.len() as int) =~= log);
        found
    }
}

} // verus!
