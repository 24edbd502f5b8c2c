use ez_chat::chat::models::{ChatMessage, ChatUser, CreateRoom, Join, Read};
use ez_chat::chat::room::RoomData;
use ez_chat::chat::server::ChatServer;
use ez_chat::connection::{Connect, Disconnect};
use ez_chat::db::DbWrite;
use ez_chat::envelope::{generate_message, ClientMessage, Effects, MessageData, Outbound};

fn ids(names: &[&str]) -> Vec<String> {
    names.iter().map(|n| n.to_string()).collect()
}

fn user(id: &str) -> ChatUser {
    ChatUser { id: id.to_string(), username: id.to_uppercase(), connected: true }
}

fn connect(server: &mut ChatServer, id: &str) -> Effects {
    server.connect(Connect { user: user(id) })
}

fn join(server: &mut ChatServer, id: &str, target: &str) -> (Vec<ChatMessage>, Effects) {
    server.join(Join { id: id.to_string(), room_id: target.to_string() })
}

fn message(id: &str, from: &str, to: &str, content: &str) -> ChatMessage {
    ChatMessage {
        id: id.to_string(),
        sender_id: from.to_string(),
        receiver_id: to.to_string(),
        content: content.to_string(),
        read: false,
    }
}

fn receivers(out: &[Outbound]) -> Vec<String> {
    out.iter().map(|o| o.to.clone()).collect()
}

fn headers(out: &[Outbound]) -> Vec<String> {
    out.iter().map(|o| o.message.header.clone()).collect()
}

fn message_ids(messages: &[ChatMessage]) -> Vec<String> {
    messages.iter().map(|m| m.id.clone()).collect()
}

fn room_of(server: &mut ChatServer, owner: &str, id: &str) {
    server.create_room_as(
        CreateRoom { sender_id: owner.to_string(), name: "Lobby".to_string() },
        id.to_string(),
    );
}

#[test]
fn a_new_router_is_empty() {
    let server = ChatServer::new();
    assert!(server.get_sessions().is_empty());
    assert!(server.get_users().is_empty());
    assert!(server.get_rooms().is_empty());
    assert!(server.get_log().is_empty());
    assert_eq!(server.get_focus("a"), None);
}

#[test]
fn the_first_connection_is_greeted() {
    let mut server = ChatServer::new();
    let effects = connect(&mut server, "a");
    assert!(effects.writes.is_empty());
    assert_eq!(receivers(&effects.deliveries), ids(&["a", "a", "a"]));
    assert_eq!(headers(&effects.deliveries), ids(&["user_connected", "session", "users"]));
    match &effects.deliveries[0].message.data {
        MessageData::User(u) => assert_eq!(u.id, "a"),
        _ => panic!("expected the new user"),
    }
    match &effects.deliveries[1].message.data {
        MessageData::String(id) => assert_eq!(id, "a"),
        _ => panic!("expected the session's identifier"),
    }
    match &effects.deliveries[2].message.data {
        MessageData::Users(users) => {
            assert_eq!(users.len(), 1);
            assert_eq!(users[0].id, "a");
            assert_eq!(users[0].username, "A");
            assert!(users[0].connected);
        },
        _ => panic!("expected the users"),
    }
    assert_eq!(server.get_sessions(), ids(&["a"]));
    assert_eq!(server.get_focus("a"), Some("a".to_string()));
}

#[test]
fn everybody_hears_of_a_new_connection() {
    let mut server = ChatServer::new();
    connect(&mut server, "a");
    room_of(&mut server, "a", "r1");
    let effects = connect(&mut server, "b");
    assert_eq!(receivers(&effects.deliveries), ids(&["a", "b", "b", "b", "b"]));
    assert_eq!(
        headers(&effects.deliveries),
        ids(&["user_connected", "user_connected", "session", "users", "room"])
    );
    match &effects.deliveries[0].message.data {
        MessageData::User(u) => assert_eq!(u.id, "b"),
        _ => panic!("expected the new user"),
    }
    match &effects.deliveries[3].message.data {
        MessageData::Users(users) => assert_eq!(users.len(), 2),
        _ => panic!("expected the users"),
    }
    match &effects.deliveries[4].message.data {
        MessageData::Room(RoomData::Rooms(rooms)) => {
            assert_eq!(rooms.len(), 1);
            assert_eq!(rooms[0].id, "r1");
        },
        _ => panic!("expected the rooms"),
    }
}

#[test]
fn a_user_who_is_stored_as_offline_connects_as_online() {
    let mut server = ChatServer::new();
    server.connect(Connect { user: ChatUser { id: "a".to_string(), username: "A".to_string(), connected: false } });
    assert!(server.get_users()[0].connected);
}

#[test]
fn connecting_twice_is_connecting_once() {
    let mut server = ChatServer::new();
    connect(&mut server, "a");
    connect(&mut server, "b");
    let effects = connect(&mut server, "a");
    assert_eq!(receivers(&effects.deliveries), ids(&["a", "b", "a", "a"]));
    assert_eq!(server.get_sessions(), ids(&["a", "b"]));
    assert_eq!(server.get_users().len(), 2);
    assert_eq!(server.get_focus("a"), Some("a".to_string()));
}

#[test]
fn a_disconnect_keeps_the_user_and_tells_the_others() {
    let mut server = ChatServer::new();
    connect(&mut server, "a");
    connect(&mut server, "b");
    join(&mut server, "b", "a");
    let effects = server.disconnect(Disconnect { session_id: "a".to_string() });
    assert_eq!(receivers(&effects.deliveries), ids(&["b"]));
    assert_eq!(headers(&effects.deliveries), ids(&["user_disconnected"]));
    match &effects.deliveries[0].message.data {
        MessageData::String(id) => assert_eq!(id, "a"),
        _ => panic!("expected the session's identifier"),
    }
    assert!(effects.writes.is_empty());
    assert_eq!(server.get_sessions(), ids(&["b"]));
    let users = server.get_users();
    assert_eq!(users.len(), 2);
    assert!(!users[0].connected);
    assert!(users[1].connected);
    assert_eq!(server.get_focus("a"), None);
    assert_eq!(server.get_focus("b"), None);
    let again = connect(&mut server, "a");
    assert_eq!(receivers(&again.deliveries), ids(&["b", "a", "a", "a"]));
    assert_eq!(
        headers(&again.deliveries),
        ids(&["user_connected", "user_connected", "session", "users"])
    );
    assert!(server.get_users()[0].connected);
    assert_eq!(server.get_users()[0].username, "A");
}

#[test]
fn a_disconnect_removes_the_focus_of_a_session_that_only_joined() {
    let mut server = ChatServer::new();
    connect(&mut server, "a");
    join(&mut server, "ghost", "a");
    assert_eq!(server.get_focus("ghost"), Some("a".to_string()));
    server.disconnect(Disconnect { session_id: "ghost".to_string() });
    assert_eq!(server.get_focus("ghost"), None);
    assert_eq!(server.get_focus("a"), Some("a".to_string()));
}

#[test]
fn disconnecting_a_stranger_changes_nothing() {
    let mut server = ChatServer::new();
    connect(&mut server, "a");
    join(&mut server, "a", "b");
    let effects = server.disconnect(Disconnect { session_id: "zz".to_string() });
    assert_eq!(receivers(&effects.deliveries), ids(&["a"]));
    assert_eq!(server.get_sessions(), ids(&["a"]));
    assert_eq!(server.get_focus("a"), Some("b".to_string()));
    assert_eq!(server.get_users().len(), 1);
}

#[test]
fn the_focus_is_the_last_target() {
    let mut server = ChatServer::new();
    connect(&mut server, "a");
    connect(&mut server, "b");
    room_of(&mut server, "b", "r1");
    join(&mut server, "a", "b");
    assert_eq!(server.get_focus("a"), Some("b".to_string()));
    join(&mut server, "a", "r1");
    assert_eq!(server.get_focus("a"), Some("r1".to_string()));
    join(&mut server, "a", "offline");
    assert_eq!(server.get_focus("a"), Some("offline".to_string()));
    join(&mut server, "a", "a");
    assert_eq!(server.get_focus("a"), Some("a".to_string()));
    assert_eq!(server.get_focus("b"), Some("b".to_string()));
}

#[test]
fn a_private_message_goes_to_the_focus_and_back() {
    let mut server = ChatServer::new();
    connect(&mut server, "a");
    connect(&mut server, "b");
    join(&mut server, "a", "b");
    let effects = server.submit(message("m1", "a", "b", "hi"));
    assert_eq!(receivers(&effects.deliveries), ids(&["b", "a"]));
    assert_eq!(headers(&effects.deliveries), ids(&["chat_message", "chat_message"]));
    match &effects.deliveries[0].message.data {
        MessageData::ChatMessage(m) => {
            assert_eq!(m.id, "m1");
            assert_eq!(m.content, "hi");
        },
        _ => panic!("expected the message"),
    }
    assert_eq!(effects.writes.len(), 1);
    match &effects.writes[0] {
        DbWrite::ChatMessage(write) => {
            assert!(!write.is_room);
            assert_eq!(write.message.id, "m1");
        },
        _ => panic!("expected a message to be written"),
    }
    assert_eq!(message_ids(&server.get_log()), ids(&["m1"]));
}

#[test]
fn a_message_follows_the_sender_s_focus() {
    let mut server = ChatServer::new();
    connect(&mut server, "a");
    connect(&mut server, "b");
    connect(&mut server, "c");
    join(&mut server, "a", "c");
    let effects = server.submit(message("m1", "a", "b", "hi"));
    assert_eq!(receivers(&effects.deliveries), ids(&["c", "a"]));
    let effects = server.submit(message("m2", "b", "a", "ho"));
    assert_eq!(receivers(&effects.deliveries), ids(&["b", "b"]));
}

#[test]
fn a_note_to_oneself_comes_back_once() {
    let mut server = ChatServer::new();
    connect(&mut server, "a");
    let effects = server.submit(message("m1", "a", "a", "note"));
    assert_eq!(receivers(&effects.deliveries), ids(&["a"]));
    assert_eq!(message_ids(&server.get_log()), ids(&["m1"]));
}

#[test]
fn a_message_of_somebody_offline_is_stored() {
    let mut server = ChatServer::new();
    let effects = server.submit(message("m1", "a", "b", "hi"));
    assert!(effects.deliveries.is_empty());
    assert_eq!(effects.writes.len(), 1);
    assert_eq!(message_ids(&server.get_log()), ids(&["m1"]));
}

#[test]
fn handle_takes_chat_messages_only() {
    let mut server = ChatServer::new();
    connect(&mut server, "a");
    let envelope = generate_message("chat_message", MessageData::ChatMessage(message("m1", "a", "a", "x")));
    let effects = server.handle(envelope);
    assert_eq!(effects.writes.len(), 1);
    assert_eq!(server.get_log().len(), 1);
    let other = ClientMessage { header: "chat_message".to_string(), data: MessageData::String("x".to_string()) };
    let effects = server.handle(other);
    assert!(effects.deliveries.is_empty());
    assert!(effects.writes.is_empty());
    assert_eq!(server.get_log().len(), 1);
}

#[test]
fn a_message_read_before_it_was_joined() {
    let mut server = ChatServer::new();
    connect(&mut server, "u1");
    connect(&mut server, "u2");
    server.submit(message("m1", "u1", "u2", "hello"));
    assert!(!server.get_log()[0].read);
    let (found, effects) = join(&mut server, "u2", "u1");
    assert_eq!(found.len(), 1);
    assert_eq!(found[0].id, "m1");
    assert!(found[0].read);
    assert!(server.get_log()[0].read);
    assert_eq!(receivers(&effects.deliveries), ids(&["u1"]));
    assert_eq!(headers(&effects.deliveries), ids(&["read"]));
    match &effects.deliveries[0].message.data {
        MessageData::List(messages) => {
            assert_eq!(message_ids(messages), ids(&["m1"]));
            assert!(messages[0].read);
        },
        _ => panic!("expected the messages"),
    }
    assert!(effects.writes.is_empty());
    let (again, effects) = join(&mut server, "u2", "u1");
    assert_eq!(message_ids(&again), ids(&["m1"]));
    assert!(again[0].read);
    assert!(effects.deliveries.is_empty());
}

#[test]
fn nobody_is_told_when_the_sender_is_offline() {
    let mut server = ChatServer::new();
    connect(&mut server, "u1");
    server.submit(message("m1", "u1", "u2", "hello"));
    server.disconnect(Disconnect { session_id: "u1".to_string() });
    connect(&mut server, "u2");
    let (found, effects) = join(&mut server, "u2", "u1");
    assert_eq!(found.len(), 1);
    assert!(found[0].read);
    assert!(effects.deliveries.is_empty());
}

#[test]
fn a_conversation_holds_both_directions_in_order() {
    let mut server = ChatServer::new();
    connect(&mut server, "a");
    connect(&mut server, "b");
    server.submit(message("m1", "a", "b", "1"));
    server.submit(message("m2", "b", "a", "2"));
    server.submit(message("m3", "a", "c", "3"));
    server.submit(message("m4", "c", "a", "4"));
    server.submit(message("m5", "a", "b", "5"));
    let (found, _) = join(&mut server, "a", "b");
    assert_eq!(message_ids(&found), ids(&["m1", "m2", "m5"]));
    assert_eq!(found.iter().map(|m| m.read).collect::<Vec<bool>>(), vec![false, true, false]);
    let log = server.get_log();
    assert_eq!(log.iter().map(|m| m.read).collect::<Vec<bool>>(), vec![false, true, false, false, false]);
    let direct = server.get_messages("c", "a");
    assert_eq!(message_ids(&direct), ids(&["m3", "m4"]));
    assert!(direct[0].read);
    assert!(!direct[1].read);
}

#[test]
fn joining_oneself_reads_one_s_notes_silently() {
    let mut server = ChatServer::new();
    connect(&mut server, "a");
    server.submit(message("m1", "a", "a", "note"));
    let (found, effects) = join(&mut server, "a", "a");
    assert_eq!(found.len(), 1);
    assert!(found[0].read);
    assert!(effects.deliveries.is_empty());
}

#[test]
fn a_read_flag_never_goes_back() {
    let mut server = ChatServer::new();
    connect(&mut server, "a");
    connect(&mut server, "b");
    server.submit(message("m1", "a", "b", "1"));
    join(&mut server, "b", "a");
    assert!(server.get_log()[0].read);
    server.submit(message("m2", "a", "b", "2"));
    join(&mut server, "a", "b");
    server.read(Read { messages: vec![message("m2", "a", "b", "2")] });
    server.disconnect(Disconnect { session_id: "b".to_string() });
    connect(&mut server, "b");
    room_of(&mut server, "a", "r1");
    join(&mut server, "a", "r1");
    let log = server.get_log();
    assert!(log[0].read);
    assert!(log[1].read);
    assert_eq!(log[0].content, "1");
}

#[test]
fn a_report_marks_messages_by_identifier() {
    let mut server = ChatServer::new();
    connect(&mut server, "a");
    connect(&mut server, "b");
    server.submit(message("m1", "a", "b", "1"));
    server.submit(message("m2", "a", "b", "2"));
    server.submit(message("m3", "b", "a", "3"));
    let effects = server.read(Read {
        messages: vec![message("m2", "a", "b", "2"), message("zz", "q", "b", "?"), message("m1", "a", "b", "1")],
    });
    let log = server.get_log();
    assert_eq!(log.iter().map(|m| m.read).collect::<Vec<bool>>(), vec![true, true, false]);
    assert_eq!(receivers(&effects.deliveries), ids(&["a"]));
    assert_eq!(headers(&effects.deliveries), ids(&["read"]));
    match &effects.deliveries[0].message.data {
        MessageData::List(messages) => assert_eq!(message_ids(messages), ids(&["m2", "zz", "m1"])),
        _ => panic!("expected the report"),
    }
    let effects = server.read(Read { messages: Vec::new() });
    assert!(effects.deliveries.is_empty());
}

#[test]
fn a_new_room_is_announced_and_written() {
    let mut server = ChatServer::new();
    connect(&mut server, "a");
    connect(&mut server, "b");
    let (id, effects) = server.create_room(CreateRoom { sender_id: "a".to_string(), name: "Lobby".to_string() });
    assert_eq!(id.chars().count(), 36);
    assert_eq!(receivers(&effects.deliveries), ids(&["a", "b"]));
    assert_eq!(headers(&effects.deliveries), ids(&["room", "room"]));
    match &effects.deliveries[0].message.data {
        MessageData::Room(RoomData::Room(room)) => {
            assert_eq!(room.id, id);
            assert_eq!(room.name, "Lobby");
            assert_eq!(room.users, ids(&["a"]));
            assert!(room.messages.is_empty());
        },
        _ => panic!("expected the room"),
    }
    match &effects.writes[0] {
        DbWrite::Room(write) => {
            assert_eq!(write.admin_id, "a");
            assert_eq!(write.room.id, id);
        },
        _ => panic!("expected a room to be written"),
    }
    let (other, _) = server.create_room(CreateRoom { sender_id: "b".to_string(), name: "Den".to_string() });
    assert_ne!(id, other);
    assert_eq!(server.get_rooms().len(), 2);
}

#[test]
fn joining_a_room_makes_a_member_once() {
    let mut server = ChatServer::new();
    connect(&mut server, "a");
    connect(&mut server, "b");
    room_of(&mut server, "a", "r1");
    let (found, effects) = join(&mut server, "b", "r1");
    assert!(found.is_empty());
    assert_eq!(receivers(&effects.deliveries), ids(&["a", "b"]));
    assert_eq!(headers(&effects.deliveries), ids(&["room", "room"]));
    match &effects.deliveries[0].message.data {
        MessageData::Room(RoomData::Joined((who, room))) => {
            assert_eq!(who, "b");
            assert_eq!(room, "r1");
        },
        _ => panic!("expected a join"),
    }
    assert_eq!(effects.writes.len(), 1);
    match &effects.writes[0] {
        DbWrite::RoomConnection(write) => {
            assert_eq!(write.room_id, "r1");
            assert_eq!(write.user_id, "b");
        },
        _ => panic!("expected a membership to be written"),
    }
    assert_eq!(server.get_rooms()[0].users, ids(&["a", "b"]));
    let (_, effects) = join(&mut server, "b", "r1");
    assert!(effects.deliveries.is_empty());
    assert_eq!(effects.writes.len(), 1);
    let (_, effects) = join(&mut server, "a", "r1");
    assert!(effects.deliveries.is_empty());
    assert_eq!(server.get_rooms()[0].users, ids(&["a", "b"]));
}

#[test]
fn a_room_message_reaches_those_who_look_at_the_room() {
    let mut server = ChatServer::new();
    connect(&mut server, "a");
    connect(&mut server, "b");
    connect(&mut server, "c");
    room_of(&mut server, "a", "r1");
    join(&mut server, "a", "r1");
    join(&mut server, "b", "r1");
    join(&mut server, "c", "r1");
    join(&mut server, "c", "a");
    server.disconnect(Disconnect { session_id: "b".to_string() });
    let effects = server.submit(message("m1", "c", "r1", "hi all"));
    assert_eq!(receivers(&effects.deliveries), ids(&["a"]));
    assert_eq!(headers(&effects.deliveries), ids(&["chat_message"]));
    match &effects.writes[0] {
        DbWrite::ChatMessage(write) => assert!(write.is_room),
        _ => panic!("expected a message to be written"),
    }
    assert_eq!(message_ids(&server.get_log()), ids(&["m1"]));
    assert_eq!(message_ids(&server.get_rooms()[0].messages), ids(&["m1"]));
}

#[test]
fn every_join_returns_the_whole_room_log() {
    let mut server = ChatServer::new();
    connect(&mut server, "a");
    connect(&mut server, "b");
    connect(&mut server, "c");
    room_of(&mut server, "a", "r1");
    server.submit(message("m1", "a", "r1", "1"));
    server.submit(message("m2", "b", "r1", "2"));
    let (found, _) = join(&mut server, "c", "r1");
    assert_eq!(message_ids(&found), ids(&["m1", "m2"]));
    server.submit(message("m3", "c", "r1", "3"));
    server.submit(message("p1", "a", "b", "private"));
    server.disconnect(Disconnect { session_id: "c".to_string() });
    room_of(&mut server, "b", "r2");
    let (found, _) = join(&mut server, "b", "r1");
    assert_eq!(message_ids(&found), ids(&["m1", "m2", "m3"]));
    assert!(found.iter().all(|m| !m.read));
    let (found, _) = join(&mut server, "a", "r1");
    assert_eq!(message_ids(&found), ids(&["m1", "m2", "m3"]));
    let (found, _) = join(&mut server, "a", "r2");
    assert!(found.is_empty());
}

#[test]
fn the_messages_of_one_user() {
    let mut server = ChatServer::new();
    server.submit(message("m1", "a", "b", "1"));
    server.submit(message("m2", "c", "d", "2"));
    server.submit(message("m3", "b", "a", "3"));
    server.submit(message("m4", "a", "a", "4"));
    assert_eq!(message_ids(&server.get_private_messages("a")), ids(&["m1", "m3", "m4"]));
    assert_eq!(message_ids(&server.get_private_messages("d")), ids(&["m2"]));
    assert!(server.get_private_messages("z").is_empty());
    assert!(server.get_log().iter().all(|m| !m.read));
}

#[test]
fn the_delivery_helpers() {
    let mut server = ChatServer::new();
    connect(&mut server, "a");
    connect(&mut server, "b");
    connect(&mut server, "c");
    room_of(&mut server, "a", "r1");
    join(&mut server, "b", "r1");
    join(&mut server, "ghost", "r1");
    join(&mut server, "c", "b");
    let note = generate_message("note", MessageData::String("x".to_string()));
    assert_eq!(receivers(&server.broadcast(note.clone())), ids(&["a", "b", "c"]));
    assert_eq!(receivers(&server.send_direct("b", note.clone())), ids(&["b"]));
    assert!(server.send_direct("ghost", note.clone()).is_empty());
    assert_eq!(receivers(&server.send("c", note.clone())), ids(&["b"]));
    assert!(server.send("b", note.clone()).is_empty());
    assert!(server.send("nobody", note.clone()).is_empty());
    assert_eq!(receivers(&server.room_broadcast("r1", note.clone())), ids(&["a", "b"]));
    assert!(server.room_broadcast("r9", note).is_empty());
}

#[test]
fn cleaning_drops_the_entries_that_point_at_the_gone() {
    let mut server = ChatServer::new();
    connect(&mut server, "a");
    connect(&mut server, "b");
    connect(&mut server, "c");
    join(&mut server, "a", "c");
    join(&mut server, "b", "c");
    server.clean_rooms("c");
    assert_eq!(server.get_focus("a"), None);
    assert_eq!(server.get_focus("b"), None);
    assert_eq!(server.get_focus("c"), None);
    join(&mut server, "a", "b");
    server.clean_rooms("c");
    assert_eq!(server.get_focus("a"), Some("b".to_string()));
}
