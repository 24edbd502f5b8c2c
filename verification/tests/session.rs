use ez_chat::chat::models::{ChatMessage, CreateRoom, Join};
use ez_chat::envelope::MessageData;
use ez_chat::ez_handler::{get_header, handle, route, Request, Route};
use ez_chat::rps::models::{RPSData, RPSError};
use ez_chat::session::{CloseReason, Command, WsChatSession, WsFrame, CLIENT_TIMEOUT, HEARTBEAT_INTERVAL};

fn session() -> WsChatSession {
    WsChatSession::new("u1".to_string(), "Una".to_string(), 100)
}

fn message(id: &str) -> ChatMessage {
    ChatMessage {
        id: id.to_string(),
        sender_id: "a".to_string(),
        receiver_id: "b".to_string(),
        content: "x".to_string(),
        read: false,
    }
}

fn is_farewell(commands: &[Command], id: &str) -> bool {
    commands.len() == 2
        && matches!(&commands[0], Command::Disconnect(d) if d.session_id == id)
        && matches!(commands[1], Command::Stop)
}

fn disconnects(commands: &[Command]) -> usize {
    commands.iter().filter(|c| matches!(c, Command::Disconnect(_))).count()
}

#[test]
fn the_times_of_the_heartbeat() {
    assert_eq!(HEARTBEAT_INTERVAL, 5);
    assert_eq!(CLIENT_TIMEOUT, 10);
    assert_eq!(CLIENT_TIMEOUT, 2 * HEARTBEAT_INTERVAL);
}

#[test]
fn a_new_session_looks_at_itself() {
    let s = session();
    assert_eq!(s.id, "u1");
    assert_eq!(s.username, "Una");
    assert_eq!(s.room, "u1");
    assert_eq!(s.heartbeat, 100);
    assert!(!s.gone);
}

#[test]
fn starting_announces_the_connection() {
    let mut s = session();
    let commands = s.started();
    assert_eq!(commands.len(), 1);
    match &commands[0] {
        Command::Connect(connect) => {
            assert_eq!(connect.user.id, "u1");
            assert_eq!(connect.user.username, "Una");
            assert!(connect.user.connected);
        },
        _ => panic!("expected the connection to be announced"),
    }
}

#[test]
fn a_client_that_is_alive_is_probed() {
    let mut s = session();
    assert!(matches!(s.hb(105)[..], [Command::Ping]));
    assert!(matches!(s.hb(110)[..], [Command::Ping]));
    assert!(matches!(s.hb(90)[..], [Command::Ping]));
    assert!(!s.gone);
}

#[test]
fn a_silent_client_is_given_up() {
    let mut s = session();
    let commands = s.hb(111);
    assert!(is_farewell(&commands, "u1"));
    assert!(s.gone);
    assert!(s.hb(200).is_empty());
    assert!(s.stopping().is_empty());
    assert!(s.started().is_empty());
}

#[test]
fn a_sign_of_life_moves_the_heartbeat() {
    let mut s = session();
    let commands = s.handle(Ok(WsFrame::Ping(vec![1, 2, 3])), 108);
    assert_eq!(commands.len(), 1);
    match &commands[0] {
        Command::Pong(bytes) => assert_eq!(bytes, &vec![1, 2, 3]),
        _ => panic!("expected a pong"),
    }
    assert_eq!(s.heartbeat, 108);
    assert!(matches!(s.hb(118)[..], [Command::Ping]));
    assert!(s.handle(Ok(WsFrame::Pong(Vec::new())), 120).is_empty());
    assert_eq!(s.heartbeat, 120);
    assert!(is_farewell(&s.hb(131), "u1"));
}

#[test]
fn frames_that_say_nothing() {
    let mut s = session();
    assert!(s.handle(Ok(WsFrame::Binary(vec![7])), 101).is_empty());
    assert!(s.handle(Ok(WsFrame::Nop), 101).is_empty());
    assert_eq!(s.heartbeat, 100);
    assert!(!s.gone);
}

#[test]
fn a_failed_read_ends_the_supervision() {
    let mut s = session();
    assert!(is_farewell(&s.handle(Err(()), 101), "u1"));
    assert!(s.gone);
    assert!(s.handle(Ok(WsFrame::Ping(Vec::new())), 102).is_empty());
    assert_eq!(s.heartbeat, 100);
}

#[test]
fn a_continuation_ends_the_supervision() {
    let mut s = session();
    assert!(is_farewell(&s.handle(Ok(WsFrame::Continuation), 101), "u1"));
}

#[test]
fn a_close_is_answered_and_ends_the_supervision() {
    let mut s = session();
    let reason = CloseReason { code: 1000, description: Some("bye".to_string()) };
    let commands = s.handle(Ok(WsFrame::Close(Some(reason))), 101);
    assert_eq!(commands.len(), 3);
    match &commands[0] {
        Command::Close(Some(reason)) => {
            assert_eq!(reason.code, 1000);
            assert_eq!(reason.description, Some("bye".to_string()));
        },
        _ => panic!("expected the close to be answered"),
    }
    assert!(is_farewell(&commands[1..], "u1"));
    assert!(s.stopping().is_empty());
}

#[test]
fn the_disconnect_is_announced_once() {
    let mut s = session();
    let mut all = Vec::new();
    all.extend(s.started());
    all.extend(s.hb(105));
    all.extend(s.handle(Ok(WsFrame::Text("not json".to_string())), 106));
    all.extend(s.handle(Err(()), 107));
    all.extend(s.hb(500));
    all.extend(s.stopping());
    all.extend(s.rps_reply(Err(RPSError { message: "Unknown game" })));
    assert_eq!(disconnects(&all), 1);
    let mut t = session();
    let mut all = Vec::new();
    all.extend(t.started());
    all.extend(t.hb(105));
    assert_eq!(disconnects(&all), 0);
    all.extend(t.stopping());
    all.extend(t.stopping());
    assert_eq!(disconnects(&all), 1);
}

#[test]
fn the_header_of_an_envelope() {
    assert_eq!(get_header("{\"header\":\"join\",\"data\":{\"id\":\"a\",\"room_id\":\"b\"}}".to_string()), Some("join".to_string()));
    assert_eq!(get_header("  {\"data\": 1, \"header\": \"rps\"} ".to_string()), Some("rps".to_string()));
    assert_eq!(get_header("{\"header\":\"\"}".to_string()), Some(String::new()));
    assert_eq!(get_header("{\"header\":7}".to_string()), None);
    assert_eq!(get_header("{\"data\":{}}".to_string()), None);
    assert_eq!(get_header("[\"header\"]".to_string()), None);
    assert_eq!(get_header("header".to_string()), None);
    assert_eq!(get_header(String::new()), None);
}

#[test]
fn the_route_of_a_header() {
    assert_eq!(route(&"chat_message".to_string()), Route::ChatMessage);
    assert_eq!(route(&"join".to_string()), Route::Join);
    assert_eq!(route(&"read".to_string()), Route::Read);
    assert_eq!(route(&"create_room".to_string()), Route::CreateRoom);
    assert_eq!(route(&"rps".to_string()), Route::Rps);
    assert_eq!(route(&"lol".to_string()), Route::Lol);
    assert_eq!(route(&"JOIN".to_string()), Route::Bad);
    assert_eq!(route(&String::new()), Route::Bad);
}

#[test]
fn a_text_frame_asks_for_its_payload() {
    let mut s = session();
    let text = "{\"header\":\"join\",\"data\":{\"id\":\"u1\",\"room_id\":\"u2\"}}".to_string();
    let commands = s.handle(Ok(WsFrame::Text(text.clone())), 101);
    assert_eq!(commands.len(), 1);
    match &commands[0] {
        Command::Parse(to, payload) => {
            assert_eq!(*to, Route::Join);
            assert_eq!(payload, &text);
        },
        _ => panic!("expected a payload to parse"),
    }
    assert_eq!(s.heartbeat, 100);
}

#[test]
fn a_greeting_is_answered_on_the_spot() {
    let mut s = session();
    let commands = s.handle(Ok(WsFrame::Text("{\"header\":\"lol\"}".to_string())), 101);
    assert_eq!(commands.len(), 1);
    match &commands[0] {
        Command::Text(message) => {
            assert_eq!(message.header, "lel");
            assert!(matches!(&message.data, MessageData::String(text) if text == "lel"));
        },
        _ => panic!("expected an answer"),
    }
}

#[test]
fn an_unknown_header_is_ignored() {
    let mut s = session();
    assert!(s.handle(Ok(WsFrame::Text("{\"header\":\"what\"}".to_string())), 101).is_empty());
    assert!(!s.gone);
}

#[test]
fn a_malformed_envelope_ends_the_supervision() {
    let mut s = session();
    assert!(is_farewell(&s.handle(Ok(WsFrame::Text("{\"header\":".to_string())), 101), "u1"));
    assert!(s.gone);
    let mut t = session();
    assert!(is_farewell(&t.on_text(None, "x".to_string()), "u1"));
    let mut u = session();
    let commands = u.on_text(Some("read".to_string()), "x".to_string());
    assert!(matches!(&commands[..], [Command::Parse(Route::Read, text)] if text == "x"));
}

#[test]
fn a_payload_becomes_the_request_of_its_route() {
    let chat = handle(Route::ChatMessage, MessageData::ChatMessage(message("m1")));
    match chat {
        Request::Chat(envelope) => {
            assert_eq!(envelope.header, "chat_message");
            assert!(matches!(&envelope.data, MessageData::ChatMessage(m) if m.id == "m1"));
        },
        _ => panic!("expected a chat message"),
    }
    let join = Join { id: "a".to_string(), room_id: "b".to_string() };
    assert!(matches!(handle(Route::Join, MessageData::Join(join)), Request::Join(j) if j.room_id == "b"));
    assert!(matches!(
        handle(Route::Read, MessageData::List(vec![message("m1"), message("m2")])),
        Request::Read(read) if read.messages.len() == 2
    ));
    let room = CreateRoom { sender_id: "a".to_string(), name: "Lobby".to_string() };
    assert!(matches!(handle(Route::CreateRoom, MessageData::CreateRoom(room)), Request::CreateRoom(r) if r.name == "Lobby"));
    assert!(matches!(handle(Route::Rps, MessageData::RPS(RPSData::Nothing)), Request::Rps(RPSData::Nothing)));
    assert!(matches!(handle(Route::Join, MessageData::String("x".to_string())), Request::Nothing));
    assert!(matches!(handle(Route::Rps, MessageData::ChatMessage(message("m1"))), Request::Nothing));
    assert!(matches!(handle(Route::Lol, MessageData::String("x".to_string())), Request::Nothing));
    assert!(matches!(handle(Route::Bad, MessageData::ChatMessage(message("m1"))), Request::Nothing));
}

#[test]
fn a_session_passes_requests_on() {
    let mut s = session();
    let commands = s.dispatch(Route::ChatMessage, MessageData::ChatMessage(message("m1")));
    assert!(matches!(&commands[..], [Command::Chat(envelope)] if envelope.header == "chat_message"));
    let join = Join { id: "u1".to_string(), room_id: "r1".to_string() };
    let commands = s.dispatch(Route::Join, MessageData::Join(join));
    assert!(matches!(&commands[..], [Command::Join(j)] if j.id == "u1" && j.room_id == "r1"));
    assert_eq!(s.room, "u1");
    let commands = s.dispatch(Route::Read, MessageData::List(vec![message("m1")]));
    assert!(matches!(&commands[..], [Command::Read(read)] if read.messages.len() == 1));
    let room = CreateRoom { sender_id: "u1".to_string(), name: "Lobby".to_string() };
    let commands = s.dispatch(Route::CreateRoom, MessageData::CreateRoom(room));
    assert!(matches!(&commands[..], [Command::CreateRoom(r)] if r.sender_id == "u1"));
    let commands = s.dispatch(Route::Rps, MessageData::RPS(RPSData::Nothing));
    assert!(matches!(&commands[..], [Command::Rps(RPSData::Nothing)]));
    assert!(s.dispatch(Route::Rps, MessageData::String("x".to_string())).is_empty());
    s.stopping();
    assert!(s.dispatch(Route::ChatMessage, MessageData::ChatMessage(message("m1"))).is_empty());
}

#[test]
fn the_answer_to_a_join_is_written_if_it_says_something() {
    let mut s = session();
    assert!(s.join_reply(Vec::new()).is_empty());
    let commands = s.join_reply(vec![message("m1"), message("m2")]);
    assert_eq!(commands.len(), 1);
    match &commands[0] {
        Command::Text(envelope) => {
            assert_eq!(envelope.header, "read");
            assert!(matches!(&envelope.data, MessageData::List(messages) if messages.len() == 2));
        },
        _ => panic!("expected the messages to be written"),
    }
    s.stopping();
    assert!(s.join_reply(vec![message("m1")]).is_empty());
}

#[test]
fn the_answer_of_the_engine_is_written() {
    let mut s = session();
    let commands = s.rps_reply(Ok(RPSData::Nothing));
    assert_eq!(commands.len(), 1);
    match &commands[0] {
        Command::Text(envelope) => {
            assert_eq!(envelope.header, "rps");
            assert!(matches!(envelope.data, MessageData::RPS(RPSData::Nothing)));
        },
        _ => panic!("expected the answer to be written"),
    }
    assert!(!s.gone);
    let commands = s.rps_reply(Err(RPSError { message: "Unknown game" }));
    assert!(is_farewell(&commands, "u1"));
    assert!(s.gone);
}
