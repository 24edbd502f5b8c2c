use ez_chat::chat::models::ChatMessage;
use ez_chat::chat::room::PublicRoom;

fn ids(names: &[&str]) -> Vec<String> {
    names.iter().map(|n| n.to_string()).collect()
}

#[test]
fn a_room_starts_with_its_founder() {
    let room = PublicRoom::new_insert("r1", "a", "Lobby");
    assert_eq!(room.id, "r1");
    assert_eq!(room.name, "Lobby");
    assert_eq!(room.users, ids(&["a"]));
    assert!(room.messages.is_empty());
    assert!(room.has_user("a"));
    assert!(!room.has_user("b"));
}

#[test]
fn members_come_and_go() {
    let mut room = PublicRoom::new_insert("r1", "a", "Lobby");
    room.set_user("b");
    room.set_user("a");
    assert_eq!(room.get_user_ids(), ids(&["a", "b"]));
    room.remove_user("a");
    room.remove_user("zz");
    assert_eq!(room.get_user_ids(), ids(&["b"]));
    assert!(!room.has_user("a"));
}

#[test]
fn a_room_keeps_its_messages_in_order() {
    let mut room = PublicRoom::new_insert("r1", "a", "Lobby");
    for id in ["m1", "m2"] {
        room.store_message(ChatMessage {
            id: id.to_string(),
            sender_id: "a".to_string(),
            receiver_id: "r1".to_string(),
            content: "x".to_string(),
            read: false,
        });
    }
    let messages = room.get_messages();
    assert_eq!(messages.len(), 2);
    assert_eq!(messages[0].id, "m1");
    assert_eq!(messages[1].id, "m2");
    let copy = room.clone();
    assert_eq!(copy.messages.len(), 2);
    assert_eq!(copy.users, room.users);
}
