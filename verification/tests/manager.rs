use ez_chat::chat::models::ChatUser;
use ez_chat::connection::Connect;
use ez_chat::db::DbWrite;
use ez_chat::envelope::{MessageData, Outbound};
use ez_chat::rps::manager::{take_turn, RPSManager};
use ez_chat::rps::models::{Action, Event, Init, RPSAction, RPSData};
use ez_chat::rps::game::RPS;

fn ids(names: &[&str]) -> Vec<String> {
    names.iter().map(|n| n.to_string()).collect()
}

fn connect(manager: &mut RPSManager, id: &str) -> Vec<Outbound> {
    let user = ChatUser { id: id.to_string(), username: id.to_uppercase(), connected: true };
    manager.connect(&Connect { user }).deliveries
}

fn act(manager: &mut RPSManager, game: &str, sender: &str, action: RPSAction) -> (RPSData, Vec<Outbound>, Vec<DbWrite>) {
    let msg = Action { game_id: game.to_string(), sender_id: sender.to_string(), action };
    match manager.act(msg) {
        Ok((reply, effects)) => (reply, effects.deliveries, effects.writes),
        Err(e) => panic!("unexpected error: {}", e.message),
    }
}

fn event_of(out: &Outbound) -> (String, Event) {
    assert_eq!(out.message.header, "rps");
    match &out.message.data {
        MessageData::RPS(RPSData::Update(update)) => (update.game_id.clone(), update.event.clone()),
        _ => panic!("expected an update"),
    }
}

fn receivers(out: &[Outbound]) -> Vec<String> {
    out.iter().map(|o| o.to.clone()).collect()
}

fn two_player_game(gg_score: usize) -> RPSManager {
    let mut manager = RPSManager::with_names(ids(&["Duel"]));
    connect(&mut manager, "a");
    connect(&mut manager, "b");
    connect(&mut manager, "watcher");
    manager.register_game_as(ids(&["a", "b"]), "a".to_string(), gg_score, "g1".to_string(), "Duel".to_string());
    act(&mut manager, "g1", "b", RPSAction::Join);
    manager
}

#[test]
fn a_new_engine_is_empty() {
    let manager = RPSManager::new();
    assert!(manager.get_games().is_empty());
    assert!(manager.get_sessions().is_empty());
}

#[test]
fn a_connecting_session_is_sent_every_game() {
    let mut manager = RPSManager::new();
    let first = connect(&mut manager, "a");
    assert_eq!(first.len(), 1);
    assert_eq!(first[0].to, "a");
    assert_eq!(first[0].message.header, "rps");
    match &first[0].message.data {
        MessageData::RPS(RPSData::Rooms(games)) => assert!(games.is_empty()),
        _ => panic!("expected the list of games"),
    }
    manager.register_game_as(ids(&["a", "b"]), "a".to_string(), 2, "g1".to_string(), "Duel".to_string());
    let second = connect(&mut manager, "b");
    match &second[0].message.data {
        MessageData::RPS(RPSData::Rooms(games)) => {
            assert_eq!(games.len(), 1);
            assert_eq!(games[0].id, "g1");
        },
        _ => panic!("expected the list of games"),
    }
    connect(&mut manager, "a");
    assert_eq!(manager.get_sessions(), ids(&["a", "b"]));
}

#[test]
fn a_registered_game_goes_to_every_session() {
    let mut manager = RPSManager::with_names(ids(&["Duel"]));
    connect(&mut manager, "a");
    connect(&mut manager, "z");
    let (game, effects) =
        manager.register_game_as(ids(&["a", "b"]), "a".to_string(), 2, "g1".to_string(), "Duel".to_string());
    assert_eq!(game.id, "g1");
    assert_eq!(game.name, "Duel");
    assert_eq!(game.connections, ids(&["a"]));
    assert_eq!(receivers(&effects.deliveries), ids(&["a", "z"]));
    assert!(effects.writes.is_empty());
    for out in &effects.deliveries {
        assert_eq!(out.message.header, "rps");
        match &out.message.data {
            MessageData::RPS(RPSData::State(state)) => assert_eq!(state.id, "g1"),
            _ => panic!("expected the state of the game"),
        }
    }
    assert_eq!(manager.get_games().len(), 1);
}

#[test]
fn fresh_games_get_fresh_identifiers_and_pool_names() {
    let mut manager = RPSManager::with_names(ids(&["One", "Two"]));
    let (first, _) = manager.register_game(ids(&["a", "b"]), "a".to_string(), 2);
    let (second, _) = manager.register_game(ids(&["a", "b"]), "a".to_string(), 2);
    assert_eq!(first.id.chars().count(), 36);
    assert_ne!(first.id, second.id);
    assert!(first.name == "One" || first.name == "Two");
    assert_eq!(manager.get_games().len(), 2);
}

#[test]
fn init_opens_a_game_when_the_host_plays() {
    let mut manager = RPSManager::new();
    connect(&mut manager, "a");
    let init = Init { host: "a".to_string(), players: ids(&["a", "b"]), gg_score: 3 };
    match manager.handle(RPSData::Init(init)) {
        Ok((RPSData::State(game), effects)) => {
            assert_eq!(game.host, "a");
            assert_eq!(game.gg_score, 3);
            assert_eq!(receivers(&effects.deliveries), ids(&["a"]));
        },
        _ => panic!("expected the state of the new game"),
    }
    let init = Init { host: "z".to_string(), players: ids(&["a", "b"]), gg_score: 3 };
    match manager.handle(RPSData::Init(init)) {
        Ok((RPSData::Nothing, effects)) => assert!(effects.deliveries.is_empty()),
        _ => panic!("expected nothing"),
    }
    assert_eq!(manager.get_games().len(), 1);
}

#[test]
fn what_is_no_request_is_ignored() {
    let mut manager = two_player_game(2);
    match manager.handle(RPSData::Nothing) {
        Ok((RPSData::Nothing, effects)) => {
            assert!(effects.deliveries.is_empty());
            assert!(effects.writes.is_empty());
        },
        _ => panic!("expected nothing"),
    }
    match manager.handle(RPSData::Rooms(Vec::new())) {
        Ok((RPSData::Nothing, _)) => {},
        _ => panic!("expected nothing"),
    }
}

#[test]
fn an_unknown_game_is_an_error_that_changes_nothing() {
    let mut manager = two_player_game(2);
    let msg = Action { game_id: "nope".to_string(), sender_id: "a".to_string(), action: RPSAction::Join };
    match manager.act(msg) {
        Err(e) => assert_eq!(e.message, "Unknown game"),
        Ok(_) => panic!("expected an error"),
    }
    let msg = Action { game_id: "nope".to_string(), sender_id: "a".to_string(), action: RPSAction::Choose('r') };
    assert!(manager.handle(RPSData::Action(msg)).is_err());
    assert_eq!(manager.get_games().len(), 1);
    assert_eq!(manager.get_games()[0].connections, ids(&["a", "b"]));
}

#[test]
fn a_player_joins_once() {
    let mut manager = RPSManager::with_names(ids(&["Duel"]));
    connect(&mut manager, "a");
    connect(&mut manager, "b");
    connect(&mut manager, "watcher");
    manager.register_game_as(ids(&["a", "b"]), "a".to_string(), 2, "g1".to_string(), "Duel".to_string());
    let (reply, out, _) = act(&mut manager, "g1", "b", RPSAction::Join);
    match reply {
        RPSData::State(game) => assert_eq!(game.connections, ids(&["a", "b"])),
        _ => panic!("expected the state of the game"),
    }
    assert_eq!(receivers(&out), ids(&["a", "b"]));
    match event_of(&out[0]) {
        (game, Event::PlayerConnected(player)) => {
            assert_eq!(game, "g1");
            assert_eq!(player, "b");
        },
        _ => panic!("expected a player to connect"),
    }
    let (reply, out, _) = act(&mut manager, "g1", "b", RPSAction::Join);
    assert!(matches!(reply, RPSData::Nothing));
    assert!(out.is_empty());
    let (reply, out, _) = act(&mut manager, "g1", "watcher", RPSAction::Join);
    assert!(matches!(reply, RPSData::Nothing));
    assert!(out.is_empty());
    assert_eq!(manager.get_games()[0].connections, ids(&["a", "b"]));
}

#[test]
fn only_the_host_sets_fast_mode() {
    let mut manager = two_player_game(2);
    let (reply, out, _) = act(&mut manager, "g1", "b", RPSAction::FastMode(true));
    assert!(matches!(reply, RPSData::Nothing));
    assert_eq!(receivers(&out), ids(&["a", "b"]));
    assert!(matches!(event_of(&out[0]).1, Event::FastToggled(false)));
    assert!(!manager.get_games()[0].fast_mode);
    let (_, out, _) = act(&mut manager, "g1", "a", RPSAction::FastMode(true));
    assert!(matches!(event_of(&out[1]).1, Event::FastToggled(true)));
    assert!(manager.get_games()[0].fast_mode);
}

#[test]
fn a_round_is_resolved_by_its_last_choice() {
    let mut manager = two_player_game(2);
    let (reply, out, writes) = act(&mut manager, "g1", "a", RPSAction::Choose('r'));
    assert!(matches!(reply, RPSData::Nothing));
    assert!(out.is_empty());
    assert!(writes.is_empty());
    let (_, out, _) = act(&mut manager, "g1", "a", RPSAction::Choose('r'));
    assert!(out.is_empty());
    let (reply, out, writes) = act(&mut manager, "g1", "b", RPSAction::Choose('s'));
    assert!(matches!(reply, RPSData::Nothing));
    assert!(writes.is_empty());
    assert_eq!(receivers(&out), ids(&["a", "b", "a", "b"]));
    match event_of(&out[0]).1 {
        Event::Choices(choices) => {
            assert_eq!(choices, vec![("a".to_string(), 'r'), ("b".to_string(), 's')])
        },
        _ => panic!("expected the choices"),
    }
    match event_of(&out[2]).1 {
        Event::Winner(w) => assert_eq!(w, "a"),
        _ => panic!("expected a winner"),
    }
    let game = &manager.get_games()[0];
    assert!(game.choices.is_empty());
    assert!(game.excluded.is_empty());
    assert!(!game.game_over);
    assert_eq!(game.scores, vec![("a".to_string(), 1), ("b".to_string(), 0)]);
    let (_, out, _) = act(&mut manager, "g1", "b", RPSAction::Choose('s'));
    assert!(out.is_empty());
    assert_eq!(manager.get_games()[0].choices, vec![("b".to_string(), 's')]);
}

#[test]
fn reaching_the_score_ends_the_game() {
    let mut manager = two_player_game(1);
    act(&mut manager, "g1", "a", RPSAction::Choose('r'));
    let (_, out, writes) = act(&mut manager, "g1", "b", RPSAction::Choose('s'));
    assert_eq!(receivers(&out), ids(&["a", "b", "a", "b", "a", "b"]));
    assert!(matches!(event_of(&out[0]).1, Event::Choices(_)));
    assert!(matches!(event_of(&out[2]).1, Event::Winner(_)));
    match event_of(&out[4]).1 {
        Event::GG(game) => assert_eq!(game, "g1"),
        _ => panic!("expected the end of the game"),
    }
    assert_eq!(writes.len(), 1);
    match &writes[0] {
        DbWrite::HoFEntry(entry) => assert_eq!(entry.user_id, "a"),
        _ => panic!("expected a hall of fame entry"),
    }
    let game = &manager.get_games()[0];
    assert!(game.game_over);
    assert_eq!(game.scores[0], ("a".to_string(), 1));
    let (reply, out, writes) = act(&mut manager, "g1", "a", RPSAction::Choose('r'));
    assert!(matches!(reply, RPSData::Nothing));
    assert!(out.is_empty());
    assert!(writes.is_empty());
    assert!(manager.get_games()[0].choices.is_empty());
}

#[test]
fn a_draw_changes_no_score() {
    let mut manager = RPSManager::with_names(ids(&["Duel"]));
    for p in ["a", "b", "c"] {
        connect(&mut manager, p);
    }
    manager.register_game_as(ids(&["a", "b", "c"]), "a".to_string(), 2, "g1".to_string(), "Duel".to_string());
    act(&mut manager, "g1", "b", RPSAction::Join);
    act(&mut manager, "g1", "c", RPSAction::Join);
    act(&mut manager, "g1", "a", RPSAction::Choose('r'));
    act(&mut manager, "g1", "b", RPSAction::Choose('s'));
    let (_, out, writes) = act(&mut manager, "g1", "c", RPSAction::Choose('p'));
    assert!(writes.is_empty());
    assert_eq!(receivers(&out), ids(&["a", "b", "c", "a", "b", "c"]));
    match event_of(&out[3]).1 {
        Event::Exclude(lost) => assert!(lost.is_empty()),
        _ => panic!("expected nobody to be excluded"),
    }
    let game = &manager.get_games()[0];
    assert!(game.excluded.is_empty());
    assert!(game.choices.is_empty());
    assert!(game.scores.iter().all(|(_, score)| *score == 0));
}

#[test]
fn a_tie_break_narrows_until_one_wins() {
    let mut manager = RPSManager::with_names(ids(&["Duel"]));
    for p in ["a", "b", "c"] {
        connect(&mut manager, p);
    }
    manager.register_game_as(ids(&["a", "b", "c"]), "a".to_string(), 5, "g1".to_string(), "Duel".to_string());
    act(&mut manager, "g1", "b", RPSAction::Join);
    act(&mut manager, "g1", "c", RPSAction::Join);
    act(&mut manager, "g1", "a", RPSAction::Choose('p'));
    act(&mut manager, "g1", "b", RPSAction::Choose('r'));
    let (_, out, _) = act(&mut manager, "g1", "c", RPSAction::Choose('p'));
    match event_of(&out[3]).1 {
        Event::Exclude(lost) => assert_eq!(lost, ids(&["b"])),
        _ => panic!("expected the loser to be excluded"),
    }
    assert_eq!(manager.get_games()[0].excluded, ids(&["b"]));
    let (_, out, _) = act(&mut manager, "g1", "b", RPSAction::Choose('x'));
    assert!(out.is_empty());
    assert!(manager.get_games()[0].choices.is_empty());
    act(&mut manager, "g1", "a", RPSAction::Choose('s'));
    let (_, out, _) = act(&mut manager, "g1", "c", RPSAction::Choose('p'));
    match event_of(&out[3]).1 {
        Event::Winner(w) => assert_eq!(w, "a"),
        _ => panic!("expected a winner"),
    }
    let game = &manager.get_games()[0];
    assert!(game.excluded.is_empty());
    assert_eq!(game.scores[0], ("a".to_string(), 1));
}

#[test]
fn somebody_who_is_not_connected_cannot_choose() {
    let mut manager = two_player_game(2);
    let (reply, out, _) = act(&mut manager, "g1", "watcher", RPSAction::Choose('r'));
    assert!(matches!(reply, RPSData::Nothing));
    assert!(out.is_empty());
    assert!(manager.get_games()[0].choices.is_empty());
}

#[test]
fn broadcasts_reach_the_right_sessions() {
    let manager = two_player_game(2);
    let game = manager.get_games().remove(0);
    assert_eq!(receivers(&manager.broadcast(&game)), ids(&["a", "b", "watcher"]));
    let out = manager.room_broadcast(&game, RPSData::Nothing);
    assert_eq!(receivers(&out), ids(&["a", "b"]));
    assert_eq!(out[0].message.header, "rps");
    assert!(matches!(out[0].message.data, MessageData::RPS(RPSData::Nothing)));
    let message = ez_chat::envelope::generate_message("rps", MessageData::RPS(RPSData::Nothing));
    assert_eq!(receivers(&manager.send_direct("b", message.clone())), ids(&["b"]));
    assert!(manager.send_direct("nobody", message).is_empty());
}

#[test]
fn a_turn_can_be_taken_on_a_game_alone() {
    let mut game = RPS::named(ids(&["a", "b"]), "a".to_string(), "g1", 1, "Duel".to_string());
    let out = take_turn(&mut game, "b".to_string(), RPSAction::Join);
    assert!(out.show);
    assert!(out.champion.is_none());
    assert_eq!(out.events.len(), 1);
    take_turn(&mut game, "a".to_string(), RPSAction::Choose('p'));
    let out = take_turn(&mut game, "b".to_string(), RPSAction::Choose('s'));
    assert_eq!(out.champion, Some("b".to_string()));
    assert_eq!(out.events.len(), 3);
    assert!(!out.show);
    assert!(game.game_over);
}
