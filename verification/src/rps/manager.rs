//! The engine: every game, and the sessions that hear about them.
use crate::chance::fresh_id;
use crate::chat::models::copy_ids;
use crate::connection::Connect;
use crate::db::{DbWrite, DbWriteView, StoreHoFEntry};
use crate::envelope::{
    deliver_to_all, fan_out, generate_message, no_effects, ClientMessageView, Effects, EffectsView,
    MessageData, MessageDataView, Outbound, OutboundView,
};
use crate::ids::{
    common, common_ids, contains_id, first_index, insert_id, lemma_first_at, lemma_first_index,
    lemma_minus, lemma_minus_holds, lemma_minus_len, lemma_with_id_distinct, with_id, };
use crate::rps::game::{
    epic_words, generate_epic_word, lemma_new_game_wf, lemma_resolved_wf, new_game, RPSView,
    RpsResolve, RpsResolveView, RPS,
};
use crate::rps::models::{
    copy_games, Action, ActionView, Event, EventView, Init, RPSAction, RPSData, RPSDataView,
    RPSError, Update, UpdateView,
};
use crate::table::{
    find_key, keys, lemma_key_absent, lemma_key_at, lemma_upsert_keys, lemma_value_of, upsert,
    value_of,
};
use vstd::prelude::*;

verus! {

/// Owns every game and knows which sessions are connected.
pub struct RPSManager {
    sessions: Vec<String>,
    games: Vec<RPS>,
    names: Vec<String>,
}

/// The engine as mathematics: the connected sessions, the games, and the pool
/// of display names.
pub struct RPSManagerView {
    pub sessions: Seq<Seq<char>>,
    pub games: Seq<RPSView>,
    pub names: Seq<Seq<char>>,
}

impl DeepView for RPSManager {
    type V = RPSManagerView;

    closed spec fn deep_view(&self) -> RPSManagerView {
        RPSManagerView {
            sessions: self.sessions.deep_view(),
            games: self.games.deep_view(),
            names: self.names.deep_view(),
        }
    }
}

/// The identifiers of the games, in order.
pub open spec fn game_ids(games: Seq<RPSView>) -> Seq<Seq<char>> {
    games.map_values(|g: RPSView| g.id)
}

/// What one request does to one game.
pub struct Turn {
    /// The game afterwards.
    pub game: RPSView,
    /// What the players connected to the game are told, in order.
    pub events: Seq<EventView>,
    /// The player who just won the tournament, if one did.
    pub champion: Option<Seq<char>>,
    /// Whether the sender is answered with the game's state.
    pub show: bool,
}

/// A turn that changes nothing and tells nobody.
pub open spec fn idle(g: RPSView) -> Turn {
    Turn { game: g, events: Seq::empty(), champion: None, show: false }
}

/// Has `player` reached the score that ends the tournament?
pub open spec fn reached(g: RPSView, player: Seq<char>) -> bool {
    match value_of(g.scores, player) {
        Some(score) => score >= g.gg_score,
        None => false,
    }
}

/// A player joins: only a player of the game who is not connected yet.
pub open spec fn join_turn(g: RPSView, sender: Seq<char>) -> Turn {
    if g.player_ids.contains(sender) && !g.connections.contains(sender) {
        Turn {
            game: RPSView { connections: g.connections.push(sender), ..g },
            events: seq![EventView::PlayerConnected(sender)],
            champion: None,
            show: true,
        }
    } else {
        idle(g)
    }
}

/// Fast mode is set if the host asks; the value in force is told either way.
pub open spec fn fast_turn(g: RPSView, sender: Seq<char>, flag: bool) -> Turn {
    let game = if sender == g.host {
        RPSView { fast_mode: flag, ..g }
    } else {
        g
    };
    Turn { game, events: seq![EventView::FastToggled(game.fast_mode)], champion: None, show: false }
}

/// A player chooses. A game that is over and a sender who is not connected
/// are ignored. A choice that fills the round resolves it: the choices are
/// taken off the record and told, then the end of the round. After a single
/// winner everybody is let back in, and the game is over once the winner has
/// reached the score to reach.
pub open spec fn choose_turn(g: RPSView, sender: Seq<char>, symbol: char) -> Turn {
    if g.game_over || !g.connections.contains(sender) {
        idle(g)
    } else {
        let step = g.chosen(symbol, sender);
        let after = step.0;
        let cleared = RPSView { choices: Seq::empty(), ..after };
        match step.1 {
            None => Turn { game: after, events: Seq::empty(), champion: None, show: false },
            Some(RpsResolveView::Exclude(lost)) => Turn {
                game: cleared,
                events: seq![EventView::Choices(after.choices), EventView::Exclude(lost)],
                champion: None,
                show: false,
            },
            Some(RpsResolveView::Winner(winner)) => {
                let reopened = RPSView { excluded: Seq::empty(), ..cleared };
                if reached(reopened, winner) {
                    Turn {
                        game: RPSView { game_over: true, ..reopened },
                        events: seq![
                            EventView::Choices(after.choices),
                            EventView::Winner(winner),
                            EventView::GG(g.id),
                        ],
                        champion: Some(winner),
                        show: false,
                    }
                } else {
                    Turn {
                        game: reopened,
                        events: seq![EventView::Choices(after.choices), EventView::Winner(winner)],
                        champion: None,
                        show: false,
                    }
                }
            },
        }
    }
}

/// What the request `action` of `sender` does to the game `g`.
pub open spec fn turn(g: RPSView, sender: Seq<char>, action: RPSAction) -> Turn {
    match action {
        RPSAction::Join => join_turn(g, sender),
        RPSAction::FastMode(flag) => fast_turn(g, sender, flag),
        RPSAction::Choose(symbol) => choose_turn(g, sender, symbol),
    }
}

impl RPSView {
    /// What holds of every game between two requests: it is well formed, only
    /// players of the running round have chosen and not yet all of them, and
    /// while the game is on, no score has reached the score to reach.
    pub open spec fn playable(self) -> bool {
        &&& self.wf()
        &&& self.in_play()
        &&& self.choices.len() < self.connections.len() - self.excluded.len()
        &&& !self.game_over ==> forall|i: int|
            0 <= i < self.scores.len() ==> {
                let score = (#[trigger] self.scores[i]).1;
                score < self.gg_score || score == 0
            }
    }
}

/// Every request leaves a playable game playable.
pub proof fn lemma_turn_playable(g: RPSView, sender: Seq<char>, action: RPSAction)
    requires
        g.playable(),
    ensures
        turn(g, sender, action).game.playable(),
{
    match action {
        RPSAction::Join => {
            if g.player_ids.contains(sender) && !g.connections.contains(sender) {
                let next = turn(g, sender, action).game;
                assert(next.connections.drop_last() =~= g.connections);
                assert(next.connections.last() == sender);
                assert(!g.excluded.contains(sender));
                assert(next.eligible() == g.eligible().push(sender));
                assert forall|x: Seq<char>| next.connections.contains(x) implies g.player_ids.contains(x) by {
                    vstd::seq_lib::lemma_seq_contains_after_push(g.connections, sender, x);
                }
                assert forall|x: Seq<char>| g.excluded.contains(x) implies next.connections.contains(x) by {
                    vstd::seq_lib::lemma_seq_contains_after_push(g.connections, sender, x);
                }
                assert forall|x: Seq<char>| keys(g.choices).contains(x) implies next.eligible().contains(x) by {
                    vstd::seq_lib::lemma_seq_contains_after_push(g.eligible(), sender, x);
                }
                assert(next.connections.no_duplicates()) by {
                    assert forall|i: int, j: int|
                        0 <= i < next.connections.len() && 0 <= j < next.connections.len() && i != j implies next.connections[i]
                        != next.connections[j] by {
                        if i < g.connections.len() {
                            assert(g.connections.contains(g.connections[i]));
                        }
                        if j < g.connections.len() {
                            assert(g.connections.contains(g.connections[j]));
                        }
                    }
                }
            }
        },
        RPSAction::FastMode(flag) => {},
        RPSAction::Choose(symbol) => {
            lemma_choose_turn_playable(g, sender, symbol);
        },
    }
}

/// While a game is on, every score can grow by one.
pub proof fn lemma_playable_has_room(g: RPSView)
    requires
        g.playable(),
        !g.game_over,
    ensures
        g.has_room(),
{
    assert forall|i: int| 0 <= i < g.scores.len() implies (#[trigger] g.scores[i]).1 < usize::MAX by {
        let score = g.scores[i].1;
        assert(score < g.gg_score || score == 0);
    }
}

/// A choice leaves a playable game playable.
pub proof fn lemma_choose_turn_playable(g: RPSView, sender: Seq<char>, symbol: char)
    requires
        g.playable(),
    ensures
        choose_turn(g, sender, symbol).game.playable(),
{
    if g.game_over || !g.connections.contains(sender) {
    } else if g.excluded.contains(sender) {
    } else {
        let next = RPSView { choices: upsert(g.choices, sender, symbol), ..g };
        lemma_upsert_keys(g.choices, sender, symbol);
        lemma_with_id_distinct(keys(g.choices), sender);
        lemma_minus(g.connections, g.excluded);
        lemma_minus_len(g.connections, g.excluded);
        lemma_minus_holds(g.connections, g.excluded, sender);
        assert(keys(next.choices).len() == next.choices.len());
        assert(keys(g.choices).len() == g.choices.len());
        assert(next.wf());
        assert(next.in_play()) by {
            assert forall|x: Seq<char>| keys(next.choices).contains(x) implies next.eligible().contains(x) by {
                if x != sender {
                    assert(keys(g.choices).contains(x));
                }
            }
        }
        if next.fires() {
            lemma_resolved_wf(next);
            let end = next.resolved();
            let after = end.0;
            let cleared = RPSView { choices: Seq::empty(), ..after };
            assert(keys(cleared.choices) =~= Seq::<Seq<char>>::empty());
            match end.1 {
                RpsResolveView::Exclude(lost) => {
                    assert(cleared.playable());
                },
                RpsResolveView::Winner(winner) => {
                    let reopened = RPSView { excluded: Seq::empty(), ..cleared };
                    assert(reopened.wf());
                    let done = choose_turn(g, sender, symbol).game;
                    if !reached(reopened, winner) {
                        assert forall|i: int| 0 <= i < reopened.scores.len() implies ({
                            let score = (#[trigger] reopened.scores[i]).1;
                            score < reopened.gg_score || score == 0
                        }) by {
                            lemma_bump_scores(next.scores, winner, i);
                            lemma_value_of(reopened.scores, winner);
                            lemma_value_of(next.scores, winner);
                            lemma_first_index(keys(next.scores), winner);
                            if value_of(next.scores, winner) is Some {
                                let score = value_of(next.scores, winner).unwrap();
                                lemma_upsert_keys(next.scores, winner, (score + 1) as usize);
                            }
                        }
                    }
                },
            }
        } else {
            assert(next.playable());
        }
    }
}

/// What `bump` does to each score: one more for the first entry of the player,
/// the same for every other entry, as long as the score can grow.
pub proof fn lemma_bump_scores(scores: Seq<(Seq<char>, usize)>, player: Seq<char>, i: int)
    requires
        0 <= i < scores.len(),
    ensures
        crate::rps::game::bump(scores, player).len() == scores.len(),
        crate::rps::game::bump(scores, player)[i].0 == scores[i].0,
        crate::rps::game::bump(scores, player)[i].1 == if keys(scores).contains(player) && i == first_index(
            keys(scores),
            player,
        ) {
            (scores[i].1 + 1) as usize
        } else {
            scores[i].1
        },
{
    lemma_first_index(keys(scores), player);
    lemma_value_of(scores, player);
}

/// What a turn hands to the engine: what to tell the game's players, who won
/// the tournament, and whether to answer with the game's state.
pub struct TurnOut {
    pub events: Vec<Event>,
    pub champion: Option<String>,
    pub show: bool,
}

impl TurnOut {
    fn idle() -> (out: TurnOut)
        ensures
            out.events.deep_view() == Seq::<EventView>::empty(),
            out.champion is None,
            !out.show,
    {
        let events: Vec<Event> = Vec::new();
        assert(events.deep_view() =~= Seq::empty());
        TurnOut { events, champion: None, show: false }
    }
}

/// Applies the request `action` of `sender_id` to `game`.
pub fn take_turn(game: &mut RPS, sender_id: String, action: RPSAction) -> (out: TurnOut)
    requires
        old(game).deep_view().playable(),
    ensures
        final(game).deep_view() == turn(old(game).deep_view(), sender_id@, action).game,
        out.events.deep_view() == turn(old(game).deep_view(), sender_id@, action).events,
        out.champion.deep_view() == turn(old(game).deep_view(), sender_id@, action).champion,
        out.show == turn(old(game).deep_view(), sender_id@, action).show,
        final(game).deep_view().playable(),
{
    let ghost g = game.deep_view();
    proof {
        lemma_turn_playable(g, sender_id@, action);
    }
    match action {
        RPSAction::Join => {
            if contains_id(&game.player_ids, &sender_id) && !contains_id(&game.connections, &sender_id) {
                let mut events: Vec<Event> = Vec::new();
                events.push(Event::PlayerConnected(sender_id.clone()));
                assert(events.deep_view() =~= seq![EventView::PlayerConnected(sender_id@)]);
                game.connections.push(sender_id);
                assert(game.connections.deep_view() =~= g.connections.push(sender_id@));
                TurnOut { events, champion: None, show: true }
            } else {
                TurnOut::idle()
            }
        },
        RPSAction::FastMode(flag) => {
            if sender_id == game.host {
                game.toggle_fast(flag);
            }
            let mut events: Vec<Event> = Vec::new();
            events.push(Event::FastToggled(game.fast_mode));
            assert(events.deep_view() =~= seq![EventView::FastToggled(game.fast_mode)]);
            TurnOut { events, champion: None, show: false }
        },
        RPSAction::Choose(symbol) => {
            if game.game_over || !contains_id(&game.connections, &sender_id) {
                return TurnOut::idle();
            }
            proof {
                lemma_playable_has_room(g);
            }
            let end = game.choose_rps(symbol, sender_id);
            let ghost after = game.deep_view();
            match end {
                None => TurnOut::idle(),
                Some(end) => {
                    let choices = game.drain_choices();
                    let mut events: Vec<Event> = Vec::new();
                    events.push(Event::Choices(choices));
                    assert(events.deep_view() =~= seq![EventView::Choices(after.choices)]);
                    let ghost first = events.deep_view();
                    match end {
                        RpsResolve::Exclude(lost) => {
                            let ghost lost_view = lost.deep_view();
                            events.push(Event::Exclude(lost));
                            assert(events.deep_view() =~= first.push(EventView::Exclude(lost_view)));
                            assert(events.deep_view() =~= seq![
                                EventView::Choices(after.choices),
                                EventView::Exclude(lost_view),
                            ]);
                            TurnOut { events, champion: None, show: false }
                        },
                        RpsResolve::Winner(winner) => {
                            game.reset_excluded();
                            events.push(Event::Winner(winner.clone()));
                            assert(events.deep_view() =~= first.push(EventView::Winner(winner@)));
                            let ghost second = events.deep_view();
                            let at = find_key(&game.scores, &winner);
                            let done = match at {
                                Some(i) => {
                                    proof {
                                        lemma_key_at(game.deep_view().scores, winner@, i as int);
                                    }
                                    game.scores[i].1 >= game.gg_score
                                },
                                None => {
                                    proof {
                                        lemma_key_absent(game.deep_view().scores, winner@);
                                    }
                                    false
                                },
                            };
                            if done {
                                game.end();
                                events.push(Event::GG(game.id.clone()));
                                assert(events.deep_view() =~= second.push(EventView::GG(g.id)));
                                assert(events.deep_view() =~= seq![
                                    EventView::Choices(after.choices),
                                    EventView::Winner(winner@),
                                    EventView::GG(g.id),
                                ]);
                                TurnOut { events, champion: Some(winner), show: false }
                            } else {
                                assert(events.deep_view() =~= seq![
                                    EventView::Choices(after.choices),
                                    EventView::Winner(winner@),
                                ]);
                                TurnOut { events, champion: None, show: false }
                            }
                        },
                    }
                },
            }
        },
    }
}

/// A message about games: header `rps`.
pub open spec fn rps_message(data: RPSDataView) -> ClientMessageView {
    ClientMessageView { header: "rps"@, data: MessageDataView::RPS(data) }
}

/// What `act` and `handle` return, as mathematics.
pub open spec fn outcome_view(out: Result<(RPSData, Effects), RPSError>) -> Result<
    (RPSDataView, EffectsView),
    Seq<char>,
> {
    match out {
        Ok(pair) => Ok((pair.0.deep_view(), pair.1.deep_view())),
        Err(error) => Err(error.message@),
    }
}

/// Each of `events`, in order, for every one of `sessions` that is connected
/// to the game `g`.
pub open spec fn told(sessions: Seq<Seq<char>>, g: RPSView, events: Seq<EventView>) -> Seq<OutboundView>
    decreases events.len(),
{
    if events.len() == 0 {
        Seq::empty()
    } else {
        told(sessions, g, events.drop_last()) + fan_out(
            common(sessions, g.connections),
            rps_message(RPSDataView::Update(UpdateView { game_id: g.id, event: events.last() })),
        )
    }
}

impl RPSManagerView {
    /// The engine's invariant: no session and no game identifier occurs twice,
    /// and every game is playable.
    pub open spec fn wf(self) -> bool {
        &&& self.sessions.no_duplicates()
        &&& game_ids(self.games).no_duplicates()
        &&& forall|i: int| 0 <= i < self.games.len() ==> (#[trigger] self.games[i]).playable()
    }

    /// The state of `g` for every session.
    pub open spec fn broadcast(self, g: RPSView) -> Seq<OutboundView> {
        fan_out(self.sessions, rps_message(RPSDataView::State(g)))
    }

    /// `data` for every session that is connected to the game `g`.
    pub open spec fn room_broadcast(self, g: RPSView, data: RPSDataView) -> Seq<OutboundView> {
        fan_out(common(self.sessions, g.connections), rps_message(data))
    }

    /// A session connects: it is registered and sent every game.
    pub open spec fn connected(self, user: Seq<char>) -> (RPSManagerView, EffectsView) {
        (
            RPSManagerView { sessions: with_id(self.sessions, user), ..self },
            EffectsView {
                deliveries: seq![
                    OutboundView { to: user, message: rps_message(RPSDataView::Rooms(self.games)) },
                ],
                writes: Seq::empty(),
            },
        )
    }

    /// A game is opened under the identifier `id` and the display name `name`:
    /// it takes the place of a game with that identifier, or comes last, and
    /// its state goes to every session.
    pub open spec fn registered(
        self,
        players: Seq<Seq<char>>,
        host: Seq<char>,
        gg_score: usize,
        id: Seq<char>,
        name: Seq<char>,
    ) -> (RPSManagerView, RPSView, EffectsView) {
        let game = new_game(players, host, id, gg_score, name);
        let games = if game_ids(self.games).contains(id) {
            self.games.update(first_index(game_ids(self.games), id), game)
        } else {
            self.games.push(game)
        };
        (
            RPSManagerView { games, ..self },
            game,
            EffectsView { deliveries: self.broadcast(game), writes: Seq::empty() },
        )
    }

    /// A player acts on a game. An unknown game is an error that changes
    /// nothing. Otherwise the game takes its turn, the players connected to it
    /// are told what happened, a tournament win is written to durable storage,
    /// and the sender is answered with the game's state where the turn says so.
    pub open spec fn acted(self, a: ActionView) -> (
        RPSManagerView,
        Result<(RPSDataView, EffectsView), Seq<char>>,
    ) {
        if !game_ids(self.games).contains(a.game_id) {
            (self, Err("Unknown game"@))
        } else {
            let at = first_index(game_ids(self.games), a.game_id);
            let t = turn(self.games[at], a.sender_id, a.action);
            let reply = if t.show {
                RPSDataView::State(t.game)
            } else {
                RPSDataView::Nothing
            };
            let writes = match t.champion {
                Some(winner) => seq![DbWriteView::HoFEntry { user_id: winner }],
                None => Seq::empty(),
            };
            (
                RPSManagerView { games: self.games.update(at, t.game), ..self },
                Ok((reply, EffectsView { deliveries: told(self.sessions, t.game, t.events), writes })),
            )
        }
    }
}

/// A turn never changes a game's identifier.
pub proof fn lemma_turn_keeps_id(g: RPSView, sender: Seq<char>, action: RPSAction)
    ensures
        turn(g, sender, action).game.id == g.id,
{
}

impl RPSManager {
    /// An engine without sessions or games, with the default pool of display
    /// names.
    pub fn new() -> (manager: RPSManager)
        ensures
            manager.deep_view() == (RPSManagerView {
                sessions: Seq::empty(),
                games: Seq::empty(),
                names: crate::rps::game::epic_words_view(),
            }),
            manager.deep_view().wf(),
    {
        RPSManager::with_names(epic_words())
    }

    /// An engine without sessions or games that draws display names from
    /// `names`.
    pub fn with_names(names: Vec<String>) -> (manager: RPSManager)
        ensures
            manager.deep_view() == (RPSManagerView {
                sessions: Seq::empty(),
                games: Seq::empty(),
                names: names.deep_view(),
            }),
            manager.deep_view().wf(),
    {
        let sessions: Vec<String> = Vec::new();
        let games: Vec<RPS> = Vec::new();
        assert(sessions.deep_view() =~= Seq::empty());
        assert(games.deep_view() =~= Seq::empty());
        assert(game_ids(games.deep_view()) =~= Seq::empty());
        RPSManager { sessions, games, names }
    }

    /// Every game.
    pub fn get_games(&self) -> (games: Vec<RPS>)
        ensures
            games.deep_view() == self.deep_view().games,
    {
        copy_games(&self.games)
    }

    /// Every connected session.
    pub fn get_sessions(&self) -> (sessions: Vec<String>)
        ensures
            sessions.deep_view() == self.deep_view().sessions,
    {
        copy_ids(&self.sessions)
    }

    /// Index of the game with the identifier `id`.
    fn find_game(&self, id: &String) -> (at: Option<usize>)
        ensures
            at is Some <==> game_ids(self.deep_view().games).contains(id@),
            at is Some ==> at.unwrap() == first_index(game_ids(self.deep_view().games), id@)
                && at.unwrap() < self.games.len(),
    {
        let ghost ids = game_ids(self.deep_view().games);
        let mut i: usize = 0;
        while i < self.games.len()
            invariant
                i <= self.games.len(),
                ids == game_ids(self.deep_view().games),
                forall|j: int| 0 <= j < i ==> ids[j] != id@,
            decreases self.games.len() - i,
        {
            if self.games[i].id == *id {
                proof {
                    assert(ids[i as int] == id@);
                    lemma_first_at(ids, id@, i as int);
                }
                return Some(i);
            }
            i += 1;
        }
        proof {
            if ids.contains(id@) {
                let k = choose|k: int| 0 <= k < ids.len() && ids[k] == id@;
                assert(false);
            }
        }
        None
    }

    /// A message for the session `receiver`, if it is connected.
    pub fn send_direct(&self, receiver: &str, message: crate::envelope::ClientMessage) -> (out: Vec<Outbound>)
        ensures
            out.deep_view() == if self.deep_view().sessions.contains(receiver@) {
                seq![OutboundView { to: receiver@, message: message.deep_view() }]
            } else {
                Seq::empty()
            },
    {
        let mut out: Vec<Outbound> = Vec::new();
        let to = receiver.to_owned();
        if contains_id(&self.sessions, &to) {
            out.push(Outbound { to, message });
            assert(out.deep_view() =~= seq![OutboundView { to: receiver@, message: message.deep_view() }]);
        } else {
            assert(out.deep_view() =~= Seq::empty());
        }
        out
    }

    /// The state of a game for every session.
    pub fn broadcast(&self, rps: &RPS) -> (out: Vec<Outbound>)
        ensures
            out.deep_view() == self.deep_view().broadcast(rps.deep_view()),
    {
        let mut out: Vec<Outbound> = Vec::new();
        let message = generate_message("rps", MessageData::RPS(RPSData::State(rps.clone())));
        assert(out.deep_view() =~= Seq::empty());
        deliver_to_all(&mut out, &self.sessions, &message);
        assert(out.deep_view() =~= self.deep_view().broadcast(rps.deep_view()));
        out
    }

    /// `data` for every session that is connected to `game`.
    pub fn room_broadcast(&self, game: &RPS, data: RPSData) -> (out: Vec<Outbound>)
        ensures
            out.deep_view() == self.deep_view().room_broadcast(game.deep_view(), data.deep_view()),
    {
        let mut out: Vec<Outbound> = Vec::new();
        let to = common_ids(&self.sessions, &game.connections);
        let message = generate_message("rps", MessageData::RPS(data));
        assert(out.deep_view() =~= Seq::empty());
        deliver_to_all(&mut out, &to, &message);
        assert(out.deep_view() =~= self.deep_view().room_broadcast(game.deep_view(), data.deep_view()));
        out
    }

    /// Each of `events`, in order, for every session connected to `game`.
    fn tell(&self, game: &RPS, events: Vec<Event>) -> (out: Vec<Outbound>)
        ensures
            out.deep_view() == told(self.deep_view().sessions, game.deep_view(), events.deep_view()),
    {
        let mut out: Vec<Outbound> = Vec::new();
        let to = common_ids(&self.sessions, &game.connections);
        let mut i: usize = 0;
        assert(out.deep_view() =~= Seq::empty());
        assert(events.deep_view().take(0) =~= Seq::empty());
        while i < events.len()
            invariant
                i <= events.len(),
                to.deep_view() == common(self.deep_view().sessions, game.deep_view().connections),
                out.deep_view() == told(self.deep_view().sessions, game.deep_view(), events.deep_view().take(i as int)),
            decreases events.len() - i,
        {
            proof {
                assert(events.deep_view().take(i + 1).drop_last() =~= events.deep_view().take(i as int));
                assert(events.deep_view().take(i + 1).last() == events.deep_view()[i as int]);
            }
            let update = Update { game_id: game.id.clone(), event: events[i].clone() };
            let message = generate_message("rps", MessageData::RPS(RPSData::Update(update)));
            deliver_to_all(&mut out, &to, &message);
            i += 1;
        }
        assert(events.deep_view().take(events.len() as int) =~= events.deep_view());
        out
    }

    /// Registers the session of a user that has connected and sends it every
    /// game.
    pub fn connect(&mut self, msg: &Connect) -> (effects: Effects)
        requires
            old(self).deep_view().wf(),
        ensures
            (final(self).deep_view(), effects.deep_view()) == old(self).deep_view().connected(msg.user.id@),
            final(self).deep_view().wf(),
    {
        proof {
            lemma_with_id_distinct(self.deep_view().sessions, msg.user.id@);
        }
        insert_id(&mut self.sessions, &msg.user.id);
        let message = generate_message("rps", MessageData::RPS(RPSData::Rooms(self.get_games())));
        let deliveries = self.send_direct(msg.user.id.as_str(), message);
        let writes: Vec<DbWrite> = Vec::new();
        assert(writes.deep_view() =~= Seq::empty());
        Effects { deliveries, writes }
    }
}

/// A new game is playable when its host is one of its players.
pub proof fn lemma_new_game_playable(
    players: Seq<Seq<char>>,
    host: Seq<char>,
    id: Seq<char>,
    gg_score: usize,
    name: Seq<char>,
)
    requires
        players.contains(host),
    ensures
        new_game(players, host, id, gg_score, name).playable(),
{
    lemma_new_game_wf(players, host, id, gg_score, name);
}

impl RPSManager {
    /// Opens a game under a given identifier and display name and sends its
    /// state to every session.
    pub fn register_game_as(
        &mut self,
        players: Vec<String>,
        host: String,
        gg_score: usize,
        id: String,
        name: String,
    ) -> (out: (RPS, Effects))
        requires
            old(self).deep_view().wf(),
            players.deep_view().contains(host@),
        ensures
            (final(self).deep_view(), out.0.deep_view(), out.1.deep_view()) == old(self).deep_view().registered(
                players.deep_view(),
                host@,
                gg_score,
                id@,
                name@,
            ),
            final(self).deep_view().wf(),
    {
        let ghost before = self.deep_view();
        let ghost ids = game_ids(before.games);
        let game = RPS::named(players, host, id.as_str(), gg_score, name);
        let ghost fresh = game.deep_view();
        proof {
            lemma_new_game_playable(players.deep_view(), host@, id@, gg_score, name@);
            lemma_first_index(ids, id@);
        }
        let copy = game.clone();
        match self.find_game(&id) {
            Some(at) => {
                self.games.set(at, game);
                assert(self.games.deep_view() =~= before.games.update(at as int, fresh));
                assert(game_ids(self.deep_view().games) =~= ids);
            },
            None => {
                self.games.push(game);
                assert(self.games.deep_view() =~= before.games.push(fresh));
                assert(game_ids(self.deep_view().games) =~= ids.push(id@));
                assert(ids.push(id@).no_duplicates()) by {
                    assert forall|i: int, j: int|
                        0 <= i < ids.len() + 1 && 0 <= j < ids.len() + 1 && i != j implies ids.push(id@)[i] != ids.push(
                            id@,
                        )[j] by {
                        if i < ids.len() {
                            assert(ids.contains(ids[i]));
                        }
                        if j < ids.len() {
                            assert(ids.contains(ids[j]));
                        }
                    }
                }
            },
        }
        let deliveries = self.broadcast(&copy);
        let writes: Vec<DbWrite> = Vec::new();
        assert(writes.deep_view() =~= Seq::empty());
        (copy, Effects { deliveries, writes })
    }

    /// Opens a game under a fresh identifier and a display name drawn from the
    /// pool, and sends its state to every session.
    pub fn register_game(&mut self, players: Vec<String>, host: String, gg_score: usize) -> (out: (
        RPS,
        Effects,
    ))
        requires
            old(self).deep_view().wf(),
            players.deep_view().contains(host@),
        ensures
            (final(self).deep_view(), out.0.deep_view(), out.1.deep_view()) == old(self).deep_view().registered(
                players.deep_view(),
                host@,
                gg_score,
                out.0.deep_view().id,
                out.0.deep_view().name,
            ),
            old(self).deep_view().names.len() > 0 ==> old(self).deep_view().names.contains(out.0.deep_view().name),
            final(self).deep_view().wf(),
    {
        let id = fresh_id();
        let name = generate_epic_word(&self.names);
        self.register_game_as(players, host, gg_score, id, name)
    }

    /// Applies a player's request to the game it names.
    pub fn act(&mut self, msg: Action) -> (out: Result<(RPSData, Effects), RPSError>)
        requires
            old(self).deep_view().wf(),
        ensures
            (final(self).deep_view(), outcome_view(out)) == old(self).deep_view().acted(msg.deep_view()),
            final(self).deep_view().wf(),
    {
        let ghost before = self.deep_view();
        let ghost ids = game_ids(before.games);
        let Action { game_id, sender_id, action } = msg;
        let at = match self.find_game(&game_id) {
            Some(at) => at,
            None => {
                return Err(RPSError { message: "Unknown game" });
            },
        };
        let ghost g = before.games[at as int];
        let ghost t = turn(g, sender_id@, action);
        proof {
            lemma_turn_keeps_id(g, sender_id@, action);
        }
        let out = take_turn(&mut self.games[at], sender_id, action);
        proof {
            assert(self.games.deep_view() =~= before.games.update(at as int, t.game));
            assert(game_ids(self.deep_view().games) =~= ids);
        }
        let TurnOut { events, champion, show } = out;
        let deliveries = self.tell(&self.games[at], events);
        assert(self.deep_view().sessions == before.sessions);
        assert(self.deep_view().games[at as int] == t.game);
        let reply = if show {
            RPSData::State(self.games[at].clone())
        } else {
            RPSData::Nothing
        };
        let mut writes: Vec<DbWrite> = Vec::new();
        match champion {
            Some(winner) => {
                writes.push(DbWrite::HoFEntry(StoreHoFEntry { user_id: winner }));
                assert(writes.deep_view() =~= seq![DbWriteView::HoFEntry { user_id: winner@ }]);
            },
            None => {
                assert(writes.deep_view() =~= Seq::empty());
            },
        }
        Ok((reply, Effects { deliveries, writes }))
    }

    /// Handles whatever a client sent. A request to open a game opens one,
    /// unless the host is not among the players; a request on a game is
    /// applied; anything else is ignored.
    pub fn handle(&mut self, msg: RPSData) -> (out: Result<(RPSData, Effects), RPSError>)
        requires
            old(self).deep_view().wf(),
        ensures
            final(self).deep_view().wf(),
            match msg.deep_view() {
                RPSDataView::Init(init) => if init.players.contains(init.host) {
                    &&& out is Ok
                    &&& out.unwrap().0.deep_view() is State
                    &&& (final(self).deep_view(), out.unwrap().0.deep_view()->State_0, out.unwrap().1.deep_view())
                        == old(self).deep_view().registered(
                        init.players,
                        init.host,
                        init.gg_score,
                        out.unwrap().0.deep_view()->State_0.id,
                        out.unwrap().0.deep_view()->State_0.name,
                    )
                    &&& old(self).deep_view().names.len() > 0 ==> old(self).deep_view().names.contains(
                        out.unwrap().0.deep_view()->State_0.name,
                    )
                } else {
                    &&& final(self).deep_view() == old(self).deep_view()
                    &&& outcome_view(out) == Ok::<(RPSDataView, EffectsView), Seq<char>>(
                        (RPSDataView::Nothing, no_effects()),
                    )
                },
                RPSDataView::Action(action) => (final(self).deep_view(), outcome_view(out)) == old(
                    self,
                ).deep_view().acted(action),
                _ => {
                    &&& final(self).deep_view() == old(self).deep_view()
                    &&& outcome_view(out) == Ok::<(RPSDataView, EffectsView), Seq<char>>(
                        (RPSDataView::Nothing, no_effects()),
                    )
                },
            },
    {
        match msg {
            RPSData::Init(init) => {
                let Init { host, players, gg_score } = init;
                if contains_id(&players, &host) {
                    let (game, effects) = self.register_game(players, host, gg_score);
                    Ok((RPSData::State(game), effects))
                } else {
                    Ok((RPSData::Nothing, Effects::none()))
                }
            },
            RPSData::Action(action) => self.act(action),
            _ => Ok((RPSData::Nothing, Effects::none())),
        }
    }
}

} // verus!
