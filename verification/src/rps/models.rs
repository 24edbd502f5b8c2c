//! What the engine receives from clients and what it tells them.
use crate::chat::models::copy_ids;
use crate::rps::game::{copy_choices, RPSView, RPS};
use vstd::prelude::*;

verus! {

/// Why the engine refused a request.
#[derive(Debug, Clone, Copy)]
pub struct RPSError {
    pub message: &'static str,
}

impl DeepView for RPSError {
    type V = Seq<char>;

    open spec fn deep_view(&self) -> Seq<char> {
        self.message@
    }
}

/// What a player asks of a game.
#[derive(Debug)]
pub enum RPSAction {
    /// Put the player among the game's connections.
    Join,
    /// Record the player's symbol for the running round.
    Choose(char),
    /// Set fast mode.
    FastMode(bool),
}

impl DeepView for RPSAction {
    type V = RPSAction;

    open spec fn deep_view(&self) -> RPSAction {
        *self
    }
}

impl Clone for RPSAction {
    fn clone(&self) -> (copy: Self)
        ensures
            copy == *self,
    {
        match self {
            RPSAction::Join => RPSAction::Join,
            RPSAction::Choose(symbol) => RPSAction::Choose(*symbol),
            RPSAction::FastMode(flag) => RPSAction::FastMode(*flag),
        }
    }
}

/// A request to open a game.
#[derive(Debug)]
pub struct Init {
    pub host: String,
    pub players: Vec<String>,
    pub gg_score: usize,
}

/// `Init` as mathematics.
pub struct InitView {
    pub host: Seq<char>,
    pub players: Seq<Seq<char>>,
    pub gg_score: usize,
}

impl DeepView for Init {
    type V = InitView;

    open spec fn deep_view(&self) -> InitView {
        InitView { host: self.host@, players: self.players.deep_view(), gg_score: self.gg_score }
    }
}

impl Clone for Init {
    fn clone(&self) -> (copy: Self)
        ensures
            copy.deep_view() == self.deep_view(),
    {
        Init { host: self.host.clone(), players: copy_ids(&self.players), gg_score: self.gg_score }
    }
}

/// A player's request on a game.
#[derive(Debug)]
pub struct Action {
    pub game_id: String,
    pub sender_id: String,
    pub action: RPSAction,
}

/// `Action` as mathematics.
pub struct ActionView {
    pub game_id: Seq<char>,
    pub sender_id: Seq<char>,
    pub action: RPSAction,
}

impl DeepView for Action {
    type V = ActionView;

    open spec fn deep_view(&self) -> ActionView {
        ActionView { game_id: self.game_id@, sender_id: self.sender_id@, action: self.action }
    }
}

impl Clone for Action {
    fn clone(&self) -> (copy: Self)
        ensures
            copy.deep_view() == self.deep_view(),
    {
        Action {
            game_id: self.game_id.clone(),
            sender_id: self.sender_id.clone(),
            action: self.action.clone(),
        }
    }
}

/// What happened in a game as a consequence of a player's request.
#[derive(Debug)]
pub enum Event {
    PlayerConnected(String),
    FastToggled(bool),
    /// Every player's symbol of the round that was just resolved.
    Choices(Vec<(String, char)>),
    /// The players who leave the running round.
    Exclude(Vec<String>),
    Winner(String),
    /// The game with this identifier is over.
    GG(String),
}

/// `Event` as mathematics.
pub enum EventView {
    PlayerConnected(Seq<char>),
    FastToggled(bool),
    Choices(Seq<(Seq<char>, char)>),
    Exclude(Seq<Seq<char>>),
    Winner(Seq<char>),
    GG(Seq<char>),
}

impl DeepView for Event {
    type V = EventView;

    open spec fn deep_view(&self) -> EventView {
        match self {
            Event::PlayerConnected(player) => EventView::PlayerConnected(player@),
            Event::FastToggled(flag) => EventView::FastToggled(*flag),
            Event::Choices(choices) => EventView::Choices(choices.deep_view()),
            Event::Exclude(lost) => EventView::Exclude(lost.deep_view()),
            Event::Winner(player) => EventView::Winner(player@),
            Event::GG(game) => EventView::GG(game@),
        }
    }
}

impl Clone for Event {
    fn clone(&self) -> (copy: Self)
        ensures
            copy.deep_view() == self.deep_view(),
    {
        match self {
            Event::PlayerConnected(player) => Event::PlayerConnected(player.clone()),
            Event::FastToggled(flag) => Event::FastToggled(*flag),
            Event::Choices(choices) => Event::Choices(copy_choices(choices)),
            Event::Exclude(lost) => Event::Exclude(copy_ids(lost)),
            Event::Winner(player) => Event::Winner(player.clone()),
            Event::GG(game) => Event::GG(game.clone()),
        }
    }
}

/// An event of one game, as sent to the players connected to it.
#[derive(Debug)]
pub struct Update {
    pub game_id: String,
    pub event: Event,
}

/// `Update` as mathematics.
pub struct UpdateView {
    pub game_id: Seq<char>,
    pub event: EventView,
}

impl DeepView for Update {
    type V = UpdateView;

    open spec fn deep_view(&self) -> UpdateView {
        UpdateView { game_id: self.game_id@, event: self.event.deep_view() }
    }
}

impl Clone for Update {
    fn clone(&self) -> (copy: Self)
        ensures
            copy.deep_view() == self.deep_view(),
    {
        Update { game_id: self.game_id.clone(), event: self.event.clone() }
    }
}

/// Everything that travels between clients and the engine.
#[derive(Debug)]
pub enum RPSData {
    /// From a client: open a game.
    Init(Init),
    /// From a client: act on a game.
    Action(Action),
    /// To clients: the whole state of a game.
    State(RPS),
    /// To clients: an event of a game.
    Update(Update),
    /// To a client: all games.
    Rooms(Vec<RPS>),
    /// Nothing to say.
    Nothing,
}

/// `RPSData` as mathematics.
pub enum RPSDataView {
    Init(InitView),
    Action(ActionView),
    State(RPSView),
    Update(UpdateView),
    Rooms(Seq<RPSView>),
    Nothing,
}

impl DeepView for RPSData {
    type V = RPSDataView;

    open spec fn deep_view(&self) -> RPSDataView {
        match self {
            RPSData::Init(init) => RPSDataView::Init(init.deep_view()),
            RPSData::Action(action) => RPSDataView::Action(action.deep_view()),
            RPSData::State(game) => RPSDataView::State(game.deep_view()),
            RPSData::Update(update) => RPSDataView::Update(update.deep_view()),
            RPSData::Rooms(games) => RPSDataView::Rooms(games.deep_view()),
            RPSData::Nothing => RPSDataView::Nothing,
        }
    }
}

/// A copy of a list of games.
pub fn copy_games(games: &Vec<RPS>) -> (copy: Vec<RPS>)
    ensures
        copy.deep_view() == games.deep_view(),
{
    let mut copy: Vec<RPS> = Vec::new();
    let mut i: usize = 0;
    while i < games.len()
        invariant
            i <= games.len(),
            copy.deep_view() == games.deep_view().take(i as int),
        decreases games.len() - i,
    {
        let ghost before = copy.deep_view();
        let item = games[i].clone();
        copy.push(item);
        assert(copy.deep_view() =~= before.push(games.deep_view()[i as int]));
        assert(copy.deep_view() =~= games.deep_view().take(i + 1));
        i += 1;
    }
    assert(games.deep_view().take(games.len() as int) =~= games.deep_view());
    copy
}

impl Clone for RPSData {
    fn clone(&self) -> (copy: Self)
        ensures
            copy.deep_view() == self.deep_view(),
    {
        match self {
            RPSData::Init(init) => RPSData::Init(init.clone()),
            RPSData::Action(action) => RPSData::Action(action.clone()),
            RPSData::State(game) => RPSData::State(game.clone()),
            RPSData::Update(update) => RPSData::Update(update.clone()),
            RPSData::Rooms(games) => RPSData::Rooms(copy_games(games)),
            RPSData::Nothing => RPSData::Nothing,
        }
    }
}

} // verus!
