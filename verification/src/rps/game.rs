//! One game: who plays, who is connected, what has been chosen in the running
//! round, and how a full round is resolved.
use crate::chance::random_index;
use crate::chat::models::copy_ids;
use crate::ids::{
    contains_id, insert_id, lemma_minus, lemma_minus_len, lemma_within_same_len, minus, minus_ids,
    remove_id, with_id, within, without_id,
};
use crate::rps::rules::{
    best_score, find_choice, lemma_scoring, lemma_winners_exist, record_choice, score_of, scoring,
    tally_up, winners,
};
use crate::table::{
    find_key, keys, lemma_key_absent, lemma_key_at, lemma_upsert_keys, lemma_value_of, remove_key,
    upsert, value_of, without_key,
};
use vstd::prelude::*;

verus! {

/// A game of rock-paper-scissors between a fixed set of players.
#[derive(Debug)]
pub struct RPS {
    pub id: String,
    pub name: String,
    pub host: String,
    pub player_ids: Vec<String>,
    pub choices: Vec<(String, char)>,
    pub scores: Vec<(String, usize)>,
    pub connections: Vec<String>,
    pub fast_mode: bool,
    pub locked: bool,
    pub excluded: Vec<String>,
    pub game_over: bool,
    pub gg_score: usize,
}

/// A game as mathematics. The lists stand for sets and maps: players,
/// connections and excluded for sets of players, choices and scores for maps
/// keyed by player.
pub struct RPSView {
    pub id: Seq<char>,
    pub name: Seq<char>,
    pub host: Seq<char>,
    pub player_ids: Seq<Seq<char>>,
    pub choices: Seq<(Seq<char>, char)>,
    pub scores: Seq<(Seq<char>, usize)>,
    pub connections: Seq<Seq<char>>,
    pub fast_mode: bool,
    pub locked: bool,
    pub excluded: Seq<Seq<char>>,
    pub game_over: bool,
    pub gg_score: usize,
}

impl DeepView for RPS {
    type V = RPSView;

    open spec fn deep_view(&self) -> RPSView {
        RPSView {
            id: self.id@,
            name: self.name@,
            host: self.host@,
            player_ids: self.player_ids.deep_view(),
            choices: self.choices.deep_view(),
            scores: self.scores.deep_view(),
            connections: self.connections.deep_view(),
            fast_mode: self.fast_mode,
            locked: self.locked,
            excluded: self.excluded.deep_view(),
            game_over: self.game_over,
            gg_score: self.gg_score,
        }
    }
}

impl Clone for RPS {
    fn clone(&self) -> (copy: Self)
        ensures
            copy.deep_view() == self.deep_view(),
    {
        RPS {
            id: self.id.clone(),
            name: self.name.clone(),
            host: self.host.clone(),
            player_ids: copy_ids(&self.player_ids),
            choices: copy_choices(&self.choices),
            scores: copy_scores(&self.scores),
            connections: copy_ids(&self.connections),
            fast_mode: self.fast_mode,
            locked: self.locked,
            excluded: copy_ids(&self.excluded),
            game_over: self.game_over,
            gg_score: self.gg_score,
        }
    }
}

/// A copy of a list of scores.
pub fn copy_scores(scores: &Vec<(String, usize)>) -> (copy: Vec<(String, usize)>)
    ensures
        copy.deep_view() == scores.deep_view(),
{
    let mut copy: Vec<(String, usize)> = Vec::new();
    let mut i: usize = 0;
    while i < scores.len()
        invariant
            i <= scores.len(),
            copy.deep_view() == scores.deep_view().take(i as int),
        decreases scores.len() - i,
    {
        let ghost before = copy.deep_view();
        let item = (scores[i].0.clone(), scores[i].1);
        copy.push(item);
        assert(copy.deep_view() =~= before.push(scores.deep_view()[i as int]));
        assert(copy.deep_view() =~= scores.deep_view().take(i + 1));
        i += 1;
    }
    assert(scores.deep_view().take(scores.len() as int) =~= scores.deep_view());
    copy
}

/// A copy of a list of choices.
pub fn copy_choices(choices: &Vec<(String, char)>) -> (copy: Vec<(String, char)>)
    ensures
        copy.deep_view() == choices.deep_view(),
{
    let mut copy: Vec<(String, char)> = Vec::new();
    let mut i: usize = 0;
    while i < choices.len()
        invariant
            i <= choices.len(),
            copy.deep_view() == choices.deep_view().take(i as int),
        decreases choices.len() - i,
    {
        let ghost before = copy.deep_view();
        let item = (choices[i].0.clone(), choices[i].1);
        copy.push(item);
        assert(copy.deep_view() =~= before.push(choices.deep_view()[i as int]));
        assert(copy.deep_view() =~= choices.deep_view().take(i + 1));
        i += 1;
    }
    assert(choices.deep_view().take(choices.len() as int) =~= choices.deep_view());
    copy
}

impl RPSView {
    /// The players who take part in the running round: connected and not
    /// excluded.
    pub open spec fn eligible(self) -> Seq<Seq<char>> {
        minus(self.connections, self.excluded)
    }

    /// The game's invariant: the lists hold nothing twice, every connected
    /// player is a player with a score, only connected players are excluded and
    /// never all of them.
    pub open spec fn wf(self) -> bool {
        &&& self.player_ids.no_duplicates()
        &&& self.connections.no_duplicates()
        &&& self.excluded.no_duplicates()
        &&& keys(self.choices).no_duplicates()
        &&& keys(self.scores) == self.player_ids
        &&& within(self.connections, self.player_ids)
        &&& within(self.excluded, self.connections)
        &&& self.excluded.len() < self.connections.len()
    }

    /// Only players who take part in the running round have a choice on record.
    pub open spec fn in_play(self) -> bool {
        within(keys(self.choices), self.eligible())
    }

    /// Every score can still grow by one.
    pub open spec fn has_room(self) -> bool {
        forall|i: int| 0 <= i < self.scores.len() ==> (#[trigger] self.scores[i]).1 < usize::MAX
    }
}

/// How a full round ended.
#[derive(Debug)]
pub enum RpsResolve {
    /// Nobody won alone. The players listed leave the running round; the list
    /// is empty after a draw between all.
    Exclude(Vec<String>),
    /// One player won the round.
    Winner(String),
}

/// `RpsResolve` as mathematics.
pub enum RpsResolveView {
    Exclude(Seq<Seq<char>>),
    Winner(Seq<char>),
}

impl DeepView for RpsResolve {
    type V = RpsResolveView;

    open spec fn deep_view(&self) -> RpsResolveView {
        match self {
            RpsResolve::Exclude(lost) => RpsResolveView::Exclude(lost.deep_view()),
            RpsResolve::Winner(player) => RpsResolveView::Winner(player@),
        }
    }
}

/// `scores` with one point more for `player`.
pub open spec fn bump(scores: Seq<(Seq<char>, usize)>, player: Seq<char>) -> Seq<(Seq<char>, usize)> {
    match value_of(scores, player) {
        Some(score) => upsert(scores, player, (score + 1) as usize),
        None => scores,
    }
}

impl RPSView {
    /// A round is full when there are as many choices as players in it.
    pub open spec fn fires(self) -> bool {
        self.choices.len() == self.connections.len() - self.excluded.len()
    }

    /// The game after a full round is resolved, and how the round ended.
    ///
    /// All players of the round winning is a draw: everybody is let back in.
    /// Several winners short of all is a tie: the others are excluded and the
    /// winners play on. A single winner gains a point.
    pub open spec fn resolved(self) -> (RPSView, RpsResolveView) {
        let players = self.eligible();
        let won = winners(self.choices, players);
        if won.len() == players.len() {
            (RPSView { excluded: Seq::empty(), ..self }, RpsResolveView::Exclude(Seq::empty()))
        } else if won.len() > 1 {
            let lost = minus(players, won);
            (RPSView { excluded: self.excluded + lost, ..self }, RpsResolveView::Exclude(lost))
        } else {
            (RPSView { scores: bump(self.scores, won[0]), ..self }, RpsResolveView::Winner(won[0]))
        }
    }

    /// The game after `player` submits `symbol`, and the end of the round if
    /// that made it full. An excluded player's choice changes nothing.
    pub open spec fn chosen(self, symbol: char, player: Seq<char>) -> (RPSView, Option<RpsResolveView>) {
        if self.excluded.contains(player) {
            (self, None)
        } else {
            let next = RPSView { choices: upsert(self.choices, player, symbol), ..self };
            if next.fires() {
                let end = next.resolved();
                (end.0, Some(end.1))
            } else {
                (next, None)
            }
        }
    }
}

/// In a full round every player of the round has a choice on record.
pub proof fn lemma_full_round(g: RPSView)
    requires
        g.wf(),
        g.in_play(),
        g.fires(),
    ensures
        g.eligible().len() == g.choices.len(),
        g.eligible().len() > 0,
        g.eligible().no_duplicates(),
        within(g.eligible(), keys(g.choices)),
        forall|x: Seq<char>| #[trigger] g.eligible().contains(x) ==> g.connections.contains(x) && !g.excluded.contains(x),
{
    lemma_minus(g.connections, g.excluded);
    lemma_minus_len(g.connections, g.excluded);
    assert(keys(g.choices).len() == g.choices.len());
    lemma_within_same_len(keys(g.choices), g.eligible());
}

/// Resolving a full round keeps the game well formed.
pub proof fn lemma_resolved_wf(g: RPSView)
    requires
        g.wf(),
        g.in_play(),
        g.fires(),
    ensures
        g.resolved().0.wf(),
{
    lemma_full_round(g);
    let players = g.eligible();
    let won = winners(g.choices, players);
    lemma_winners_exist(g.choices, players);
    lemma_scoring(g.choices, players, best_score(g.choices, players));
    let after = g.resolved().0;
    if won.len() == players.len() {
    } else if won.len() > 1 {
        let lost = minus(players, won);
        lemma_minus(players, won);
        assert(within(won, players));
        lemma_minus_len(players, won);
        lemma_minus_len(g.connections, g.excluded);
        assert forall|i: int, j: int| 0 <= i < g.excluded.len() && 0 <= j < lost.len() implies g.excluded[i] != lost[j] by {
            assert(lost.contains(lost[j]));
            assert(players.contains(lost[j]));
            assert(g.excluded.contains(g.excluded[i]));
        }
        vstd::seq_lib::lemma_no_dup_in_concat(g.excluded, lost);
        assert forall|x: Seq<char>| after.excluded.contains(x) implies g.connections.contains(x) by {
            let k = choose|k: int| 0 <= k < after.excluded.len() && after.excluded[k] == x;
            if k < g.excluded.len() {
                assert(g.excluded[k] == x);
                assert(g.excluded.contains(x));
            } else {
                assert(lost[k - g.excluded.len()] == x);
                assert(lost.contains(x));
                assert(players.contains(x));
            }
        }
    } else {
        let winner = won[0];
        assert(won.contains(winner));
        assert(players.contains(winner));
        assert(g.connections.contains(winner));
        assert(g.player_ids.contains(winner));
        lemma_value_of(g.scores, winner);
        let score = value_of(g.scores, winner).unwrap();
        lemma_upsert_keys(g.scores, winner, (score + 1) as usize);
    }
}

/// The players of `players` in order of first occurrence, each once.
pub open spec fn distinct(players: Seq<Seq<char>>) -> Seq<Seq<char>>
    decreases players.len(),
{
    if players.len() == 0 {
        Seq::empty()
    } else {
        with_id(distinct(players.drop_last()), players.last())
    }
}

/// A score of zero for each player.
pub open spec fn zero_scores(players: Seq<Seq<char>>) -> Seq<(Seq<char>, usize)> {
    players.map_values(|p: Seq<char>| (p, 0usize))
}

/// The game that `RPS::named` builds.
pub open spec fn new_game(
    players: Seq<Seq<char>>,
    host: Seq<char>,
    id: Seq<char>,
    gg_score: usize,
    name: Seq<char>,
) -> RPSView {
    RPSView {
        id,
        name,
        host,
        player_ids: distinct(players),
        choices: Seq::empty(),
        scores: zero_scores(distinct(players)),
        connections: seq![host],
        fast_mode: false,
        locked: false,
        excluded: Seq::empty(),
        game_over: false,
        gg_score,
    }
}

/// `distinct` keeps every player and holds nobody twice.
pub proof fn lemma_distinct(players: Seq<Seq<char>>)
    ensures
        distinct(players).no_duplicates(),
        forall|x: Seq<char>| #[trigger] distinct(players).contains(x) <==> players.contains(x),
    decreases players.len(),
{
    if players.len() > 0 {
        let front = players.drop_last();
        lemma_distinct(front);
        crate::ids::lemma_with_id_distinct(distinct(front), players.last());
        assert forall|x: Seq<char>| #[trigger] distinct(players).contains(x) <==> players.contains(x) by {
            assert(players =~= front.push(players.last()));
            vstd::seq_lib::lemma_seq_contains_after_push(front, players.last(), x);
        }
    }
}

/// A new game is well formed when its host is one of its players.
pub proof fn lemma_new_game_wf(
    players: Seq<Seq<char>>,
    host: Seq<char>,
    id: Seq<char>,
    gg_score: usize,
    name: Seq<char>,
)
    requires
        players.contains(host),
    ensures
        new_game(players, host, id, gg_score, name).wf(),
        new_game(players, host, id, gg_score, name).in_play(),
        new_game(players, host, id, gg_score, name).has_room(),
{
    let g = new_game(players, host, id, gg_score, name);
    lemma_distinct(players);
    assert(keys(g.scores) =~= g.player_ids);
    assert(keys(g.choices) =~= Seq::<Seq<char>>::empty());
    assert forall|x: Seq<char>| g.connections.contains(x) implies g.player_ids.contains(x) by {
        let k = choose|k: int| 0 <= k < g.connections.len() && g.connections[k] == x;
        assert(x == host);
    }
}

/// The display names that a game is given when no other pool is supplied.
pub open spec fn epic_words_view() -> Seq<Seq<char>> {
    seq!["Deadly Dispute"@, "Supreme Battle"@, "Ultimate Showdown"@, "Quest for Glory"@]
}

/// The default pool of display names.
pub fn epic_words() -> (pool: Vec<String>)
    ensures
        pool.deep_view() == epic_words_view(),
{
    let mut pool: Vec<String> = Vec::new();
    pool.push("Deadly Dispute".to_owned());
    pool.push("Supreme Battle".to_owned());
    pool.push("Ultimate Showdown".to_owned());
    pool.push("Quest for Glory".to_owned());
    assert(pool.deep_view() =~= epic_words_view());
    pool
}

/// The name at `index` of the pool.
pub fn pick_word(pool: &Vec<String>, index: usize) -> (word: String)
    requires
        index < pool.len(),
    ensures
        word@ == pool.deep_view()[index as int],
{
    pool[index].clone()
}

/// A display name drawn at random from `pool`; the empty name where the pool
/// is empty.
pub fn generate_epic_word(pool: &Vec<String>) -> (word: String)
    ensures
        pool.len() > 0 ==> pool.deep_view().contains(word@),
        pool.len() == 0 ==> word@ == Seq::<char>::empty(),
{
    if pool.len() == 0 {
        String::new()
    } else {
        let index = random_index(pool.len());
        let word = pick_word(pool, index);
        assert(pool.deep_view()[index as int] == word@);
        word
    }
}

impl RPS {
    /// A new game under a given display name: every player starts with a score
    /// of zero, the host is the only connection.
    pub fn named(players: Vec<String>, host: String, id: &str, gg_score: usize, name: String) -> (game: RPS)
        ensures
            game.deep_view() == new_game(players.deep_view(), host@, id@, gg_score, name@),
    {
        let mut player_ids: Vec<String> = Vec::new();
        let mut scores: Vec<(String, usize)> = Vec::new();
        let mut i: usize = 0;
        assert(players.deep_view().take(0) =~= Seq::empty());
        assert(scores.deep_view() =~= zero_scores(player_ids.deep_view()));
        while i < players.len()
            invariant
                i <= players.len(),
                player_ids.deep_view() == distinct(players.deep_view().take(i as int)),
                scores.deep_view() == zero_scores(player_ids.deep_view()),
            decreases players.len() - i,
        {
            let ghost ids_before = player_ids.deep_view();
            let ghost scores_before = scores.deep_view();
            assert(players.deep_view().take(i + 1).drop_last() =~= players.deep_view().take(i as int));
            assert(players.deep_view().take(i + 1).last() == players[i as int]@);
            if insert_id(&mut player_ids, &players[i]) {
                scores.push((players[i].clone(), 0));
                assert(scores.deep_view() =~= scores_before.push((players[i as int]@, 0usize)));
                assert(scores.deep_view() =~= zero_scores(player_ids.deep_view()));
            }
            i += 1;
        }
        assert(players.deep_view().take(players.len() as int) =~= players.deep_view());
        let mut connections: Vec<String> = Vec::new();
        let host_copy = host.clone();
        connections.push(host_copy);
        let choices: Vec<(String, char)> = Vec::new();
        let excluded: Vec<String> = Vec::new();
        assert(connections.deep_view() =~= seq![host@]);
        assert(choices.deep_view() =~= Seq::empty());
        assert(excluded.deep_view() =~= Seq::empty());
        RPS {
            id: id.to_owned(),
            name,
            host,
            player_ids,
            scores,
            connections,
            choices,
            fast_mode: false,
            locked: false,
            excluded,
            game_over: false,
            gg_score,
        }
    }

    /// A new game under a display name drawn at random from the default pool.
    pub fn new(players: Vec<String>, host: String, id: &str, gg_score: usize) -> (game: RPS)
        ensures
            epic_words_view().contains(game.deep_view().name),
            game.deep_view() == new_game(players.deep_view(), host@, id@, gg_score, game.deep_view().name),
    {
        let pool = epic_words();
        let name = generate_epic_word(&pool);
        RPS::named(players, host, id, gg_score, name)
    }

    /// Sets fast mode.
    pub fn toggle_fast(&mut self, flag: bool)
        ensures
            final(self).deep_view() == (RPSView { fast_mode: flag, ..old(self).deep_view() }),
    {
        self.fast_mode = flag;
    }

    /// Forgets the choices of the running round.
    pub fn reset_choices(&mut self)
        ensures
            final(self).deep_view() == (RPSView { choices: Seq::empty(), ..old(self).deep_view() }),
    {
        self.choices.clear();
        assert(self.choices.deep_view() =~= Seq::empty());
    }

    /// Lets every excluded player back in.
    pub fn reset_excluded(&mut self)
        ensures
            final(self).deep_view() == (RPSView { excluded: Seq::empty(), ..old(self).deep_view() }),
    {
        self.excluded.clear();
        assert(self.excluded.deep_view() =~= Seq::empty());
    }

    /// Closes the game.
    pub fn end(&mut self)
        ensures
            final(self).deep_view() == (RPSView { game_over: true, ..old(self).deep_view() }),
    {
        self.game_over = true;
    }

    /// Resolves a full round: tallies every player's score over all that was
    /// chosen and acts on who has the highest. The choices stay on record.
    pub fn resolve_rps(&mut self) -> (end: RpsResolve)
        requires
            old(self).deep_view().wf(),
            old(self).deep_view().in_play(),
            old(self).deep_view().fires(),
            old(self).deep_view().has_room(),
        ensures
            (final(self).deep_view(), end.deep_view()) == old(self).deep_view().resolved(),
            final(self).deep_view().wf(),
    {
        let ghost g = self.deep_view();
        proof {
            lemma_full_round(g);
            lemma_resolved_wf(g);
            lemma_winners_exist(g.choices, g.eligible());
        }
        let players = minus_ids(&self.connections, &self.excluded);
        let mut tallies: Vec<i128> = Vec::new();
        let mut i: usize = 0;
        while i < players.len()
            invariant
                i <= players.len(),
                tallies.len() == i,
                self.choices.deep_view() == g.choices,
                players.deep_view() == g.eligible(),
                within(g.eligible(), keys(g.choices)),
                forall|j: int| 0 <= j < i ==> tallies[j] == score_of(g.choices, #[trigger] players.deep_view()[j]),
            decreases players.len() - i,
        {
            let found = find_choice(&self.choices, &players[i]);
            proof {
                assert(players.deep_view().contains(players.deep_view()[i as int]));
                lemma_value_of(g.choices, players[i as int]@);
            }
            let mine = found.unwrap();
            let total = tally_up(mine, &self.choices);
            tallies.push(total);
            i += 1;
        }
        let mut best: i128 = tallies[0];
        let mut i: usize = 1;
        assert(players.deep_view().take(1).len() == 1);
        while i < players.len()
            invariant
                1 <= i <= players.len(),
                tallies.len() == players.len(),
                forall|j: int| 0 <= j < players.len() ==> tallies[j] == score_of(g.choices, #[trigger] players.deep_view()[j]),
                best == best_score(g.choices, players.deep_view().take(i as int)),
            decreases players.len() - i,
        {
            proof {
                assert(players.deep_view().take(i + 1).drop_last() =~= players.deep_view().take(i as int));
                assert(players.deep_view().take(i + 1).last() == players.deep_view()[i as int]);
            }
            if tallies[i] > best {
                best = tallies[i];
            }
            i += 1;
        }
        assert(players.deep_view().take(players.len() as int) =~= players.deep_view());
        let mut won: Vec<String> = Vec::new();
        let mut i: usize = 0;
        assert(players.deep_view().take(0) =~= Seq::empty());
        while i < players.len()
            invariant
                i <= players.len(),
                tallies.len() == players.len(),
                forall|j: int| 0 <= j < players.len() ==> tallies[j] == score_of(g.choices, #[trigger] players.deep_view()[j]),
                won.deep_view() == scoring(g.choices, players.deep_view().take(i as int), best as int),
            decreases players.len() - i,
        {
            let ghost before = won.deep_view();
            proof {
                assert(players.deep_view().take(i + 1).drop_last() =~= players.deep_view().take(i as int));
                assert(players.deep_view().take(i + 1).last() == players.deep_view()[i as int]);
            }
            if tallies[i] == best {
                won.push(players[i].clone());
                assert(won.deep_view() =~= before.push(players[i as int]@));
            }
            i += 1;
        }
        assert(won.deep_view() == winners(g.choices, g.eligible()));
        if won.len() == players.len() {
            self.excluded.clear();
            assert(self.excluded.deep_view() =~= Seq::empty());
            let nobody: Vec<String> = Vec::new();
            assert(nobody.deep_view() =~= Seq::empty());
            RpsResolve::Exclude(nobody)
        } else if won.len() > 1 {
            let lost = minus_ids(&players, &won);
            let mut i: usize = 0;
            assert(g.excluded + lost.deep_view().take(0) =~= g.excluded);
            while i < lost.len()
                invariant
                    i <= lost.len(),
                    self.excluded.deep_view() == g.excluded + lost.deep_view().take(i as int),
                    self.deep_view() == (RPSView { excluded: self.excluded.deep_view(), ..g }),
                decreases lost.len() - i,
            {
                let ghost before = self.excluded.deep_view();
                self.excluded.push(lost[i].clone());
                assert(self.excluded.deep_view() =~= before.push(lost[i as int]@));
                assert(lost.deep_view().take(i + 1) =~= lost.deep_view().take(i as int).push(lost[i as int]@));
                assert(self.excluded.deep_view() =~= g.excluded + lost.deep_view().take(i + 1));
                i += 1;
            }
            assert(lost.deep_view().take(lost.len() as int) =~= lost.deep_view());
            RpsResolve::Exclude(lost)
        } else {
            let winner = won[0].clone();
            proof {
                lemma_scoring(g.choices, g.eligible(), best_score(g.choices, g.eligible()));
                assert(won.deep_view().contains(won.deep_view()[0]));
                assert(g.eligible().contains(winner@));
                assert(g.player_ids.contains(winner@));
                lemma_value_of(g.scores, winner@);
            }
            let at = find_key(&self.scores, &winner);
            proof {
                if at is None {
                    lemma_key_absent(g.scores, winner@);
                }
            }
            let at = at.unwrap();
            proof {
                lemma_key_at(g.scores, winner@, at as int);
                assert(g.scores[at as int].1 == self.scores[at as int].1);
            }
            let score = self.scores[at].1;
            self.scores.set(at, (winner.clone(), score + 1));
            assert(self.scores.deep_view() =~= bump(g.scores, winner@));
            RpsResolve::Winner(winner)
        }
    }

    /// Records the choice of a connected player and resolves the round if that
    /// made it full. The choice of an excluded player is ignored.
    pub fn choose_rps(&mut self, rps: char, player_id: String) -> (end: Option<RpsResolve>)
        requires
            old(self).deep_view().wf(),
            old(self).deep_view().in_play(),
            old(self).deep_view().has_room(),
            old(self).deep_view().connections.contains(player_id@),
        ensures
            (final(self).deep_view(), end.deep_view()) == old(self).deep_view().chosen(rps, player_id@),
            final(self).deep_view().wf(),
            end is None ==> final(self).deep_view().in_play(),
    {
        let ghost g = self.deep_view();
        if contains_id(&self.excluded, &player_id) {
            return None;
        }
        proof {
            lemma_upsert_keys(g.choices, player_id@, rps);
            crate::ids::lemma_with_id_distinct(keys(g.choices), player_id@);
            lemma_minus(g.connections, g.excluded);
            lemma_minus_len(g.connections, g.excluded);
        }
        record_choice(&mut self.choices, player_id, rps);
        if self.choices.len() == self.connections.len() - self.excluded.len() {
            let end = self.resolve_rps();
            Some(end)
        } else {
            None
        }
    }

    /// Takes the choices of the running round off the record and hands them
    /// out.
    pub fn drain_choices(&mut self) -> (taken: Vec<(String, char)>)
        ensures
            taken.deep_view() == old(self).deep_view().choices,
            final(self).deep_view() == (RPSView { choices: Seq::empty(), ..old(self).deep_view() }),
    {
        let mut taken: Vec<(String, char)> = Vec::new();
        core::mem::swap(&mut self.choices, &mut taken);
        assert(self.choices.deep_view() =~= Seq::empty());
        taken
    }

    /// Takes a player out of the game's connections and forgets the player's
    /// choice.
    pub fn disconnect_player(&mut self, player_id: &str)
        ensures
            final(self).deep_view() == (RPSView {
                choices: without_key(old(self).deep_view().choices, player_id@),
                connections: without_id(old(self).deep_view().connections, player_id@),
                ..old(self).deep_view()
            }),
    {
        let player = player_id.to_owned();
        remove_key(&mut self.choices, &player);
        remove_id(&mut self.connections, &player);
    }
}

} // verus!
