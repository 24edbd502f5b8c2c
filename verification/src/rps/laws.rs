//! What holds of every game: when a round is resolved, and why breaking a tie
//! comes to an end.
use crate::ids::{lemma_minus, lemma_minus_holds, lemma_minus_len, lemma_with_id_distinct, minus, within};
use crate::rps::game::{lemma_full_round, lemma_resolved_wf, RPSView, RpsResolveView};
use crate::rps::manager::{choose_turn, lemma_choose_turn_playable};
use crate::rps::rules::{best_score, lemma_scoring, lemma_winners_exist, winners};
use crate::table::{keys, lemma_upsert_keys, upsert};
use vstd::prelude::*;

verus! {

/// Did the round end in a tie between some of its players, but not all?
pub open spec fn is_partial_tie(end: RpsResolveView) -> bool {
    match end {
        RpsResolveView::Exclude(lost) => lost.len() > 0,
        RpsResolveView::Winner(_) => false,
    }
}

/// A round is resolved exactly when the last missing choice arrives.
///
/// In a game that is on, with `k` players in the running round, the choice of
/// one of them resolves the round if and only if that player had not chosen
/// yet and `k - 1` others had. A resolved round leaves no choice on record; a
/// choice that does not resolve the round is recorded and nothing else
/// changes.
pub proof fn resolution_fires_on_last_choice(g: RPSView, sender: Seq<char>, symbol: char)
    requires
        g.playable(),
        !g.game_over,
        g.eligible().contains(sender),
    ensures
        choose_turn(g, sender, symbol).events.len() > 0 <==> !keys(g.choices).contains(sender)
            && g.choices.len() + 1 == g.eligible().len(),
        choose_turn(g, sender, symbol).events.len() > 0 ==> choose_turn(g, sender, symbol).game.choices.len()
            == 0,
        choose_turn(g, sender, symbol).events.len() == 0 ==> choose_turn(g, sender, symbol).game == (RPSView {
            choices: upsert(g.choices, sender, symbol),
            ..g
        }),
{
    lemma_minus_holds(g.connections, g.excluded, sender);
    lemma_minus_len(g.connections, g.excluded);
    lemma_upsert_keys(g.choices, sender, symbol);
    assert(keys(g.choices).len() == g.choices.len());
    assert(keys(upsert(g.choices, sender, symbol)).len() == upsert(g.choices, sender, symbol).len());
}

/// After a round is resolved, the next choice does not resolve another one:
/// with two or more players connected, a round takes more than one choice.
pub proof fn resolution_fires_once(
    g: RPSView,
    sender: Seq<char>,
    symbol: char,
    next_sender: Seq<char>,
    next_symbol: char,
)
    requires
        g.playable(),
        !g.game_over,
        g.eligible().contains(sender),
        g.connections.len() >= 2,
        choose_turn(g, sender, symbol).events.len() > 0,
    ensures
        choose_turn(choose_turn(g, sender, symbol).game, next_sender, next_symbol).events.len() == 0,
{
    lemma_minus_holds(g.connections, g.excluded, sender);
    lemma_minus_len(g.connections, g.excluded);
    lemma_upsert_keys(g.choices, sender, symbol);
    lemma_with_id_distinct(keys(g.choices), sender);
    lemma_choose_turn_playable(g, sender, symbol);
    let full = RPSView { choices: upsert(g.choices, sender, symbol), ..g };
    let after = choose_turn(g, sender, symbol).game;
    assert(full.fires());
    assert(full.wf());
    assert(full.in_play()) by {
        lemma_minus(g.connections, g.excluded);
        assert forall|x: Seq<char>| keys(full.choices).contains(x) implies full.eligible().contains(x) by {
            if x != sender {
                assert(keys(g.choices).contains(x));
            }
        }
    }
    lemma_resolved_wf(full);
    let end = full.resolved();
    assert(after.choices =~= Seq::<(Seq<char>, char)>::empty());
    assert(after.connections == g.connections);
    assert(after.playable());
    lemma_minus_len(after.connections, after.excluded);
    match end.1 {
        RpsResolveView::Exclude(lost) => {
            if lost.len() > 0 {
                tie_shrinks_round(full);
                assert(after.excluded == end.0.excluded);
                assert(after.eligible() == end.0.eligible());
            } else {
                lemma_full_round(full);
                lemma_winners_exist(full.choices, full.eligible());
                lemma_scoring(full.choices, full.eligible(), best_score(full.choices, full.eligible()));
                lemma_minus(full.eligible(), winners(full.choices, full.eligible()));
                lemma_minus_len(full.eligible(), winners(full.choices, full.eligible()));
                assert(after.excluded.len() == 0);
            }
        },
        RpsResolveView::Winner(winner) => {
            assert(after.excluded.len() == 0);
        },
    }
    assert(after.connections.len() - after.excluded.len() >= 2);
    let again = upsert(after.choices, next_sender, next_symbol);
    assert(again.len() == 1);
}

/// A partial tie strictly narrows the round: exactly its winners play on, they
/// are at least two and fewer than before, and nobody who was excluded comes
/// back.
pub proof fn tie_shrinks_round(g: RPSView)
    requires
        g.wf(),
        g.in_play(),
        g.fires(),
        is_partial_tie(g.resolved().1),
    ensures
        g.resolved().0.wf(),
        g.resolved().0.eligible().len() == winners(g.choices, g.eligible()).len(),
        2 <= g.resolved().0.eligible().len() < g.eligible().len(),
        forall|x: Seq<char>| #[trigger]
            g.resolved().0.eligible().contains(x) <==> winners(g.choices, g.eligible()).contains(x),
        g.excluded.is_prefix_of(g.resolved().0.excluded),
        g.excluded.len() < g.resolved().0.excluded.len(),
{
    lemma_full_round(g);
    lemma_resolved_wf(g);
    let players = g.eligible();
    let won = winners(g.choices, players);
    lemma_winners_exist(g.choices, players);
    lemma_scoring(g.choices, players, best_score(g.choices, players));
    let lost = minus(players, won);
    let next = g.resolved().0;
    assert(within(won, players));
    lemma_minus(players, won);
    lemma_minus_len(players, won);
    lemma_minus_len(g.connections, g.excluded);
    lemma_minus_len(next.connections, next.excluded);
    lemma_minus(g.connections, g.excluded);
    lemma_minus(next.connections, next.excluded);
    assert forall|x: Seq<char>| #[trigger] next.eligible().contains(x) <==> won.contains(x) by {
        lemma_minus_holds(next.connections, next.excluded, x);
        lemma_minus_holds(g.connections, g.excluded, x);
        lemma_minus_holds(players, won, x);
        if next.excluded.contains(x) {
            let k = choose|k: int| 0 <= k < next.excluded.len() && next.excluded[k] == x;
            if k < g.excluded.len() {
                assert(g.excluded[k] == x);
                assert(g.excluded.contains(x));
            } else {
                assert(lost[k - g.excluded.len()] == x);
                assert(lost.contains(x));
            }
        }
        if g.excluded.contains(x) {
            let k = choose|k: int| 0 <= k < g.excluded.len() && g.excluded[k] == x;
            assert(next.excluded[k] == x);
        }
        if lost.contains(x) {
            let k = choose|k: int| 0 <= k < lost.len() && lost[k] == x;
            assert(next.excluded[g.excluded.len() + k] == x);
        }
    }
}

/// The rounds, given by what was chosen in each, are played one after another
/// from the game `g`, and each of them ends in a partial tie.
pub open spec fn tie_chain(g: RPSView, rounds: Seq<Seq<(Seq<char>, char)>>) -> bool
    decreases rounds.len(),
{
    if rounds.len() == 0 {
        true
    } else {
        let full = RPSView { choices: rounds.first(), ..g };
        &&& full.in_play()
        &&& full.fires()
        &&& keys(full.choices).no_duplicates()
        &&& is_partial_tie(full.resolved().1)
        &&& tie_chain(RPSView { choices: Seq::empty(), ..full.resolved().0 }, rounds.drop_first())
    }
}

/// Breaking a tie comes to an end: from `k` players in the round, at most
/// `k - 2` rounds in a row can end in a partial tie, so that the round after
/// them, the `k - 1`-th at the latest, ends the tie.
pub proof fn tie_break_terminates(g: RPSView, rounds: Seq<Seq<(Seq<char>, char)>>)
    requires
        g.wf(),
        tie_chain(g, rounds),
    ensures
        rounds.len() + 2 <= g.eligible().len() || rounds.len() == 0,
    decreases rounds.len(),
{
    if rounds.len() > 0 {
        let full = RPSView { choices: rounds.first(), ..g };
        assert(full.wf());
        tie_shrinks_round(full);
        let next = RPSView { choices: Seq::empty(), ..full.resolved().0 };
        assert(keys(next.choices) =~= Seq::<Seq<char>>::empty());
        assert(next.wf());
        assert(next.eligible() == full.resolved().0.eligible());
        assert(full.eligible() == g.eligible());
        tie_break_terminates(next, rounds.drop_first());
    }
}

} // verus!
