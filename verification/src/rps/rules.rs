//! The rules of a round as mathematics: who beats whom, how a player's score is
//! tallied over everything that was submitted, and who wins.
use crate::rps::models::RPSError;
use crate::table::{find_key, lemma_key_absent, lemma_key_at, put, upsert, value_of};
use vstd::prelude::*;

verus! {

/// Does the symbol `a` beat the symbol `b`? Rock beats scissors, scissors beat
/// paper, paper beats rock, and the special symbol beats everything else.
pub open spec fn beats(a: char, b: char) -> bool {
    ||| a == 'r' && b == 's'
    ||| a == 's' && b == 'p'
    ||| a == 'p' && b == 'r'
    ||| a == 'x' && b != 'x'
}

/// What one comparison adds to a score: one for a win, minus one for a loss,
/// nothing for a tie.
pub open spec fn outcome(mine: char, other: char) -> int {
    if beats(mine, other) {
        1
    } else if beats(other, mine) {
        -1
    } else {
        0
    }
}

/// The sum of `outcome(mine, c)` over every submitted symbol `c`.
pub open spec fn tally(mine: char, choices: Seq<(Seq<char>, char)>) -> int
    decreases choices.len(),
{
    if choices.len() == 0 {
        0
    } else {
        tally(mine, choices.drop_last()) + outcome(mine, choices.last().1)
    }
}

/// The score of `player` in a round: the tally of the player's own symbol.
pub open spec fn score_of(choices: Seq<(Seq<char>, char)>, player: Seq<char>) -> int {
    match value_of(choices, player) {
        Some(mine) => tally(mine, choices),
        None => 0,
    }
}

/// The highest score among `players`.
pub open spec fn best_score(choices: Seq<(Seq<char>, char)>, players: Seq<Seq<char>>) -> int
    decreases players.len(),
{
    if players.len() == 0 {
        0
    } else if players.len() == 1 {
        score_of(choices, players[0])
    } else {
        let before = best_score(choices, players.drop_last());
        let last = score_of(choices, players.last());
        if last > before {
            last
        } else {
            before
        }
    }
}

/// The players whose score is `score`, in order.
pub open spec fn scoring(choices: Seq<(Seq<char>, char)>, players: Seq<Seq<char>>, score: int) -> Seq<
    Seq<char>,
>
    decreases players.len(),
{
    if players.len() == 0 {
        Seq::empty()
    } else if score_of(choices, players.last()) == score {
        scoring(choices, players.drop_last(), score).push(players.last())
    } else {
        scoring(choices, players.drop_last(), score)
    }
}

/// The winners of a round: every player with the highest score.
pub open spec fn winners(choices: Seq<(Seq<char>, char)>, players: Seq<Seq<char>>) -> Seq<
    Seq<char>,
> {
    scoring(choices, players, best_score(choices, players))
}

/// The four symbols of the game.
#[derive(Debug, Clone, Copy, PartialEq, Eq)]
pub enum RPSChoice {
    Rock,
    Paper,
    Scissors,
    /// The special symbol, the rock that beats them all.
    KamenNajjaci,
}

/// The character that stands for a symbol.
pub open spec fn char_of(choice: RPSChoice) -> char {
    match choice {
        RPSChoice::Rock => 'r',
        RPSChoice::Paper => 'p',
        RPSChoice::Scissors => 's',
        RPSChoice::KamenNajjaci => 'x',
    }
}

/// The symbol that a character stands for, if it stands for one.
pub open spec fn symbol_of(c: char) -> Option<RPSChoice> {
    if c == 'r' {
        Some(RPSChoice::Rock)
    } else if c == 'p' {
        Some(RPSChoice::Paper)
    } else if c == 's' {
        Some(RPSChoice::Scissors)
    } else if c == 'x' {
        Some(RPSChoice::KamenNajjaci)
    } else {
        None
    }
}

impl RPSChoice {
    /// The character that stands for the symbol.
    pub fn into(self) -> (c: char)
        ensures
            c == char_of(self),
            symbol_of(c) == Some(self),
    {
        match self {
            RPSChoice::Rock => 'r',
            RPSChoice::Paper => 'p',
            RPSChoice::Scissors => 's',
            RPSChoice::KamenNajjaci => 'x',
        }
    }

    /// The symbol that `c` stands for; an error for any other character.
    pub fn from(c: char) -> (choice: Result<RPSChoice, RPSError>)
        ensures
            match symbol_of(c) {
                Some(symbol) => choice == Ok::<RPSChoice, RPSError>(symbol),
                None => choice is Err && choice->Err_0.message@ == "Invalid choice"@,
            },
    {
        match c {
            'r' => Ok(RPSChoice::Rock),
            'p' => Ok(RPSChoice::Paper),
            's' => Ok(RPSChoice::Scissors),
            'x' => Ok(RPSChoice::KamenNajjaci),
            _ => Err(RPSError { message: "Invalid choice" }),
        }
    }
}

/// A tally lies between minus and plus the number of submitted symbols.
pub proof fn lemma_tally_bounds(mine: char, choices: Seq<(Seq<char>, char)>)
    ensures
        -choices.len() <= tally(mine, choices) <= choices.len(),
    decreases choices.len(),
{
    if choices.len() > 0 {
        lemma_tally_bounds(mine, choices.drop_last());
    }
}

/// The highest score is reached by one of the players and exceeded by none.
pub proof fn lemma_best_score(choices: Seq<(Seq<char>, char)>, players: Seq<Seq<char>>)
    requires
        players.len() > 0,
    ensures
        exists|i: int| 0 <= i < players.len() && score_of(choices, players[i]) == best_score(choices, players),
        forall|i: int| 0 <= i < players.len() ==> score_of(choices, players[i]) <= best_score(choices, players),
    decreases players.len(),
{
    if players.len() == 1 {
        assert(score_of(choices, players[0]) == best_score(choices, players));
    } else {
        let front = players.drop_last();
        lemma_best_score(choices, front);
        let k = choose|k: int| 0 <= k < front.len() && score_of(choices, front[k]) == best_score(choices, front);
        assert(front[k] == players[k]);
        if score_of(choices, players.last()) > best_score(choices, front) {
            assert(score_of(choices, players[players.len() - 1]) == best_score(choices, players));
        } else {
            assert(score_of(choices, players[k]) == best_score(choices, players));
        }
        assert forall|i: int| 0 <= i < players.len() implies score_of(choices, players[i]) <= best_score(choices, players) by {
            if i < front.len() {
                assert(front[i] == players[i]);
            }
        }
    }
}

/// `scoring` holds `x` exactly when `x` is a player with that score.
pub proof fn lemma_scoring_holds(
    choices: Seq<(Seq<char>, char)>,
    players: Seq<Seq<char>>,
    score: int,
    x: Seq<char>,
)
    ensures
        scoring(choices, players, score).contains(x) <==> players.contains(x) && score_of(choices, x) == score,
    decreases players.len(),
{
    broadcast use vstd::seq_lib::lemma_seq_contains_after_push;
    if players.len() > 0 {
        let front = players.drop_last();
        lemma_scoring_holds(choices, front, score, x);
        assert(players =~= front.push(players.last()));
    }
}

/// `scoring` keeps exactly the players with that score, once each where the
/// list holds them once.
pub proof fn lemma_scoring(choices: Seq<(Seq<char>, char)>, players: Seq<Seq<char>>, score: int)
    ensures
        forall|x: Seq<char>| #[trigger] scoring(choices, players, score).contains(x) <==> players.contains(x) && score_of(choices, x) == score,
        scoring(choices, players, score).len() <= players.len(),
        players.no_duplicates() ==> scoring(choices, players, score).no_duplicates(),
    decreases players.len(),
{
    assert forall|x: Seq<char>| #[trigger] scoring(choices, players, score).contains(x) <==> players.contains(x) && score_of(choices, x) == score by {
        lemma_scoring_holds(choices, players, score, x);
    }
    if players.len() > 0 {
        let front = players.drop_last();
        let last = players.last();
        lemma_scoring(choices, front, score);
        if players.no_duplicates() {
            assert(front.no_duplicates());
            lemma_scoring_holds(choices, front, score, last);
            assert(!front.contains(last)) by {
                if front.contains(last) {
                    let m = choose|m: int| 0 <= m < front.len() && front[m] == last;
                    assert(players[m] == players[players.len() - 1]);
                }
            }
        }
    }
}

/// Somebody always wins: the winners of a round with players are not empty.
pub proof fn lemma_winners_exist(choices: Seq<(Seq<char>, char)>, players: Seq<Seq<char>>)
    requires
        players.len() > 0,
    ensures
        winners(choices, players).len() > 0,
        winners(choices, players).len() <= players.len(),
{
    lemma_best_score(choices, players);
    lemma_scoring(choices, players, best_score(choices, players));
    let k = choose|k: int| 0 <= k < players.len() && score_of(choices, players[k]) == best_score(choices, players);
    assert(players.contains(players[k]));
    assert(winners(choices, players).contains(players[k]));
}

/// Does `a` beat `b`?
pub fn symbol_beats(a: char, b: char) -> (won: bool)
    ensures
        won == beats(a, b),
{
    (a == 'r' && b == 's') || (a == 's' && b == 'p') || (a == 'p' && b == 'r') || (a == 'x' && b != 'x')
}

/// What comparing `mine` with `other` adds to a score.
pub fn compare(mine: char, other: char) -> (points: i128)
    ensures
        points == outcome(mine, other),
{
    if symbol_beats(mine, other) {
        1
    } else if symbol_beats(other, mine) {
        -1
    } else {
        0
    }
}

/// The symbol that `player` has on record.
pub fn find_choice(choices: &Vec<(String, char)>, player: &String) -> (found: Option<char>)
    ensures
        found == value_of(choices.deep_view(), player@),
{
    match find_key(choices, player) {
        Some(i) => {
            proof {
                lemma_key_at(choices.deep_view(), player@, i as int);
            }
            Some(choices[i].1)
        },
        None => {
            proof {
                lemma_key_absent(choices.deep_view(), player@);
            }
            None
        },
    }
}

/// The tally of `mine` over everything on record.
pub fn tally_up(mine: char, choices: &Vec<(String, char)>) -> (total: i128)
    ensures
        total == tally(mine, choices.deep_view()),
{
    let mut total: i128 = 0;
    let mut i: usize = 0;
    assert(choices.deep_view().take(0) =~= Seq::empty());
    while i < choices.len()
        invariant
            i <= choices.len(),
            total == tally(mine, choices.deep_view().take(i as int)),
        decreases choices.len() - i,
    {
        proof {
            lemma_tally_bounds(mine, choices.deep_view().take(i as int));
            assert(choices.deep_view().take(i + 1).drop_last() =~= choices.deep_view().take(i as int));
            assert(choices.deep_view().take(i + 1).last().1 == choices[i as int].1);
        }
        total = total + compare(mine, choices[i].1);
        i += 1;
    }
    assert(choices.deep_view().take(choices.len() as int) =~= choices.deep_view());
    total
}

/// Records `symbol` for `player`, in place of an earlier choice if there is one.
pub fn record_choice(choices: &mut Vec<(String, char)>, player: String, symbol: char)
    ensures
        final(choices).deep_view() == upsert(old(choices).deep_view(), player@, symbol),
{
    put(choices, player, symbol);
}

} // verus!
