//! The hall of fame: how many tournaments each user has won.
use vstd::prelude::*;

verus! {

/// A stored entry of the hall of fame.
#[derive(Debug)]
pub struct HallOfFameEntry {
    id: i32,
    user_id: String,
    score: i32,
}

/// `HallOfFameEntry` as mathematics.
pub struct HallOfFameEntryView {
    pub id: i32,
    pub user_id: Seq<char>,
    pub score: i32,
}

impl DeepView for HallOfFameEntry {
    type V = HallOfFameEntryView;

    closed spec fn deep_view(&self) -> HallOfFameEntryView {
        HallOfFameEntryView { id: self.id, user_id: self.user_id@, score: self.score }
    }
}

impl HallOfFameEntry {
    /// The entry with the given values.
    pub fn new(id: i32, user_id: String, score: i32) -> (entry: HallOfFameEntry)
        ensures
            entry.deep_view() == (HallOfFameEntryView { id, user_id: user_id@, score }),
    {
        HallOfFameEntry { id, user_id, score }
    }

    /// The number of tournaments won.
    pub fn score(&self) -> (score: i32)
        ensures
            score == self.deep_view().score,
    {
        self.score
    }

    /// The user of the entry.
    pub fn user_id(&self) -> (user_id: &str)
        ensures
            user_id@ == self.deep_view().user_id,
    {
        self.user_id.as_str()
    }

    /// Counts one more tournament.
    pub fn incr_score(&mut self)
        requires
            old(self).deep_view().score < i32::MAX,
        ensures
            final(self).deep_view() == (HallOfFameEntryView {
                score: (old(self).deep_view().score + 1) as i32,
                ..old(self).deep_view()
            }),
    {
        self.score = self.score + 1;
    }
}

/// An entry of the hall of fame about to be stored.
#[derive(Debug)]
pub struct NewHoFEntry<'a> {
    pub user_id: &'a str,
    pub score: i32,
}

/// What to write to the hall of fame after a tournament.
#[derive(Debug)]
pub enum HoFWrite<'a> {
    /// Replace the stored entry of the user by this one.
    Update(HallOfFameEntry),
    /// Store this first entry of the user.
    Insert(NewHoFEntry<'a>),
}

impl<'a> NewHoFEntry<'a> {
    /// Decides what to write for a tournament that `user_id` has won, given
    /// the entry that storage holds for the user: a stored entry counts one
    /// more, and a user without one gets a first entry with a score of one.
    pub fn upsert(found: Option<HallOfFameEntry>, user_id: &'a str) -> (write: HoFWrite<'a>)
        requires
            found is Some ==> found->Some_0.deep_view().score < i32::MAX,
        ensures
            match found {
                Some(entry) => write is Update && write->Update_0.deep_view() == (HallOfFameEntryView {
                    score: (entry.deep_view().score + 1) as i32,
                    ..entry.deep_view()
                }),
                None => write is Insert && write->Insert_0.user_id@ == user_id@ && write->Insert_0.score == 1,
            },
    {
        match found {
            Some(mut entry) => {
                entry.incr_score();
                HoFWrite::Update(entry)
            },
            None => HoFWrite::Insert(NewHoFEntry { user_id, score: 1 }),
        }
    }
}

} // verus!
