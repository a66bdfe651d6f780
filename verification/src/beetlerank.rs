//! Rankings of the public leaderboard, as plain values.

use vstd::prelude::*;
use vstd::string::StringExecFns;

verus! {

/// One line of a ranking.
#[derive(Debug, Clone, PartialEq)]
pub struct Rank {
    pub rank: u32,
    /// The lap time as the leaderboard writes it.
    pub timestamp: String,
    pub name: String,
    /// The lap time in milliseconds.
    pub laptime: u64,
    pub date: String,
    pub map: String,
    pub file: String,
}

/// The ranking of a track: its first three lines, and the three lines round
/// the user's own, the user's in the middle, where the user has one.
#[derive(Debug)]
pub struct Ranking {
    pub top_3: Vec<Rank>,
    pub you: Option<Vec<Rank>>,
}

impl Default for Rank {
    fn default() -> (rank: Rank)
        ensures
            rank.rank == 0,
            rank.timestamp@ == Seq::<char>::empty(),
            rank.name@ == Seq::<char>::empty(),
            rank.laptime == 0,
            rank.date@ == Seq::<char>::empty(),
            rank.map@ == Seq::<char>::empty(),
            rank.file@ == Seq::<char>::empty(),
    {
        Rank {
            rank: 0,
            timestamp: String::new(),
            name: String::new(),
            laptime: 0,
            date: String::new(),
            map: String::new(),
            file: String::new(),
        }
    }
}

impl Default for Ranking {
    fn default() -> (ranking: Ranking)
        ensures
            ranking.top_3@ == Seq::<Rank>::empty(),
            ranking.you.is_some(),
            ranking.you.unwrap()@ == Seq::<Rank>::empty(),
    {
        Ranking { top_3: Vec::new(), you: Some(Vec::new()) }
    }
}

impl Ranking {
    /// Whether the lines round the user's own, if there are any, reach the
    /// middle one.
    pub open spec fn has_own_line(&self) -> bool {
        match self.you {
            Some(lines) => lines@.len() > 1,
            None => true,
        }
    }

    /// The user's own lap time in milliseconds, where the user has a line.
    pub fn own_best(&self) -> (best: Option<u64>)
        requires
            self.has_own_line(),
        ensures
            best == match self.you {
                Some(lines) => Some(lines@[1].laptime),
                None => None,
            },
    {
        match &self.you {
            Some(lines) => Some(lines[1].laptime),
            None => None,
        }
    }

    /// The ranking as it is kept for a user: the lines round the user's own
    /// are dropped where the middle one is under another name.
    pub fn for_user(self, user: &String) -> (kept: Ranking)
        requires
            self.you.is_some(),
            self.has_own_line(),
        ensures
            kept.top_3 == self.top_3,
            kept.you == if self.you.unwrap()@[1].name@ == user@ {
                self.you
            } else {
                None
            },
    {
        let mut data = self;
        let named = match &data.you {
            Some(lines) => lines[1].name == *user,
            None => true,
        };
        if !named {
            data.you = None;
        }
        data
    }
}

/// The cups that are offered: those of the leaderboard, and behind them the
/// cup of the user's own tracks.
pub fn with_custom_tracks(cups: Vec<String>) -> (offered: Vec<String>)
    ensures
        offered.deep_view() == cups.deep_view().push("CUSTOM TRACKS"@),
{
    let mut offered = cups;
    offered.push(String::from_str("CUSTOM TRACKS"));
    assert(offered.deep_view() =~= cups.deep_view().push("CUSTOM TRACKS"@));
    offered
}

} // verus!
