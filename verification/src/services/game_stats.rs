//! How many players are online.

use vstd::prelude::*;

verus! {

/// The count of joined sessions, as the statistics endpoint reports it.
#[derive(Debug, Clone, Copy, PartialEq, Eq, Structural)]
pub struct GameStats {
    pub players_online: u32,
}

/// One more, unless the count is at its largest value.
pub open spec fn one_more(count: u32) -> u32 {
    if count < u32::MAX {
        (count + 1) as u32
    } else {
        count
    }
}

/// One fewer, unless the count is zero.
pub open spec fn one_fewer(count: u32) -> u32 {
    if count > 0 {
        (count - 1) as u32
    } else {
        count
    }
}

impl GameStats {
    /// Nobody is online.
    pub fn new() -> (stats: Self)
        ensures
            stats.players_online == 0,
    {
        GameStats { players_online: 0 }
    }

    /// Counts a player in and returns the count as it was before.
    pub fn player_joined(&mut self) -> (before: u32)
        ensures
            before == old(self).players_online,
            final(self).players_online == one_more(old(self).players_online),
    {
        let before = self.players_online;
        self.players_online = before.saturating_add(1);
        before
    }

    /// Counts a player out and returns the count as it was before.
    pub fn player_left(&mut self) -> (before: u32)
        ensures
            before == old(self).players_online,
            final(self).players_online == one_fewer(old(self).players_online),
    {
        let before = self.players_online;
        self.players_online = before.saturating_sub(1);
        before
    }
}

} // verus!
