//! Per-player score: how many columns each player tops.

use vstd::prelude::*;

use crate::player::Player;

verus! {

/// Counts, per player, the board columns whose topmost occupied cell belongs
/// to that player.
#[derive(Clone, Copy, PartialEq, Eq, Structural, Debug)]
pub struct Score {
    pub p1: i8,
    pub p2: i8,
}

impl Score {
    pub open spec fn spec_get(self, player: Player) -> i8 {
        match player {
            Player::P1 => self.p1,
            Player::P2 => self.p2,
        }
    }

    /// The count of columns topped by `player`.
    pub fn get(&self, player: Player) -> (r: i8)
        ensures
            r == self.spec_get(player),
    {
        match player {
            Player::P1 => self.p1,
            Player::P2 => self.p2,
        }
    }
}

impl Default for Score {
    fn default() -> (r: Score)
        ensures
            r == (Score { p1: 0, p2: 0 }),
    {
        Score { p1: 0, p2: 0 }
    }
}

} // verus!
