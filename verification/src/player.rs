//! The two players.

use vstd::prelude::*;

verus! {

/// One of the two players; tags piece ownership and indexes per-player state.
#[derive(Clone, Copy, PartialEq, Eq, Structural, Debug, Hash)]
pub enum Player {
    P1,
    P2,
}

impl Player {
    pub open spec fn spec_other(self) -> Player {
        match self {
            Player::P1 => Player::P2,
            Player::P2 => Player::P1,
        }
    }

    /// The opponent of this player.
    pub fn get_other(&self) -> (r: Player)
        ensures
            r == self.spec_other(),
    {
        match self {
            Player::P1 => Player::P2,
            Player::P2 => Player::P1,
        }
    }
}

impl Default for Player {
    /// The first player opens the game.
    fn default() -> (r: Player)
        ensures
            r == Player::P1,
    {
        Player::P1
    }
}

} // verus!
