//! Game mode and map selection, fixed at construction time.

use vstd::prelude::*;

verus! {

/// How the game is played and on which map.
#[derive(Clone, Copy, PartialEq, Eq, Structural, Debug)]
pub enum GameMode {
    Solitaire(SolitaireMap),
    TwoPlayer(TwoPlayerMap),
    VSGreedyAI(TwoPlayerMap),
}

impl Default for GameMode {
    fn default() -> (r: GameMode)
        ensures
            r == GameMode::TwoPlayer(TwoPlayerMap::Tower),
    {
        GameMode::TwoPlayer(TwoPlayerMap::Tower)
    }
}

/// Map presets for a single-player game.
#[derive(Clone, Copy, PartialEq, Eq, Structural, Debug)]
pub enum SolitaireMap {
    FourByFiveByTwo,
}

/// Map presets for a two-player game.
#[derive(Clone, Copy, PartialEq, Eq, Structural, Debug)]
pub enum TwoPlayerMap {
    Tower,
    Pyramid,
    Stairs,
    Wall,
}

} // verus!
