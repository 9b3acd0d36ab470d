//! Everything a player can ask the engine to do.

use vstd::prelude::*;

use crate::piece::PieceName;
use crate::rotation_axis::RotationAxis;
use crate::v3::V3;

verus! {

/// A player's request against the game state; the single mutation surface of
/// the engine.
#[derive(Clone, Copy, Debug)]
pub enum Action {
    SelectPiece(PieceName),
    ClearSelectedPiece,
    SetSelectedPieceOrigin(V3),
    RotateSelectedPiece(RotationAxis),
    PreviewPiece(V3),
    PlayPreviewedPiece,
    PassTurn,
    Reset,
    MakeGreedyAIMove,
}

} // verus!
