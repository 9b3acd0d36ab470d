//! The axis a player may rotate the selected piece about.

use vstd::prelude::*;

verus! {

/// Which axis the current player rotates the selected piece around.
///
/// Only quarter turns about X and Y are exposed to players.
#[derive(Clone, Copy, PartialEq, Eq, Structural, Debug)]
pub enum RotationAxis {
    X,
    Y,
}

} // verus!
