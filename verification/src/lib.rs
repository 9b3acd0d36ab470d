//! Rules engine for a three-dimensional polycube-placement board game.
//!
//! Players take turns placing rigid multi-cube pieces onto a bounded grid,
//! subject to geometric legality rules: in bounds, non-colliding,
//! gravitationally supported, and (after the opening placement) touching a
//! piece already on the board. A one-ply exhaustive greedy search provides a
//! non-interactive opponent and backs end-of-game detection.

pub mod action;
pub mod board;
pub mod board_state;
pub mod game_mode;
pub mod game_state;
pub mod hand;
pub mod piece;
pub mod player;
pub mod player_hand_state;
pub mod player_state;
pub mod rotation_axis;
pub mod score;
pub mod v3;
