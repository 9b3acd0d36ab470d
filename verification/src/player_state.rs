//! Whose turn it is, and both players' hands.

use vstd::prelude::*;

use crate::game_mode::GameMode;
use crate::piece::{Piece, PieceName};
use crate::player::Player;
use crate::player_hand_state::PlayerHandState;
use crate::rotation_axis::RotationAxis;
use crate::v3::V3;

verus! {

/// Both players' hands.
#[derive(Debug)]
pub struct Players {
    pub p1: PlayerHandState,
    pub p2: PlayerHandState,
}

/// Who is the current player, and the pieces in both players' hands.
#[derive(Debug)]
pub struct PlayerState {
    pub current_player: Player,
    pub players: Players,
}

impl Clone for Players {
    fn clone(&self) -> (r: Players)
        ensures
            hands_alike(r.p1, self.p1),
            hands_alike(r.p2, self.p2),
    {
        Players { p1: self.p1.clone(), p2: self.p2.clone() }
    }
}

impl Clone for PlayerState {
    fn clone(&self) -> (r: PlayerState)
        ensures
            r.current_player == self.current_player,
            hands_alike(r.hand_of(Player::P1), self.hand_of(Player::P1)),
            hands_alike(r.hand_of(Player::P2), self.hand_of(Player::P2)),
    {
        PlayerState { current_player: self.current_player, players: self.players.clone() }
    }
}

/// Two hand states agree on everything the contracts speak of: the selection
/// and every piece's cubes.
pub open spec fn hands_alike(a: PlayerHandState, b: PlayerHandState) -> bool {
    &&& a.selected_piece == b.selected_piece
    &&& forall|n: PieceName| (#[trigger] a.pieces.view_of(n)) == b.pieces.view_of(n)
    &&& forall|n: PieceName| ((#[trigger] a.pieces.spec_get(n)) is Some) == (b.pieces.spec_get(n) is Some)
}

impl PlayerState {
    /// The hand of the given player.
    pub open spec fn hand_of(self, player: Player) -> PlayerHandState {
        match player {
            Player::P1 => self.players.p1,
            Player::P2 => self.players.p2,
        }
    }

    /// Both hands are well formed.
    pub open spec fn wf(self) -> bool {
        self.players.p1.wf() && self.players.p2.wf()
    }

    /// The first player opens; both hands start full.
    pub fn new(game_mode: GameMode) -> (r: PlayerState)
        ensures
            r.current_player == Player::P1,
            r.players.p1.selected_piece is None,
            r.players.p2.selected_piece is None,
            forall|n: PieceName|
                (#[trigger] r.players.p1.pieces.view_of(n)) == Some(
                    crate::hand::spec_default_piece(n),
                ),
            forall|n: PieceName|
                (#[trigger] r.players.p2.pieces.view_of(n)) == Some(
                    crate::hand::spec_default_piece(n),
                ),
            r.wf(),
    {
        let _ = game_mode;
        PlayerState {
            current_player: Player::P1,
            players: Players { p1: PlayerHandState::default(), p2: PlayerHandState::default() },
        }
    }

    /// Deselects the current player's piece and hands the turn over.
    pub fn toggle_current_player(&mut self)
        ensures
            final(self).current_player == old(self).current_player.spec_other(),
            final(self).hand_of(old(self).current_player).selected_piece is None,
            final(self).hand_of(old(self).current_player).pieces == old(self).hand_of(
                old(self).current_player,
            ).pieces,
            final(self).hand_of(old(self).current_player.spec_other()) == old(self).hand_of(
                old(self).current_player.spec_other(),
            ),
            old(self).wf() ==> final(self).wf(),
    {
        match self.current_player {
            Player::P1 => self.players.p1.clear_selected_piece(),
            Player::P2 => self.players.p2.clear_selected_piece(),
        }
        self.current_player = self.current_player.get_other();
    }

    /// Selects a piece by name for the current player.
    pub fn select_piece(&mut self, piece_name: PieceName)
        ensures
            final(self).current_player == old(self).current_player,
            final(self).hand_of(old(self).current_player).selected_piece == Some(piece_name),
            final(self).hand_of(old(self).current_player).pieces == old(self).hand_of(
                old(self).current_player,
            ).pieces,
            final(self).hand_of(old(self).current_player.spec_other()) == old(self).hand_of(
                old(self).current_player.spec_other(),
            ),
            old(self).wf() ==> final(self).wf(),
    {
        match self.current_player {
            Player::P1 => self.players.p1.set_selected_piece(piece_name),
            Player::P2 => self.players.p2.set_selected_piece(piece_name),
        }
    }

    /// Deselects the current player's piece.
    pub fn clear_selected_piece(&mut self)
        ensures
            final(self).current_player == old(self).current_player,
            final(self).hand_of(old(self).current_player).selected_piece is None,
            final(self).hand_of(old(self).current_player).pieces == old(self).hand_of(
                old(self).current_player,
            ).pieces,
            final(self).hand_of(old(self).current_player.spec_other()) == old(self).hand_of(
                old(self).current_player.spec_other(),
            ),
            old(self).wf() ==> final(self).wf(),
    {
        match self.current_player {
            Player::P1 => self.players.p1.clear_selected_piece(),
            Player::P2 => self.players.p2.clear_selected_piece(),
        }
    }

    /// Turns the current player's selected piece about the chosen axis.
    pub fn rotate_selected_piece(&mut self, rotation_axis: RotationAxis)
        ensures
            final(self).current_player == old(self).current_player,
            rotate_hand_rel(
                old(self).hand_of(old(self).current_player),
                final(self).hand_of(old(self).current_player),
                rotation_axis,
            ),
            final(self).hand_of(old(self).current_player.spec_other()) == old(self).hand_of(
                old(self).current_player.spec_other(),
            ),
            old(self).wf() ==> final(self).wf(),
    {
        match self.current_player {
            Player::P1 => self.players.p1.rotate_selected_piece(rotation_axis),
            Player::P2 => self.players.p2.rotate_selected_piece(rotation_axis),
        }
    }

    /// Re-expresses the current player's selected piece about a new origin.
    pub fn set_selected_piece_origin(&mut self, new_origin: V3)
        ensures
            final(self).current_player == old(self).current_player,
            set_origin_hand_rel(
                old(self).hand_of(old(self).current_player),
                final(self).hand_of(old(self).current_player),
                new_origin,
            ),
            final(self).hand_of(old(self).current_player.spec_other()) == old(self).hand_of(
                old(self).current_player.spec_other(),
            ),
            old(self).wf() ==> final(self).wf(),
    {
        match self.current_player {
            Player::P1 => self.players.p1.set_selected_piece_origin(new_origin),
            Player::P2 => self.players.p2.set_selected_piece_origin(new_origin),
        }
    }

    /// Takes the current player's selected piece out of their hand, then
    /// hands the turn over.
    pub fn play_selected_piece(&mut self)
        ensures
            final(self).current_player == old(self).current_player.spec_other(),
            final(self).hand_of(old(self).current_player).selected_piece is None,
            forall|n: PieceName|
                (#[trigger] final(self).hand_of(old(self).current_player).pieces.view_of(n)) == (
                if old(self).hand_of(old(self).current_player).selected_piece == Some(n) {
                    None::<Seq<V3>>
                } else {
                    old(self).hand_of(old(self).current_player).pieces.view_of(n)
                }),
            final(self).hand_of(old(self).current_player.spec_other()) == old(self).hand_of(
                old(self).current_player.spec_other(),
            ),
            old(self).wf() ==> final(self).wf(),
    {
        match self.current_player {
            Player::P1 => self.players.p1.play_selected_piece(),
            Player::P2 => self.players.p2.play_selected_piece(),
        }
        self.toggle_current_player();
    }

    /// The current player's selected piece, when one is selected and still in
    /// hand, tagged with who is acting.
    pub fn get_selected_piece(&self) -> (r: Option<(Player, Piece)>)
        ensures
            match r {
                Some(p) => p.0 == self.current_player && Some(p.1@) == self.hand_of(
                    self.current_player,
                ).spec_selected_view(),
                None => self.hand_of(self.current_player).spec_selected_view() is None,
            },
    {
        let piece = match self.current_player {
            Player::P1 => self.players.p1.get_selected_piece(),
            Player::P2 => self.players.p2.get_selected_piece(),
        };
        match piece {
            Some(p) => Some((self.current_player, p)),
            None => None,
        }
    }

    /// All candidate orientations of the current player's remaining pieces.
    pub fn get_available_piece_rotations(&self) -> (r: Vec<(PieceName, Piece)>)
        ensures
            forall|k: int|
                0 <= k < r@.len() ==> crate::player_hand_state::rotation_entry_ok(
                    self.hand_of(self.current_player).pieces,
                    #[trigger] r@[k],
                ),
            forall|n: PieceName| #[trigger]
                crate::player_hand_state::covers_piece(
                    self.hand_of(self.current_player).pieces,
                    r@,
                    n,
                ),
    {
        match self.current_player {
            Player::P1 => self.players.p1.get_available_piece_rotations(),
            Player::P2 => self.players.p2.get_available_piece_rotations(),
        }
    }
}

/// What turning the selected piece does to a hand.
pub open spec fn rotate_hand_rel(
    a: PlayerHandState,
    b: PlayerHandState,
    axis: RotationAxis,
) -> bool {
    &&& b.selected_piece == a.selected_piece
    &&& forall|n: PieceName|
        (#[trigger] b.pieces.view_of(n)) == (if a.selected_piece == Some(n) {
            match a.pieces.view_of(n) {
                Some(v) => Some(
                    match axis {
                        RotationAxis::X => crate::piece::piece_rot_x(v),
                        RotationAxis::Y => crate::piece::piece_rot_y(v),
                    },
                ),
                None => None,
            }
        } else {
            a.pieces.view_of(n)
        })
}

/// What re-originating the selected piece does to a hand.
pub open spec fn set_origin_hand_rel(a: PlayerHandState, b: PlayerHandState, o: V3) -> bool {
    &&& b.selected_piece == a.selected_piece
    &&& forall|n: PieceName|
        (#[trigger] b.pieces.view_of(n)) == (if a.selected_piece == Some(n) {
            match a.pieces.view_of(n) {
                Some(v) => Some(crate::piece::re_originated(v, o)),
                None => None,
            }
        } else {
            a.pieces.view_of(n)
        })
}

impl Default for PlayerState {
    /// The first player opens; both hands start full.
    fn default() -> (r: PlayerState)
        ensures
            r.current_player == Player::P1,
            r.players.p1.selected_piece is None,
            r.players.p2.selected_piece is None,
            forall|n: PieceName|
                (#[trigger] r.players.p1.pieces.view_of(n)) == Some(
                    crate::hand::spec_default_piece(n),
                ),
            forall|n: PieceName|
                (#[trigger] r.players.p2.pieces.view_of(n)) == Some(
                    crate::hand::spec_default_piece(n),
                ),
            r.wf(),
    {
        PlayerState::new(GameMode::TwoPlayer(crate::game_mode::TwoPlayerMap::Tower))
    }
}

} // verus!
