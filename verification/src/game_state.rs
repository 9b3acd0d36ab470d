//! The whole game: board, players, mode, score and end-of-game flag, driven
//! by a single action entry point, with the one-ply exhaustive greedy search
//! that powers the automated opponent and end-of-game detection.

use vstd::prelude::*;

use itertools::Itertools;

use crate::action::Action;
use crate::board::{board_after, BoardCell, BoardModel, Cube};
use crate::board_state::{
    all_error_free, placement_ok, preview_view, spec_check_piece_placement, BoardState,
};
use crate::game_mode::GameMode;
use crate::hand::Hand;
use crate::piece::{orientation_of, Piece, PieceName};
use crate::player::Player;
use crate::player_state::{
    hands_alike, rotate_hand_rel, set_origin_hand_rel, PlayerState,
};
use crate::rotation_axis::RotationAxis;
use crate::score::Score;
use crate::v3::V3;

verus! {

/// The full state of one game.
#[derive(Debug)]
pub struct GameState {
    pub player_state: PlayerState,
    pub board_state: BoardState,
    pub game_mode: GameMode,
    pub score: Score,
    pub game_ended: bool,
}

/// A placement a player could legally make: some orientation of a piece still
/// in their hand, offered at an empty cell, that the whole legality pipeline
/// accepts.
pub open spec fn legal_move(
    m: BoardModel,
    h: Hand,
    player: Player,
    n: PieceName,
    i: int,
    j: int,
    pos: V3,
) -> bool {
    &&& 0 <= i < 6
    &&& 0 <= j < 4
    &&& placement_ok_opt(m, player, orientation_of(h.view_of(n), i, j), pos)
    &&& m.spec_get(pos) == Some(BoardCell::Empty)
}

/// Legality of an optional piece: a played (absent) piece has no legal
/// placement.
pub open spec fn placement_ok_opt(
    m: BoardModel,
    player: Player,
    o: Option<Seq<V3>>,
    pos: V3,
) -> bool {
    match o {
        Some(s) => placement_ok(m, player, s, pos),
        None => false,
    }
}

/// Whether the player, with the pieces of the given hand, has any legal
/// placement on the board.
#[verifier::opaque]
pub open spec fn spec_move_exists(m: BoardModel, h: Hand, player: Player) -> bool {
    exists|n: PieceName, i: int, j: int, pos: V3| #[trigger] legal_move(m, h, player, n, i, j, pos)
}

/// The immediate score differential, for `player`, of the board after
/// committing the placement.
pub open spec fn move_diff(m: BoardModel, player: Player, piece: Seq<V3>, pos: V3) -> int {
    let after = board_after(m, spec_check_piece_placement(m, player, piece, pos));
    after.spec_score(player) - after.spec_score(player.spec_other())
}

/// The score differential of an optional piece's placement; a played piece
/// scores nothing.
pub open spec fn move_diff_opt(m: BoardModel, player: Player, o: Option<Seq<V3>>, pos: V3) -> int {
    match o {
        Some(s) => move_diff(m, player, s, pos),
        None => 0,
    }
}

/// What selecting a piece does: the current player's selection changes, the
/// preview is discarded, and everything else stands.
pub open spec fn select_piece_rel(a: GameState, b: GameState, name: PieceName) -> bool {
    let cp = a.player_state.current_player;
    &&& b.game_mode == a.game_mode
    &&& b.game_ended == a.game_ended
    &&& b.score == a.score
    &&& b.board_state.board@ == a.board_state.board@
    &&& b.board_state.previewed_piece is None
    &&& b.player_state.current_player == cp
    &&& b.player_state.hand_of(cp).selected_piece == Some(name)
    &&& b.player_state.hand_of(cp).pieces == a.player_state.hand_of(cp).pieces
    &&& b.player_state.hand_of(cp.spec_other()) == a.player_state.hand_of(cp.spec_other())
}

/// What deselecting does: the selection and the preview are discarded, and
/// everything else stands.
pub open spec fn clear_selected_piece_rel(a: GameState, b: GameState) -> bool {
    let cp = a.player_state.current_player;
    &&& b.game_mode == a.game_mode
    &&& b.game_ended == a.game_ended
    &&& b.score == a.score
    &&& b.board_state.board@ == a.board_state.board@
    &&& b.board_state.previewed_piece is None
    &&& b.player_state.current_player == cp
    &&& b.player_state.hand_of(cp).selected_piece is None
    &&& b.player_state.hand_of(cp).pieces == a.player_state.hand_of(cp).pieces
    &&& b.player_state.hand_of(cp.spec_other()) == a.player_state.hand_of(cp.spec_other())
}

/// What rotating the selected piece does: the piece turns in the hand, the
/// preview is discarded, and everything else stands.
pub open spec fn rotate_selected_rel(a: GameState, b: GameState, axis: RotationAxis) -> bool {
    let cp = a.player_state.current_player;
    &&& b.game_mode == a.game_mode
    &&& b.game_ended == a.game_ended
    &&& b.score == a.score
    &&& b.board_state.board@ == a.board_state.board@
    &&& b.board_state.previewed_piece is None
    &&& b.player_state.current_player == cp
    &&& rotate_hand_rel(a.player_state.hand_of(cp), b.player_state.hand_of(cp), axis)
    &&& b.player_state.hand_of(cp.spec_other()) == a.player_state.hand_of(cp.spec_other())
}

/// What re-originating the selected piece does: the piece's offsets change in
/// the hand and everything else stands, the preview included.
pub open spec fn set_origin_rel(a: GameState, b: GameState, o: V3) -> bool {
    let cp = a.player_state.current_player;
    &&& b.game_mode == a.game_mode
    &&& b.game_ended == a.game_ended
    &&& b.score == a.score
    &&& b.board_state == a.board_state
    &&& b.player_state.current_player == cp
    &&& set_origin_hand_rel(a.player_state.hand_of(cp), b.player_state.hand_of(cp), o)
    &&& b.player_state.hand_of(cp.spec_other()) == a.player_state.hand_of(cp.spec_other())
}

/// What previewing does: with a selected piece in hand the annotated preview
/// of placing it at `pos` is stored; without one nothing happens. The board
/// itself never changes.
pub open spec fn preview_piece_rel(a: GameState, b: GameState, pos: V3) -> bool {
    let cp = a.player_state.current_player;
    &&& b.game_mode == a.game_mode
    &&& b.game_ended == a.game_ended
    &&& b.score == a.score
    &&& b.player_state == a.player_state
    &&& b.board_state.board == a.board_state.board
    &&& match a.player_state.hand_of(cp).spec_selected_view() {
        Some(v) => preview_view(b.board_state.previewed_piece) == Some(
            spec_check_piece_placement(a.board_state.board@, cp, v, pos),
        ),
        None => b.board_state == a.board_state,
    }
}

/// What a successful commit does: every cube is written, the preview is
/// discarded, the removed piece leaves the acting player's hand, the turn
/// passes, and the score is recomputed from the new board.
pub open spec fn commit_outcome(
    a: GameState,
    b: GameState,
    cubes: Seq<Cube>,
    removed: Option<PieceName>,
) -> bool {
    let cp = a.player_state.current_player;
    let after = board_after(a.board_state.board@, cubes);
    &&& b.game_mode == a.game_mode
    &&& b.game_ended == a.game_ended
    &&& b.board_state.board@ == after
    &&& b.board_state.previewed_piece is None
    &&& b.player_state.current_player == cp.spec_other()
    &&& b.player_state.hand_of(cp).selected_piece is None
    &&& (forall|n: PieceName|
        (#[trigger] b.player_state.hand_of(cp).pieces.view_of(n)) == (if removed == Some(n) {
            None::<Seq<V3>>
        } else {
            a.player_state.hand_of(cp).pieces.view_of(n)
        }))
    &&& b.player_state.hand_of(cp.spec_other()) == a.player_state.hand_of(cp.spec_other())
    &&& b.score.p1 == after.spec_score(Player::P1)
    &&& b.score.p2 == after.spec_score(Player::P2)
}

/// Whether the state holds a preview that a commit would accept.
pub open spec fn commit_possible(a: GameState) -> bool {
    match a.board_state.previewed_piece {
        Some(cubes) => all_error_free(cubes@),
        None => false,
    }
}

/// What attempting to play the preview does: a fully error-free preview is
/// committed; anything else rejects the commit and leaves the state alone.
pub open spec fn play_previewed_rel(a: GameState, b: GameState, ok: bool) -> bool {
    match a.board_state.previewed_piece {
        Some(cubes) => if all_error_free(cubes@) {
            ok && commit_outcome(
                a,
                b,
                cubes@,
                a.player_state.hand_of(a.player_state.current_player).selected_piece,
            )
        } else {
            !ok && b == a
        },
        None => !ok && b == a,
    }
}

/// What passing the turn does: the preview and the selection go, the turn
/// passes, and the game ends once neither player has a legal move left.
pub open spec fn pass_turn_rel(a: GameState, b: GameState) -> bool {
    let cp = a.player_state.current_player;
    let m = a.board_state.board@;
    &&& b.game_mode == a.game_mode
    &&& b.score == a.score
    &&& b.board_state.board@ == m
    &&& b.board_state.previewed_piece is None
    &&& b.player_state.current_player == cp.spec_other()
    &&& b.player_state.hand_of(cp).selected_piece is None
    &&& b.player_state.hand_of(cp).pieces == a.player_state.hand_of(cp).pieces
    &&& b.player_state.hand_of(cp.spec_other()) == a.player_state.hand_of(cp.spec_other())
    &&& b.game_ended == (a.game_ended || (!spec_move_exists(
        m,
        a.player_state.hand_of(Player::P1).pieces,
        Player::P1,
    ) && !spec_move_exists(m, a.player_state.hand_of(Player::P2).pieces, Player::P2)))
}

/// What a reset does: fresh default board and hands; the mode, and the score
/// and end flag of the finished game, stand until the next commit or pass.
pub open spec fn reset_rel(a: GameState, b: GameState) -> bool {
    &&& b.game_mode == a.game_mode
    &&& b.game_ended == a.game_ended
    &&& b.score == a.score
    &&& crate::board::fresh_board(b.board_state.board@)
    &&& b.board_state.board@.limits == crate::board::spec_map_heights(
        crate::game_mode::TwoPlayerMap::Tower,
    )
    &&& b.board_state.previewed_piece is None
    &&& b.player_state.current_player == Player::P1
    &&& b.player_state.hand_of(Player::P1).selected_piece is None
    &&& b.player_state.hand_of(Player::P2).selected_piece is None
    &&& (forall|n: PieceName|
        (#[trigger] b.player_state.hand_of(Player::P1).pieces.view_of(n)) == Some(
            crate::hand::spec_default_piece(n),
        ))
    &&& (forall|n: PieceName|
        (#[trigger] b.player_state.hand_of(Player::P2).pieces.view_of(n)) == Some(
            crate::hand::spec_default_piece(n),
        ))
}

/// What the greedy opponent does: with no legal move it passes the turn; with
/// one it commits a legal move whose immediate score differential no other
/// legal move beats.
pub open spec fn greedy_move_rel(a: GameState, b: GameState) -> bool {
    let cp = a.player_state.current_player;
    let m = a.board_state.board@;
    let h = a.player_state.hand_of(cp).pieces;
    if spec_move_exists(m, h, cp) {
        exists|n: PieceName, i: int, j: int, pos: V3|
            {
                &&& #[trigger] legal_move(m, h, cp, n, i, j, pos)
                &&& commit_outcome(
                    a,
                    b,
                    spec_check_piece_placement(
                        m,
                        cp,
                        orientation_of(h.view_of(n), i, j).unwrap(),
                        pos,
                    ),
                    Some(n),
                )
                &&& (forall|n2: PieceName, i2: int, j2: int, pos2: V3|
                    #[trigger] legal_move(m, h, cp, n2, i2, j2, pos2) ==> move_diff_opt(
                        m,
                        cp,
                        orientation_of(h.view_of(n2), i2, j2),
                        pos2,
                    ) <= move_diff_opt(m, cp, orientation_of(h.view_of(n), i, j), pos))
            }
    } else {
        pass_turn_rel(a, b)
    }
}

impl GameState {
    /// The whole state is sound: board, preview and hands are well formed and
    /// the score is a pair of column counts.
    pub open spec fn wf(self) -> bool {
        &&& self.board_state.wf()
        &&& self.player_state.wf()
        &&& 0 <= self.score.p1
        &&& 0 <= self.score.p2
        &&& self.score.p1 + self.score.p2 <= 64
    }

    /// A fresh game of the chosen mode. Solitaire maps are not offered yet,
    /// so a mode must name a two-player map.
    pub fn new(game_mode: GameMode) -> (r: GameState)
        requires
            !(game_mode matches GameMode::Solitaire(_)),
        ensures
            r.wf(),
            r.game_mode == game_mode,
            r.game_ended == false,
            r.score == (Score { p1: 0, p2: 0 }),
            r.player_state.current_player == Player::P1,
            r.board_state.previewed_piece is None,
            crate::board::fresh_board(r.board_state.board@),
            r.board_state.board@.limits == crate::board::spec_map_heights(
                crate::board::spec_mode_map(game_mode),
            ),
            forall|n: PieceName|
                (#[trigger] r.player_state.hand_of(
                    Player::P1,
                ).pieces.view_of(n)) == Some(crate::hand::spec_default_piece(n)),
            forall|n: PieceName|
                (#[trigger] r.player_state.hand_of(
                    Player::P2,
                ).pieces.view_of(n)) == Some(crate::hand::spec_default_piece(n)),
            r.player_state.hand_of(Player::P1).selected_piece is None,
            r.player_state.hand_of(Player::P2).selected_piece is None,
    {
        GameState {
            game_mode,
            player_state: PlayerState::new(game_mode),
            board_state: BoardState::new(game_mode),
            score: Score { p1: 0, p2: 0 },
            game_ended: false,
        }
    }

    fn select_piece(&mut self, piece_name: PieceName)
        requires
            old(self).wf(),
        ensures
            final(self).wf(),
            select_piece_rel(*old(self), *final(self), piece_name),
    {
        self.player_state.select_piece(piece_name);
        self.board_state.clear_previewed_piece()
    }

    fn clear_selected_piece(&mut self)
        requires
            old(self).wf(),
        ensures
            final(self).wf(),
            clear_selected_piece_rel(*old(self), *final(self)),
    {
        self.board_state.clear_previewed_piece();
        self.player_state.clear_selected_piece();
    }

    fn rotate_selected_piece(&mut self, rotation_axis: RotationAxis)
        requires
            old(self).wf(),
        ensures
            final(self).wf(),
            rotate_selected_rel(*old(self), *final(self), rotation_axis),
    {
        self.player_state.rotate_selected_piece(rotation_axis);
        self.board_state.clear_previewed_piece()
    }

    fn set_selected_piece_origin(&mut self, new_origin: V3)
        requires
            old(self).wf(),
        ensures
            final(self).wf(),
            set_origin_rel(*old(self), *final(self), new_origin),
    {
        self.player_state.set_selected_piece_origin(new_origin)
    }

    fn preview_piece(&mut self, position: V3)
        requires
            old(self).wf(),
        ensures
            final(self).wf(),
            preview_piece_rel(*old(self), *final(self), position),
    {
        match self.player_state.get_selected_piece() {
            Some(current_player_and_piece) => {
                let (current_player, piece) = current_player_and_piece;
                self.board_state.preview_piece(current_player, &piece, position)
            },
            None => {},
        }
    }

    /// Commits the previewed move when it exists and is fully error-free;
    /// otherwise rejects the commit and changes nothing.
    pub fn play_previewed_piece(&mut self) -> (r: Result<(), ()>)
        requires
            old(self).wf(),
        ensures
            final(self).wf(),
            play_previewed_rel(*old(self), *final(self), r is Ok),
            (r is Ok) == commit_possible(*old(self)),
    {
        match self.board_state.play_selected_piece() {
            Ok(()) => {
                self.player_state.play_selected_piece();
                self.score = self.board_state.calculate_score();
                Ok(())
            },
            Err(()) => Err(()),
        }
    }

    fn reset(&mut self)
        requires
            old(self).wf(),
        ensures
            final(self).wf(),
            reset_rel(*old(self), *final(self)),
    {
        self.player_state = PlayerState::default();
        self.board_state = BoardState::default();
    }

    /// Whether `player`, with the pieces now in their hand, has any legal
    /// placement among all orientations and empty cells.
    fn available_move_exists(&self, player: Player) -> (r: bool)
        requires
            self.wf(),
        ensures
            r == spec_move_exists(
                self.board_state.board@,
                self.player_state.hand_of(player).pieces,
                player,
            ),
    {
        let ghost m = self.board_state.board@;
        let ghost h = self.player_state.hand_of(player).pieces;
        let rotations = match player {
            Player::P1 => self.player_state.players.p1.get_available_piece_rotations(),
            Player::P2 => self.player_state.players.p2.get_available_piece_rotations(),
        };
        let positions = self.board_state.board.get_available_positions();
        let mut a: usize = 0;
        while a < rotations.len()
            invariant
                a <= rotations@.len(),
                self.wf(),
                m == self.board_state.board@,
                h == self.player_state.hand_of(player).pieces,
                forall|k: int|
                    0 <= k < rotations@.len() ==> crate::player_hand_state::rotation_entry_ok(
                        h,
                        #[trigger] rotations@[k],
                    ),
                forall|n: PieceName| #[trigger]
                    crate::player_hand_state::covers_piece(h, rotations@, n),
                forall|p: V3| positions@.contains(p) <==> m.spec_get(p) == Some(BoardCell::Empty),
                forall|a2: int, b2: int|
                    #![trigger rotations@[a2], positions@[b2]]
                    0 <= a2 < a && 0 <= b2 < positions@.len() ==> !placement_ok(
                        m,
                        player,
                        rotations@[a2].1@,
                        positions@[b2],
                    ),
            decreases rotations@.len() - a,
        {
            let piece = &rotations[a].1;
            proof {
                lemma_listed_rotation_is_nonempty(h, rotations@, a as int);
            }
            let mut b: usize = 0;
            while b < positions.len()
                invariant
                    a < rotations@.len(),
                    b <= positions@.len(),
                    self.wf(),
                    m == self.board_state.board@,
                    h == self.player_state.hand_of(player).pieces,
                    piece@ == rotations@[a as int].1@,
                    piece@.len() > 0,
                    forall|k: int|
                        0 <= k < rotations@.len() ==> crate::player_hand_state::rotation_entry_ok(
                            h,
                            #[trigger] rotations@[k],
                        ),
                    forall|p: V3|
                        positions@.contains(p) <==> m.spec_get(p) == Some(BoardCell::Empty),
                    forall|a2: int, b2: int|
                        #![trigger rotations@[a2], positions@[b2]]
                        0 <= a2 < a && 0 <= b2 < positions@.len() ==> !placement_ok(
                            m,
                            player,
                            rotations@[a2].1@,
                            positions@[b2],
                        ),
                    forall|b2: int|
                        0 <= b2 < b ==> !placement_ok(
                            m,
                            player,
                            rotations@[a as int].1@,
                            #[trigger] positions@[b2],
                        ),
                decreases positions@.len() - b,
            {
                let cubes = self.board_state.check_piece_placement(player, piece, positions[b]);
                if cubes_all_error_free(&cubes) {
                    proof {
                        reveal(crate::player_hand_state::rotation_entry_ok);
                        assert(crate::player_hand_state::rotation_entry_ok(
                            h,
                            rotations@[a as int],
                        ));
                        let (i, j) = choose|i: int, j: int|
                            0 <= i < 6 && 0 <= j < 4 && Some(rotations@[a as int].1@)
                                == orientation_of(h.view_of(rotations@[a as int].0), i, j);
                        assert(positions@.contains(positions@[b as int]));
                        assert(legal_move(
                            m,
                            h,
                            player,
                            rotations@[a as int].0,
                            i,
                            j,
                            positions@[b as int],
                        ));
                        reveal(spec_move_exists);
                    }
                    return true;
                }
                b = b + 1;
            }
            a = a + 1;
        }
        proof {
            reveal(spec_move_exists);
            if spec_move_exists(m, h, player) {
                let (n, i, j, pos) = choose|n: PieceName, i: int, j: int, pos: V3|
                    legal_move(m, h, player, n, i, j, pos);
                reveal(crate::player_hand_state::covers_piece);
                assert(crate::player_hand_state::covers_piece(h, rotations@, n));
                let k = choose|k: int|
                    0 <= k < rotations@.len() && (#[trigger] rotations@[k]).0 == n && Some(
                        rotations@[k].1@,
                    ) == orientation_of(h.view_of(n), i, j);
                assert(positions@.contains(pos));
                let b2 = choose|b2: int| 0 <= b2 < positions@.len() && positions@[b2] == pos;
                assert(!placement_ok(m, player, rotations@[k].1@, positions@[b2]));
                assert(false);
            }
        }
        false
    }

    /// The game ends once neither player has any legal move left.
    fn determine_game_ended(&mut self)
        requires
            old(self).wf(),
        ensures
            final(self).wf(),
            final(self).player_state == old(self).player_state,
            final(self).board_state == old(self).board_state,
            final(self).score == old(self).score,
            final(self).game_mode == old(self).game_mode,
            final(self).game_ended == (old(self).game_ended || (!spec_move_exists(
                old(self).board_state.board@,
                old(self).player_state.hand_of(Player::P1).pieces,
                Player::P1,
            ) && !spec_move_exists(
                old(self).board_state.board@,
                old(self).player_state.hand_of(Player::P2).pieces,
                Player::P2,
            ))),
    {
        if !self.available_move_exists(Player::P1) && !self.available_move_exists(Player::P2) {
            self.game_ended = true;
        }
    }

    /// Passes the turn: the preview and the selection go, the other player
    /// acts next, and the game ends once neither player has a legal move.
    pub fn pass_turn(&mut self)
        requires
            old(self).wf(),
        ensures
            final(self).wf(),
            pass_turn_rel(*old(self), *final(self)),
    {
        self.board_state.clear_previewed_piece();
        self.player_state.toggle_current_player();
        self.determine_game_ended();
    }

    /// All candidate orientations of the current player's remaining pieces.
    pub fn get_available_piece_rotations(&self) -> (r: Vec<(PieceName, Piece)>)
        ensures
            forall|k: int|
                0 <= k < r@.len() ==> crate::player_hand_state::rotation_entry_ok(
                    self.player_state.hand_of(self.player_state.current_player).pieces,
                    #[trigger] r@[k],
                ),
            forall|n: PieceName| #[trigger]
                crate::player_hand_state::covers_piece(
                    self.player_state.hand_of(self.player_state.current_player).pieces,
                    r@,
                    n,
                ),
    {
        self.player_state.get_available_piece_rotations()
    }

    /// Plays the one-ply exhaustive greedy opponent's turn: every orientation
    /// of every piece in hand is tried at every empty cell, each candidate is
    /// scored on a copy of the board, and a legal candidate maximizing the
    /// immediate score differential is committed; with no legal candidate the
    /// turn is passed.
    pub fn make_greedy_ai_move(&mut self)
        requires
            old(self).wf(),
        ensures
            final(self).wf(),
            greedy_move_rel(*old(self), *final(self)),
    {
        let current = self.player_state.current_player;
        let other = current.get_other();
        let rotations = self.player_state.get_available_piece_rotations();
        let positions = self.board_state.board.get_available_positions();
        let pairs = all_move_candidates(&rotations, &positions);
        let ghost m = self.board_state.board@;
        let ghost h = self.player_state.hand_of(current).pieces;
        let num_positions = positions.len();
        let mut best: Option<(i8, usize, usize)> = None;
        let mut a: usize = 0;
        proof {
            reveal(best_candidate_inv);
            assert(best_candidate_inv(m, current, rotations@, positions@, best, 0, 0));
        }
        while a < rotations.len()
            invariant
                *self == *old(self),
                self.wf(),
                a <= rotations@.len(),
                current == self.player_state.current_player,
                other == current.spec_other(),
                m == self.board_state.board@,
                h == self.player_state.hand_of(current).pieces,
                num_positions == positions@.len(),
                pairs@.len() == rotations@.len() * positions@.len(),
                forall|a2: int, b2: int|
                    0 <= a2 < rotations@.len() && 0 <= b2 < positions@.len()
                        ==> candidate_entry_matches(
                        #[trigger] pair_at(pairs@, positions@.len() as int, a2, b2),
                        rotations@[a2],
                        positions@[b2],
                    ),
                forall|k: int|
                    0 <= k < rotations@.len() ==> crate::player_hand_state::rotation_entry_ok(
                        h,
                        #[trigger] rotations@[k],
                    ),
                forall|n: PieceName| #[trigger]
                    crate::player_hand_state::covers_piece(h, rotations@, n),
                forall|p: V3| positions@.contains(p) <==> m.spec_get(p) == Some(BoardCell::Empty),
                best_candidate_inv(m, current, rotations@, positions@, best, a as int, 0),
            decreases rotations@.len() - a,
        {
            let piece = &rotations[a].1;
            proof {
                lemma_listed_rotation_is_nonempty(h, rotations@, a as int);
            }
            let mut b: usize = 0;
            while b < num_positions
                invariant
                    *self == *old(self),
                    self.wf(),
                    a < rotations@.len(),
                    b <= positions@.len(),
                    current == self.player_state.current_player,
                    other == current.spec_other(),
                    m == self.board_state.board@,
                    h == self.player_state.hand_of(current).pieces,
                    num_positions == positions@.len(),
                    piece@ == rotations@[a as int].1@,
                    piece@.len() > 0,
                    pairs@.len() == rotations@.len() * positions@.len(),
                    best_candidate_inv(m, current, rotations@, positions@, best, a as int, b as int),
                decreases positions@.len() - b,
            {
                match candidate_diff(&self.board_state, current, piece, positions[b]) {
                    Some(diff) => {
                        let replace = match &best {
                            None => true,
                            Some(t) => diff >= t.0,
                        };
                        if replace {
                            best = Some((diff, a, b));
                        }
                        proof {
                            reveal(best_candidate_inv);
                        }
                    },
                    None => {
                        proof {
                            reveal(best_candidate_inv);
                        }
                    },
                }
                b = b + 1;
            }
            proof {
                reveal(best_candidate_inv);
            }
            a = a + 1;
        }
        match best {
            None => {
                proof {
                    reveal(best_candidate_inv);
                    reveal(spec_move_exists);
                    if spec_move_exists(m, h, current) {
                        let (n, i, j, pos) = choose|n: PieceName, i: int, j: int, pos: V3|
                            legal_move(m, h, current, n, i, j, pos);
                        reveal(crate::player_hand_state::covers_piece);
                        assert(crate::player_hand_state::covers_piece(h, rotations@, n));
                        let k = choose|k: int|
                            0 <= k < rotations@.len() && (#[trigger] rotations@[k]).0 == n && Some(
                                rotations@[k].1@,
                            ) == orientation_of(h.view_of(n), i, j);
                        assert(positions@.contains(pos));
                        let b2 = choose|b2: int|
                            0 <= b2 < positions@.len() && positions@[b2] == pos;
                        assert(!placement_ok(m, current, rotations@[k].1@, positions@[b2]));
                        assert(false);
                    }
                }
                self.pass_turn();
            },
            Some(chosen) => {
                let (best_diff, a0, b0) = chosen;
                proof {
                    reveal(best_candidate_inv);
                    lemma_candidate_index_in_range(
                        rotations@.len() as int,
                        positions@.len() as int,
                        a0 as int,
                        b0 as int,
                    );
                    assert((a0 as int) * (num_positions as int) + (b0 as int) < pairs@.len());
                }
                let total_candidates = pairs.len();
                proof {
                    assert((a0 as int) * (num_positions as int) + (b0 as int) < total_candidates);
                }
                let idx = a0 * num_positions + b0;
                proof {
                    assert(pair_at(pairs@, positions@.len() as int, a0 as int, b0 as int)
                        == pairs@[idx as int]);
                }
                let name = pairs[idx].0.0;
                let pos = pairs[idx].1;
                self.select_piece(name);
                let piece = pairs[idx].0.1.clone();
                proof {
                    lemma_listed_rotation_is_nonempty(h, rotations@, a0 as int);
                }
                self.board_state.preview_piece(current, &piece, pos);
                let played = self.play_previewed_piece();
                proof {
                    assert(played is Ok);
                    reveal(crate::player_hand_state::rotation_entry_ok);
                    assert(crate::player_hand_state::rotation_entry_ok(
                        h,
                        rotations@[a0 as int],
                    ));
                    let (i, j) = choose|i: int, j: int|
                        0 <= i < 6 && 0 <= j < 4 && Some(rotations@[a0 as int].1@)
                            == orientation_of(h.view_of(rotations@[a0 as int].0), i, j);
                    let n = rotations@[a0 as int].0;
                    assert(positions@.contains(positions@[b0 as int]));
                    assert(legal_move(m, h, current, n, i, j, pos));
                    reveal(spec_move_exists);
                    assert(spec_move_exists(m, h, current));
                    assert(commit_outcome(
                        *old(self),
                        *self,
                        spec_check_piece_placement(
                            m,
                            current,
                            orientation_of(h.view_of(n), i, j).unwrap(),
                            pos,
                        ),
                        Some(n),
                    ));
                    assert forall|n2: PieceName, i2: int, j2: int, pos2: V3| #[trigger] legal_move(
                        m,
                        h,
                        current,
                        n2,
                        i2,
                        j2,
                        pos2,
                    ) implies move_diff_opt(
                        m,
                        current,
                        orientation_of(h.view_of(n2), i2, j2),
                        pos2,
                    ) <= move_diff_opt(m, current, orientation_of(h.view_of(n), i, j), pos) by {
                        reveal(crate::player_hand_state::covers_piece);
                        assert(crate::player_hand_state::covers_piece(h, rotations@, n2));
                        let k = choose|k: int|
                            0 <= k < rotations@.len() && (#[trigger] rotations@[k]).0 == n2 && Some(
                                rotations@[k].1@,
                            ) == orientation_of(h.view_of(n2), i2, j2);
                        assert(positions@.contains(pos2));
                        let b2 = choose|b2: int|
                            0 <= b2 < positions@.len() && positions@[b2] == pos2;
                        assert(placement_ok(m, current, rotations@[k].1@, positions@[b2]));
                        assert(move_diff(m, current, rotations@[k].1@, positions@[b2])
                            <= best_diff as int);
                    }
                    assert(greedy_move_rel(*old(self), *self));
                }
            },
        }
    }

    /// The single mutation entry point: applies one player action to the
    /// state. Every action is total; an action that cannot act (committing
    /// without a valid preview, moving a piece that is not there) leaves the
    /// state unchanged rather than failing.
    pub fn apply_action(&mut self, action: Action)
        requires
            old(self).wf(),
        ensures
            final(self).wf(),
            match action {
                Action::SelectPiece(name) => select_piece_rel(*old(self), *final(self), name),
                Action::ClearSelectedPiece => clear_selected_piece_rel(*old(self), *final(self)),
                Action::SetSelectedPieceOrigin(o) => set_origin_rel(*old(self), *final(self), o),
                Action::RotateSelectedPiece(axis) => rotate_selected_rel(
                    *old(self),
                    *final(self),
                    axis,
                ),
                Action::PreviewPiece(pos) => preview_piece_rel(*old(self), *final(self), pos),
                Action::PlayPreviewedPiece => play_previewed_rel(
                    *old(self),
                    *final(self),
                    commit_possible(*old(self)),
                ),
                Action::PassTurn => pass_turn_rel(*old(self), *final(self)),
                Action::Reset => reset_rel(*old(self), *final(self)),
                Action::MakeGreedyAIMove => greedy_move_rel(*old(self), *final(self)),
            },
    {
        match action {
            Action::SelectPiece(name) => self.select_piece(name),
            Action::ClearSelectedPiece => self.clear_selected_piece(),
            Action::SetSelectedPieceOrigin(new_origin) => self.set_selected_piece_origin(
                new_origin,
            ),
            Action::RotateSelectedPiece(rotation_axis) => self.rotate_selected_piece(rotation_axis),
            Action::PreviewPiece(position) => self.preview_piece(position),
            Action::PlayPreviewedPiece => {
                let _ = self.play_previewed_piece();
            },
            Action::PassTurn => self.pass_turn(),
            Action::Reset => self.reset(),
            Action::MakeGreedyAIMove => self.make_greedy_ai_move(),
        }
    }
}

/// Two game states agree on everything the contracts speak of.
pub open spec fn games_alike(a: GameState, b: GameState) -> bool {
    &&& b.game_mode == a.game_mode
    &&& b.game_ended == a.game_ended
    &&& b.score == a.score
    &&& b.board_state.board@ == a.board_state.board@
    &&& preview_view(b.board_state.previewed_piece) == preview_view(a.board_state.previewed_piece)
    &&& b.player_state.current_player == a.player_state.current_player
    &&& hands_alike(b.player_state.hand_of(Player::P1), a.player_state.hand_of(Player::P1))
    &&& hands_alike(b.player_state.hand_of(Player::P2), a.player_state.hand_of(Player::P2))
}

impl Clone for GameState {
    fn clone(&self) -> (r: GameState)
        ensures
            games_alike(*self, r),
            self.wf() ==> r.wf(),
    {
        let r = GameState {
            player_state: self.player_state.clone(),
            board_state: self.board_state.clone(),
            game_mode: self.game_mode,
            score: self.score,
            game_ended: self.game_ended,
        };
        proof {
            if self.wf() {
                assert forall|n: PieceName|
                    crate::hand::slot_ok(
                        #[trigger] r.player_state.players.p1.pieces.view_of(n),
                    ) by {
                    assert(crate::hand::slot_ok(self.player_state.players.p1.pieces.view_of(n)));
                }
                assert forall|n: PieceName|
                    crate::hand::slot_ok(
                        #[trigger] r.player_state.players.p2.pieces.view_of(n),
                    ) by {
                    assert(crate::hand::slot_ok(self.player_state.players.p2.pieces.view_of(n)));
                }
            }
        }
        r
    }
}

impl Default for GameState {
    /// A fresh two-player game on the tower map.
    fn default() -> (r: GameState)
        ensures
            r.wf(),
            r.game_mode == GameMode::TwoPlayer(crate::game_mode::TwoPlayerMap::Tower),
            r.game_ended == false,
            r.score == (Score { p1: 0, p2: 0 }),
            r.player_state.current_player == Player::P1,
            r.board_state.previewed_piece is None,
            crate::board::fresh_board(r.board_state.board@),
            r.board_state.board@.limits == crate::board::spec_map_heights(
                crate::game_mode::TwoPlayerMap::Tower,
            ),
            forall|n: PieceName|
                (#[trigger] r.player_state.hand_of(
                    Player::P1,
                ).pieces.view_of(n)) == Some(crate::hand::spec_default_piece(n)),
            forall|n: PieceName|
                (#[trigger] r.player_state.hand_of(
                    Player::P2,
                ).pieces.view_of(n)) == Some(crate::hand::spec_default_piece(n)),
            r.player_state.hand_of(Player::P1).selected_piece is None,
            r.player_state.hand_of(Player::P2).selected_piece is None,
    {
        GameState::new(GameMode::TwoPlayer(crate::game_mode::TwoPlayerMap::Tower))
    }
}

/// The candidate pair at row `a2`, column `b2` of a flattened cross product
/// whose rows are `width` long.
pub open spec fn pair_at(
    s: Seq<((PieceName, Piece), V3)>,
    width: int,
    a2: int,
    b2: int,
) -> ((PieceName, Piece), V3) {
    s[a2 * width + b2]
}

/// A flattened candidate agrees with its sources: same name, same piece
/// cubes, same position.
pub open spec fn candidate_entry_matches(
    e: ((PieceName, Piece), V3),
    rot: (PieceName, Piece),
    pos: V3,
) -> bool {
    &&& e.0.0 == rot.0
    &&& e.0.1@ == rot.1@
    &&& e.1 == pos
}

/// How far the candidate scan has come, and what it has found so far: with no
/// find, no scanned candidate is legal; with one, the find is a scanned legal
/// candidate whose score differential no scanned legal candidate beats.
#[verifier::opaque]
pub open spec fn best_candidate_inv(
    m: BoardModel,
    player: Player,
    rotations: Seq<(PieceName, Piece)>,
    positions: Seq<V3>,
    best: Option<(i8, usize, usize)>,
    a: int,
    b: int,
) -> bool {
    match best {
        None => forall|a2: int, b2: int|
            #![trigger rotations[a2], positions[b2]]
            0 <= a2 < rotations.len() && 0 <= b2 < positions.len() && (a2 < a || (a2 == a && b2
                < b)) ==> !placement_ok(m, player, rotations[a2].1@, positions[b2]),
        Some(t) => {
            let (d, a0, b0) = t;
            &&& 0 <= a0 < rotations.len()
            &&& 0 <= b0 < positions.len()
            &&& (a0 < a || (a0 == a && b0 < b))
            &&& placement_ok(m, player, rotations[a0 as int].1@, positions[b0 as int])
            &&& d as int == move_diff(m, player, rotations[a0 as int].1@, positions[b0 as int])
            &&& forall|a2: int, b2: int|
                #![trigger rotations[a2], positions[b2]]
                0 <= a2 < rotations.len() && 0 <= b2 < positions.len() && (a2 < a || (a2 == a && b2
                    < b)) && placement_ok(m, player, rotations[a2].1@, positions[b2]) ==> move_diff(
                    m,
                    player,
                    rotations[a2].1@,
                    positions[b2],
                ) <= d as int
        },
    }
}

/// Evaluates one candidate placement on a copy of the board: the immediate
/// score differential for `player` when the placement is legal, nothing
/// otherwise. The live board is never touched.
fn candidate_diff(bs: &BoardState, player: Player, piece: &Piece, pos: V3) -> (r: Option<i8>)
    requires
        bs.wf(),
        piece@.len() > 0,
    ensures
        match r {
            Some(d) => placement_ok(bs.board@, player, piece@, pos) && d as int == move_diff(
                bs.board@,
                player,
                piece@,
                pos,
            ),
            None => !placement_ok(bs.board@, player, piece@, pos),
        },
{
    let cubes = bs.check_piece_placement(player, piece, pos);
    if cubes_all_error_free(&cubes) {
        proof {
            crate::board_state::lemma_placement_error_free_cubes_sit_on_empty_cells(
                bs.board@,
                player,
                piece@,
                pos,
            );
            crate::board::lemma_put_cubes_preserves_wf(bs.board@, cubes@);
        }
        let mut after_board = bs.board.clone();
        after_board.add_cubes(&cubes);
        let score = after_board.calculate_score();
        let diff = score.get(player) - score.get(player.get_other());
        proof {
            assert(after_board@ == board_after(bs.board@, cubes@));
            assert(diff as int == move_diff(bs.board@, player, piece@, pos));
        }
        Some(diff)
    } else {
        None
    }
}

/// Whether no cube of an annotated preview carries an error.
fn cubes_all_error_free(cubes: &Vec<Cube>) -> (r: bool)
    ensures
        r == all_error_free(cubes@),
{
    let mut i: usize = 0;
    while i < cubes.len()
        invariant
            i <= cubes@.len(),
            forall|k: int| 0 <= k < i ==> (#[trigger] cubes@[k]).error is None,
        decreases cubes@.len() - i,
    {
        if cubes[i].error.is_some() {
            return false;
        }
        i = i + 1;
    }
    true
}

/// A piece listed among the candidate rotations still sits in the hand and
/// keeps its cube count, so it is never empty in a well-formed hand.
proof fn lemma_listed_rotation_is_nonempty(h: Hand, rotations: Seq<(PieceName, Piece)>, a: int)
    requires
        h.wf(),
        0 <= a < rotations.len(),
        crate::player_hand_state::rotation_entry_ok(h, rotations[a]),
    ensures
        rotations[a].1@.len() > 0,
{
    reveal(crate::player_hand_state::rotation_entry_ok);
    let (i, j) = choose|i: int, j: int|
        0 <= i < 6 && 0 <= j < 4 && Some(rotations[a].1@) == orientation_of(
            h.view_of(rotations[a].0),
            i,
            j,
        );
    let v = h.view_of(rotations[a].0).unwrap();
    assert(crate::hand::slot_ok(h.view_of(rotations[a].0)));
    crate::piece::lemma_orientation_len(v, i, j);
}

/// A scanned row/column pair indexes into the flattened cross product.
proof fn lemma_candidate_index_in_range(rows: int, width: int, a: int, b: int)
    requires
        0 <= a < rows,
        0 <= b < width,
    ensures
        0 <= a * width + b < rows * width,
        a * width + b <= (rows - 1) * width + (width - 1),
    decreases rows,
{
    if a + 1 < rows {
        lemma_candidate_index_in_range(rows - 1, width, a, b);
        assert((rows - 1) * width <= rows * width) by (nonlinear_arith)
            requires 0 < rows, 0 <= width,
        ;
    } else {
        assert(a * width + b < rows * width) by (nonlinear_arith)
            requires a + 1 == rows, 0 <= b < width,
        ;
    }
}

/// Relies on itertools' `cartesian_product`: all pairs of the two lists, with
/// the first list outermost, flattened in order; the pieces and positions are
/// cloned unchanged.
#[verifier::external_body]
fn all_move_candidates(rotations: &Vec<(PieceName, Piece)>, positions: &Vec<V3>) -> (r: Vec<
    ((PieceName, Piece), V3),
>)
    ensures
        r@.len() == rotations@.len() * positions@.len(),
        forall|a2: int, b2: int|
            0 <= a2 < rotations@.len() && 0 <= b2 < positions@.len() ==> candidate_entry_matches(
                #[trigger] pair_at(r@, positions@.len() as int, a2, b2),
                rotations@[a2],
                positions@[b2],
            ),
{
    rotations.iter().cloned().cartesian_product(positions.iter().cloned()).collect()
}

} // verus!

