//! The board plus the current move preview: the ordered legality pipeline
//! that turns a candidate placement into an annotated cube list, and the
//! commit step that writes a fully legal preview into the board.

use vstd::prelude::*;

use crate::board::{
    put_cubes, spec_check_touches, Board, BoardCell, BoardModel, Cube, CubeError,
    lemma_put_cubes_preserves_wf,
};
use crate::game_mode::GameMode;
use crate::piece::{piece_supports, translated, Piece};
use crate::player::Player;
use crate::score::Score;
use crate::v3::V3;

verus! {

/// The error the bounds/collision check followed by the support check leaves
/// on the cube at `p` of a piece whose moved coordinates are `moved`. The
/// support check runs last and overwrites: an unsupported cube reports
/// `Unsupported` even where the cell was also out of bounds or taken.
pub open spec fn cube_annotation(m: BoardModel, moved: Seq<V3>, p: V3) -> Option<CubeError> {
    if !(m.spec_supports(p) || piece_supports(moved, p)) {
        Some(CubeError::Unsupported)
    } else {
        m.spec_in_bounds_no_collision(p)
    }
}

/// The annotated preview of placing `piece`, translated by `position`, for
/// `player`: a touch-rule failure annotates every cube and short-circuits;
/// otherwise each cube independently carries the bounds/collision/support
/// verdict of its own cell.
pub open spec fn spec_check_piece_placement(
    m: BoardModel,
    player: Player,
    piece: Seq<V3>,
    position: V3,
) -> Seq<Cube> {
    let moved = translated(piece, position);
    let start = moved.map_values(|v: V3| Cube { player: player, position: v, error: None });
    match spec_check_touches(m, start) {
        Ok(cubes) => moved.map_values(
            |v: V3| Cube { player: player, position: v, error: cube_annotation(m, moved, v) },
        ),
        Err(marked) => marked,
    }
}

/// No cube of the preview carries an error.
pub open spec fn all_error_free(cubes: Seq<Cube>) -> bool {
    forall|i: int| 0 <= i < cubes.len() ==> (#[trigger] cubes[i]).error is None
}

/// A placement is legal exactly when its whole annotated preview is free of
/// errors.
pub open spec fn placement_ok(m: BoardModel, player: Player, piece: Seq<V3>, position: V3) -> bool {
    all_error_free(spec_check_piece_placement(m, player, piece, position))
}

/// The preview as the mathematical value it holds.
pub open spec fn preview_view(o: Option<Vec<Cube>>) -> Option<Seq<Cube>> {
    match o {
        Some(v) => Some(v@),
        None => None,
    }
}

/// The board together with the previewed move, if one is shown.
#[derive(Debug)]
pub struct BoardState {
    /// The pieces in play and the remaining space.
    pub board: Board,
    /// Shows a player the effect and the legality of a candidate move.
    pub previewed_piece: Option<Vec<Cube>>,
}

impl Clone for BoardState {
    fn clone(&self) -> (r: BoardState)
        ensures
            r.board@ == self.board@,
            preview_view(r.previewed_piece) == preview_view(self.previewed_piece),
    {
        let previewed_piece = match &self.previewed_piece {
            Some(cubes) => {
                let copy = cubes.clone();
                proof {
                    assert(copy@ =~= cubes@);
                }
                Some(copy)
            },
            None => None,
        };
        BoardState { board: self.board.clone(), previewed_piece }
    }
}

impl BoardState {
    /// Well-formedness: the board is well formed, and every error-free cube of
    /// the preview targets an empty cell, so that committing it keeps the
    /// board well formed.
    pub open spec fn wf(self) -> bool {
        &&& self.board@.wf()
        &&& match self.previewed_piece {
            Some(cubes) => forall|i: int|
                0 <= i < cubes@.len() ==> ((#[trigger] cubes@[i]).error is None
                    ==> self.board@.spec_get(cubes@[i].position) == Some(BoardCell::Empty)),
            None => true,
        }
    }

    /// A fresh board of the chosen map, with nothing previewed.
    pub fn new(game_mode: GameMode) -> (r: BoardState)
        requires
            !(game_mode matches GameMode::Solitaire(_)),
        ensures
            r.wf(),
            r.previewed_piece is None,
            crate::board::fresh_board(r.board@),
            r.board@.limits == crate::board::spec_map_heights(
                crate::board::spec_mode_map(game_mode),
            ),
    {
        BoardState { board: Board::new(game_mode), previewed_piece: None }
    }

    /// Runs the whole legality pipeline for one candidate placement and
    /// returns the annotated cube list; the board is not touched.
    pub fn check_piece_placement(&self, current_player: Player, piece: &Piece, position: V3) -> (r:
        Vec<Cube>)
        requires
            self.board@.cells.len() == 512,
            piece@.len() > 0,
        ensures
            r@ == spec_check_piece_placement(self.board@, current_player, piece@, position),
    {
        let moved_piece = piece.get_moved_copy(position);
        let ghost moved = translated(piece@, position);
        let mut start: Vec<Cube> = Vec::new();
        let mut i: usize = 0;
        while i < moved_piece.coords.len()
            invariant
                i <= moved_piece@.len(),
                moved_piece@ == moved,
                start@.len() == i,
                forall|k: int|
                    0 <= k < i ==> start@[k] == (Cube {
                        player: current_player,
                        position: moved[k],
                        error: None,
                    }),
            decreases moved_piece@.len() - i,
        {
            start.push(Cube { player: current_player, position: moved_piece.coords[i], error: None });
            i = i + 1;
        }
        proof {
            assert(start@ =~= moved.map_values(
                |v: V3| Cube { player: current_player, position: v, error: None },
            ));
        }
        match self.board.check_touches_piece(start) {
            Ok(cubes) => {
                let mut out: Vec<Cube> = Vec::new();
                let mut k: usize = 0;
                while k < cubes.len()
                    invariant
                        k <= cubes@.len(),
                        self.board@.cells.len() == 512,
                        moved_piece@ == moved,
                        cubes@.len() == moved.len(),
                        forall|j: int|
                            0 <= j < cubes@.len() ==> (#[trigger] cubes@[j]).position == moved[j],
                        out@.len() == k,
                        forall|j: int|
                            0 <= j < k ==> out@[j] == (Cube {
                                player: current_player,
                                position: moved[j],
                                error: cube_annotation(self.board@, moved, moved[j]),
                            }),
                    decreases cubes@.len() - k,
                {
                    let p = cubes[k].position;
                    let bounds_error = self.board.check_in_bounds_no_collision(p);
                    let supported = self.board.supports(&p) || moved_piece.supports(&p);
                    let error = if supported {
                        bounds_error
                    } else {
                        Some(CubeError::Unsupported)
                    };
                    out.push(Cube { player: current_player, position: p, error });
                    k = k + 1;
                }
                proof {
                    assert(out@ =~= moved.map_values(
                        |v: V3| Cube {
                            player: current_player,
                            position: v,
                            error: cube_annotation(self.board@, moved, v),
                        },
                    ));
                }
                out
            },
            Err(cubes) => cubes,
        }
    }

    /// Computes and stores the annotated preview for one candidate placement.
    pub fn preview_piece(&mut self, current_player: Player, piece: &Piece, position: V3)
        requires
            old(self).board@.wf(),
            piece@.len() > 0,
        ensures
            final(self).board == old(self).board,
            preview_view(final(self).previewed_piece) == Some(
                spec_check_piece_placement(old(self).board@, current_player, piece@, position),
            ),
            final(self).wf(),
    {
        let cubes = self.check_piece_placement(current_player, piece, position);
        proof {
            lemma_placement_error_free_cubes_sit_on_empty_cells(
                self.board@,
                current_player,
                piece@,
                position,
            );
        }
        self.previewed_piece = Some(cubes);
    }

    /// Discards the preview.
    pub fn clear_previewed_piece(&mut self)
        ensures
            final(self).board == old(self).board,
            final(self).previewed_piece is None,
            old(self).board@.wf() ==> final(self).wf(),
    {
        self.previewed_piece = None;
    }

    /// Commits the previewed move when it exists and is fully error-free:
    /// every cube is written into the board and the preview is discarded.
    /// Otherwise nothing changes and the commit is rejected.
    pub fn play_selected_piece(&mut self) -> (r: Result<(), ()>)
        requires
            old(self).wf(),
        ensures
            final(self).wf(),
            match old(self).previewed_piece {
                Some(cubes) => if all_error_free(cubes@) {
                    &&& r is Ok
                    &&& final(self).board@.cells == put_cubes(old(self).board@.cells, cubes@)
                    &&& final(self).board@.limits == old(self).board@.limits
                    &&& final(self).previewed_piece is None
                } else {
                    &&& r is Err
                    &&& *final(self) == *old(self)
                },
                None => r is Err && *final(self) == *old(self),
            },
    {
        let prev = self.previewed_piece.take();
        match prev {
            Some(preview_cubes) => {
                let mut i: usize = 0;
                let mut clean = true;
                while i < preview_cubes.len()
                    invariant
                        i <= preview_cubes@.len(),
                        clean == (forall|k: int|
                            0 <= k < i ==> (#[trigger] preview_cubes@[k]).error is None),
                    decreases preview_cubes@.len() - i,
                {
                    if preview_cubes[i].error.is_some() {
                        clean = false;
                    }
                    i = i + 1;
                }
                if clean {
                    proof {
                        lemma_put_cubes_preserves_wf(old(self).board@, preview_cubes@);
                    }
                    self.board.add_cubes(&preview_cubes);
                    Ok(())
                } else {
                    self.previewed_piece = Some(preview_cubes);
                    Err(())
                }
            },
            None => Err(()),
        }
    }

    /// The current score of the board.
    pub fn calculate_score(&self) -> (r: Score)
        requires
            self.board@.wf(),
        ensures
            r.p1 == self.board@.spec_score(Player::P1),
            r.p2 == self.board@.spec_score(Player::P2),
            0 <= r.p1,
            0 <= r.p2,
            r.p1 + r.p2 <= 64,
    {
        self.board.calculate_score()
    }
}

impl Default for BoardState {
    /// A fresh tower board with nothing previewed.
    fn default() -> (r: BoardState)
        ensures
            r.wf(),
            r.previewed_piece is None,
            crate::board::fresh_board(r.board@),
            r.board@.limits == crate::board::spec_map_heights(
                crate::game_mode::TwoPlayerMap::Tower,
            ),
    {
        BoardState { board: Board::default(), previewed_piece: None }
    }
}

/// The legality pipeline is a pure function of the board, the player, the
/// piece and the position: two previews of the same placement on the same
/// board are identical.
pub proof fn lemma_placement_deterministic(
    m: BoardModel,
    player: Player,
    piece: Seq<V3>,
    position: V3,
    r1: Seq<Cube>,
    r2: Seq<Cube>,
)
    requires
        r1 == spec_check_piece_placement(m, player, piece, position),
        r2 == spec_check_piece_placement(m, player, piece, position),
    ensures
        r1 == r2,
{
}

/// Every error-free cube of an annotated preview sits on an empty cell of
/// the board.
pub proof fn lemma_placement_error_free_cubes_sit_on_empty_cells(
    m: BoardModel,
    player: Player,
    piece: Seq<V3>,
    position: V3,
)
    ensures
        forall|i: int|
            0 <= i < spec_check_piece_placement(m, player, piece, position).len() ==> ((
            #[trigger] spec_check_piece_placement(m, player, piece, position)[i]).error is None
                ==> m.spec_get(spec_check_piece_placement(m, player, piece, position)[i].position)
                == Some(BoardCell::Empty)),
{
    let r = spec_check_piece_placement(m, player, piece, position);
    let moved = translated(piece, position);
    let start = moved.map_values(|v: V3| Cube { player: player, position: v, error: None });
    match spec_check_touches(m, start) {
        Ok(cubes) => {
            assert forall|i: int| 0 <= i < r.len() && (#[trigger] r[i]).error is None implies
                m.spec_get(r[i].position) == Some(BoardCell::Empty) by {
                assert(r[i].error == cube_annotation(m, moved, moved[i]));
            }
        },
        Err(marked) => {
            assert forall|i: int| 0 <= i < r.len() implies !((#[trigger] r[i]).error is None) by {
                assert(r[i] == crate::board::mark_not_touching(start)[i]);
            }
        },
    }
}

} // verus!
