//! The board: a dense 8x8x8 cell grid with per-column height limits, spatial
//! queries, the touch rule, and per-column top-cell scoring.

use vstd::prelude::*;

use crate::game_mode::{GameMode, TwoPlayerMap};
use crate::player::Player;
use crate::score::Score;
use crate::v3::V3;

verus! {

/// One cell of the grid.
#[derive(Clone, Copy, PartialEq, Eq, Structural, Debug)]
pub enum BoardCell {
    Empty,
    Player(Player),
    OutOfBounds,
}

impl Default for BoardCell {
    fn default() -> (r: BoardCell)
        ensures
            r == BoardCell::Empty,
    {
        BoardCell::Empty
    }
}

/// Why a candidate cube cannot be placed; a cube carries at most one.
#[derive(Clone, Copy, PartialEq, Eq, Structural, Debug)]
pub enum CubeError {
    Collision,
    Unsupported,
    OutOfBounds,
    NotTouchingPiece,
}

/// A placement candidate: one cube of a previewed piece, possibly annotated
/// with the first legality error the validation pipeline left on it.
#[derive(Clone, Copy, Debug)]
pub struct Cube {
    pub player: Player,
    pub position: V3,
    pub error: Option<CubeError>,
}

/// The flat index of grid coordinate (x, y, z) in the dense cell array.
pub open spec fn flat(x: int, y: int, z: int) -> int {
    64 * x + 8 * y + z
}

/// Whether (x, y, z) lies inside the physical 8x8x8 array.
pub open spec fn in_grid(x: int, y: int, z: int) -> bool {
    0 <= x < 8 && 0 <= y < 8 && 0 <= z < 8
}

/// The mathematical model of a board: the flat cell array and the ragged
/// height-limit table.
pub ghost struct BoardModel {
    pub cells: Seq<BoardCell>,
    pub limits: Seq<Seq<usize>>,
}

impl BoardModel {
    /// The cell at grid coordinate (x, y, z); meaningful when `in_grid`.
    pub open spec fn cell(self, x: int, y: int, z: int) -> BoardCell {
        self.cells[flat(x, y, z)]
    }

    /// Whether (x, y, z) lies under its column's height limit.
    pub open spec fn in_limit(self, x: int, y: int, z: int) -> bool {
        &&& 0 <= x < self.limits.len()
        &&& 0 <= z < self.limits[x].len()
        &&& 0 <= y < self.limits[x][z]
    }

    /// Well-formedness: the array is dense 8x8x8, the limit table fits in it,
    /// and a cell is `OutOfBounds` exactly when it lies beyond its column's
    /// height limit.
    pub open spec fn wf(self) -> bool {
        &&& self.cells.len() == 512
        &&& self.limits.len() <= 8
        &&& (forall|x: int| 0 <= x < self.limits.len() ==> (#[trigger] self.limits[x]).len() <= 8)
        &&& (forall|x: int, z: int|
            0 <= x < self.limits.len() && 0 <= z < self.limits[x].len() ==> (
            #[trigger] self.limits[x][z]) <= 8)
        &&& (forall|x: int, y: int, z: int|
            in_grid(x, y, z) ==> ((#[trigger] self.cell(x, y, z)) != BoardCell::OutOfBounds
                <==> self.in_limit(x, y, z)))
    }

    /// `None` exactly when `p` lies outside the physical array; otherwise the
    /// cell, which may itself be the `OutOfBounds` tag.
    pub open spec fn spec_get(self, p: V3) -> Option<BoardCell> {
        if in_grid(p.x as int, p.y as int, p.z as int) {
            Some(self.cell(p.x as int, p.y as int, p.z as int))
        } else {
            None
        }
    }

    /// A cube at `p` rests on the ground or on a non-empty cell directly
    /// beneath it.
    pub open spec fn spec_supports(self, p: V3) -> bool {
        p.y == 0 || match self.spec_get(p.spec_below()) {
            Some(c) => c != BoardCell::Empty,
            None => false,
        }
    }

    /// `None` when the target cell is empty, `Collision` when a player owns
    /// it, `OutOfBounds` in every other case.
    pub open spec fn spec_in_bounds_no_collision(self, p: V3) -> Option<CubeError> {
        match self.spec_get(p) {
            Some(BoardCell::Empty) => None,
            Some(BoardCell::Player(_)) => Some(CubeError::Collision),
            _ => Some(CubeError::OutOfBounds),
        }
    }

    /// Whether any cell of the board is owned by `player`.
    pub open spec fn spec_player_has_played(self, player: Player) -> bool {
        exists|i: int| 0 <= i < self.cells.len() && self.cells[i] == BoardCell::Player(player)
    }

    /// Whose pieces a new placement by `player` must touch: the acting player
    /// once they have played, else the opponent once the opponent has played,
    /// else nobody.
    pub open spec fn touch_target(self, player: Player) -> Option<Player> {
        if self.spec_player_has_played(player) {
            Some(player)
        } else if self.spec_player_has_played(player.spec_other()) {
            Some(player.spec_other())
        } else {
            None
        }
    }

    /// One of the six axis-aligned neighbours of `p` owns a cell of `player`.
    pub open spec fn spec_adjacent_to(self, p: V3, player: Player) -> bool {
        exists|d: int|
            0 <= d < 6 && self.spec_get(nbr(p, d)) == Some(BoardCell::Player(player))
    }

    /// Some cube of the candidate set has a neighbour owned by `player`.
    pub open spec fn spec_touches(self, cubes: Seq<Cube>, player: Player) -> bool {
        exists|i: int| 0 <= i < cubes.len() && self.spec_adjacent_to(cubes[i].position, player)
    }

    /// The owner of the topmost occupied cell of column (x, z), scanning down
    /// from height `y`.
    pub open spec fn top_owner_from(self, x: int, z: int, y: int) -> Option<Player>
        decreases y + 1,
    {
        if y < 0 {
            None
        } else {
            match self.cell(x, y, z) {
                BoardCell::Player(p) => Some(p),
                _ => self.top_owner_from(x, z, y - 1),
            }
        }
    }

    /// The owner of the topmost occupied cell of column (x, z) within its
    /// height limit; meaningful when the column exists in the limit table.
    pub open spec fn col_owner(self, x: int, z: int) -> Option<Player> {
        self.top_owner_from(x, z, self.limits[x][z] - 1)
    }

    /// 1 when `player` tops column (x, z), else 0.
    pub open spec fn col_score(self, player: Player, x: int, z: int) -> int {
        if self.col_owner(x, z) == Some(player) {
            1int
        } else {
            0int
        }
    }

    /// The columns of row `x` before `z` that `player` tops.
    pub open spec fn row_score(self, player: Player, x: int, z: int) -> int
        decreases z,
    {
        if z <= 0 {
            0int
        } else {
            self.row_score(player, x, z - 1) + self.col_score(player, x, z - 1)
        }
    }

    /// The columns in rows before `x` that `player` tops.
    pub open spec fn score_up_to(self, player: Player, x: int) -> int
        decreases x,
    {
        if x <= 0 {
            0int
        } else {
            self.score_up_to(player, x - 1) + self.row_score(
                player,
                x - 1,
                self.limits[x - 1].len() as int,
            )
        }
    }

    /// The full score of `player`: the count of columns whose topmost
    /// occupied cell belongs to that player.
    pub open spec fn spec_score(self, player: Player) -> int {
        self.score_up_to(player, self.limits.len() as int)
    }
}

/// The d-th of the six axis-aligned neighbours of `p`.
pub open spec fn nbr(p: V3, d: int) -> V3 {
    if d == 0 {
        p.spec_minus(V3 { x: 1, y: 0, z: 0 })
    } else if d == 1 {
        p.spec_minus(V3 { x: -1i32, y: 0, z: 0 })
    } else if d == 2 {
        p.spec_minus(V3 { x: 0, y: 1, z: 0 })
    } else if d == 3 {
        p.spec_minus(V3 { x: 0, y: -1i32, z: 0 })
    } else if d == 4 {
        p.spec_minus(V3 { x: 0, y: 0, z: 1 })
    } else {
        p.spec_minus(V3 { x: 0, y: 0, z: -1i32 })
    }
}

/// Every cube annotated with the touch-rule error.
pub open spec fn mark_not_touching(cubes: Seq<Cube>) -> Seq<Cube> {
    cubes.map_values(
        |c: Cube| Cube { player: c.player, position: c.position, error: Some(CubeError::NotTouchingPiece) },
    )
}

/// What the game-opening touch rule makes of a candidate cube set: untouched
/// when nobody has played or some cube touches the required player's cells,
/// otherwise every cube comes back annotated `NotTouchingPiece`.
pub open spec fn spec_check_touches(m: BoardModel, cubes: Seq<Cube>) -> Result<Seq<Cube>, Seq<Cube>> {
    match m.touch_target(cubes[0].player) {
        None => Ok(cubes),
        Some(t) => if m.spec_touches(cubes, t) {
            Ok(cubes)
        } else {
            Err(mark_not_touching(cubes))
        },
    }
}

/// The cell array after writing one cube: its owner lands in the cell when
/// the coordinate is inside the array, and nothing changes otherwise.
pub open spec fn put_cube(cells: Seq<BoardCell>, c: Cube) -> Seq<BoardCell> {
    if in_grid(c.position.x as int, c.position.y as int, c.position.z as int) {
        cells.update(
            flat(c.position.x as int, c.position.y as int, c.position.z as int),
            BoardCell::Player(c.player),
        )
    } else {
        cells
    }
}

/// The cell array after writing every cube, in order.
pub open spec fn put_cubes(cells: Seq<BoardCell>, cubes: Seq<Cube>) -> Seq<BoardCell>
    decreases cubes.len(),
{
    if cubes.len() == 0 {
        cells
    } else {
        put_cube(put_cubes(cells, cubes.drop_last()), cubes.last())
    }
}

/// The height-limit table of each map preset, as a mathematical value.
pub open spec fn spec_map_heights(map: TwoPlayerMap) -> Seq<Seq<usize>> {
    match map {
        TwoPlayerMap::Tower => seq![
            seq![4usize, 4, 4, 4, 4],
            seq![4usize, 4, 4, 4, 4],
            seq![4usize, 4, 4, 4, 4],
            seq![4usize, 4, 4, 4, 4],
        ],
        TwoPlayerMap::Pyramid => seq![
            seq![1usize, 1, 1, 1, 1, 1, 1, 1],
            seq![1usize, 2, 2, 2, 2, 2, 2, 1],
            seq![1usize, 2, 3, 3, 3, 3, 2, 1],
            seq![1usize, 2, 3, 4, 4, 3, 2, 1],
            seq![1usize, 2, 3, 4, 4, 3, 2, 1],
            seq![1usize, 2, 3, 3, 3, 3, 2, 1],
            seq![1usize, 2, 2, 2, 2, 2, 2, 1],
            seq![1usize, 1, 1, 1, 1, 1, 1, 1],
        ],
        TwoPlayerMap::Stairs => seq![
            seq![1usize, 2, 3, 4, 5, 5, 5, 5],
            seq![1usize, 2, 3, 4, 5, 5, 5, 5],
            seq![1usize, 2, 3, 4, 5, 5, 5, 5],
            seq![1usize, 2, 3, 4, 5, 5, 5, 5],
        ],
        TwoPlayerMap::Wall => seq![
            seq![2usize, 2, 2, 2, 2, 2],
            seq![2usize, 2, 2, 2, 2, 2],
            seq![2usize, 2, 2, 2, 2, 2],
            seq![0usize, 0, 0, 2, 2, 2],
            seq![0usize, 0, 0, 2, 2, 2],
            seq![0usize, 0, 0, 2, 2, 2],
            seq![0usize, 0, 0, 2, 2, 2],
            seq![0usize, 0, 0, 2, 2, 2],
        ],
    }
}

/// The map a game mode plays on; solitaire maps are not offered yet, so the
/// tower stands in for them.
pub open spec fn spec_mode_map(game_mode: GameMode) -> TwoPlayerMap {
    match game_mode {
        GameMode::Solitaire(_) => TwoPlayerMap::Tower,
        GameMode::TwoPlayer(map) => map,
        GameMode::VSGreedyAI(map) => map,
    }
}

/// A board fresh from construction: every cell under its column's limit is
/// empty, every other cell is out of bounds.
pub open spec fn fresh_board(m: BoardModel) -> bool {
    &&& m.wf()
    &&& forall|x: int, y: int, z: int|
        in_grid(x, y, z) ==> (#[trigger] m.cell(x, y, z)) == (if m.in_limit(x, y, z) {
            BoardCell::Empty
        } else {
            BoardCell::OutOfBounds
        })
}

/// The board: the dense cell grid plus the height-limit table it was built
/// from.
#[derive(Debug)]
pub struct Board {
    /// The 8x8x8 cells, flattened in (x, y, z) order.
    pub cells: Vec<BoardCell>,
    /// Per-(x, z) column, the usable vertical extent.
    pub height_limits: Vec<Vec<usize>>,
}

impl View for Board {
    type V = BoardModel;

    open spec fn view(&self) -> BoardModel {
        BoardModel {
            cells: self.cells@,
            limits: self.height_limits@.map_values(|row: Vec<usize>| row@),
        }
    }
}

impl Clone for Board {
    fn clone(&self) -> (r: Board)
        ensures
            r@ == self@,
    {
        let r = Board { cells: self.cells.clone(), height_limits: self.height_limits.clone() };
        proof {
            assert(r.cells@ =~= self.cells@);
            assert forall|i: int| 0 <= i < self.height_limits@.len() implies r.height_limits@[i]@
                =~= self.height_limits@[i]@ by {}
            assert(r@.limits =~= self@.limits);
        }
        r
    }
}

impl Board {
    /// Builds the board of the chosen map. Solitaire maps are not offered
    /// yet, so a mode must name a two-player map.
    pub fn new(game_mode: GameMode) -> (r: Board)
        requires
            !(game_mode matches GameMode::Solitaire(_)),
        ensures
            r@.wf(),
            fresh_board(r@),
            r@.limits == spec_map_heights(spec_mode_map(game_mode)),
    {
        let heights = match game_mode {
            GameMode::Solitaire(_) => Self::map_to_heights(TwoPlayerMap::Tower),
            GameMode::TwoPlayer(map) => Self::map_to_heights(map),
            GameMode::VSGreedyAI(map) => Self::map_to_heights(map),
        };
        Self::new_board_from_2d_heights(heights)
    }

    /// The static height-limit table of each map preset.
    fn map_to_heights(map: TwoPlayerMap) -> (r: Vec<Vec<usize>>)
        ensures
            r@.len() <= 8,
            forall|x: int| 0 <= x < r@.len() ==> (#[trigger] r@[x])@.len() <= 8,
            forall|x: int, z: int|
                0 <= x < r@.len() && 0 <= z < r@[x]@.len() ==> (#[trigger] r@[x]@[z]) <= 8,
            r@.map_values(|row: Vec<usize>| row@) == spec_map_heights(map),
    {
        match map {
            TwoPlayerMap::Tower => {
                let row: Vec<usize> = vec![4, 4, 4, 4, 4];
                let r: Vec<Vec<usize>> = vec![row.clone(), row.clone(), row.clone(), row];
                proof {
                    assert(r@.map_values(|rw: Vec<usize>| rw@) =~~= spec_map_heights(map));
                }
                r
            },
            TwoPlayerMap::Pyramid => {
                let r: Vec<Vec<usize>> = vec![
                    vec![1, 1, 1, 1, 1, 1, 1, 1],
                    vec![1, 2, 2, 2, 2, 2, 2, 1],
                    vec![1, 2, 3, 3, 3, 3, 2, 1],
                    vec![1, 2, 3, 4, 4, 3, 2, 1],
                    vec![1, 2, 3, 4, 4, 3, 2, 1],
                    vec![1, 2, 3, 3, 3, 3, 2, 1],
                    vec![1, 2, 2, 2, 2, 2, 2, 1],
                    vec![1, 1, 1, 1, 1, 1, 1, 1],
                ];
                proof {
                    assert(r@.map_values(|rw: Vec<usize>| rw@) =~~= spec_map_heights(map));
                }
                r
            },
            TwoPlayerMap::Stairs => {
                let r: Vec<Vec<usize>> = vec![
                    vec![1, 2, 3, 4, 5, 5, 5, 5],
                    vec![1, 2, 3, 4, 5, 5, 5, 5],
                    vec![1, 2, 3, 4, 5, 5, 5, 5],
                    vec![1, 2, 3, 4, 5, 5, 5, 5],
                ];
                proof {
                    assert(r@.map_values(|rw: Vec<usize>| rw@) =~~= spec_map_heights(map));
                }
                r
            },
            TwoPlayerMap::Wall => {
                let r: Vec<Vec<usize>> = vec![
                    vec![2, 2, 2, 2, 2, 2],
                    vec![2, 2, 2, 2, 2, 2],
                    vec![2, 2, 2, 2, 2, 2],
                    vec![0, 0, 0, 2, 2, 2],
                    vec![0, 0, 0, 2, 2, 2],
                    vec![0, 0, 0, 2, 2, 2],
                    vec![0, 0, 0, 2, 2, 2],
                    vec![0, 0, 0, 2, 2, 2],
                ];
                proof {
                    assert(r@.map_values(|rw: Vec<usize>| rw@) =~~= spec_map_heights(map));
                }
                r
            },
        }
    }

    /// Builds a fresh board from a height-limit table: cells under their
    /// column's limit start empty, all others are permanently out of bounds.
    fn new_board_from_2d_heights(heights_2d: Vec<Vec<usize>>) -> (r: Board)
        requires
            heights_2d@.len() <= 8,
            forall|x: int| 0 <= x < heights_2d@.len() ==> (#[trigger] heights_2d@[x])@.len() <= 8,
            forall|x: int, z: int|
                0 <= x < heights_2d@.len() && 0 <= z < heights_2d@[x]@.len() ==> (
                #[trigger] heights_2d@[x]@[z]) <= 8,
        ensures
            r@.wf(),
            r@.limits == heights_2d@.map_values(|row: Vec<usize>| row@),
            forall|x: int, y: int, z: int|
                in_grid(x, y, z) ==> (#[trigger] r@.cell(x, y, z)) == (if r@.in_limit(x, y, z) {
                    BoardCell::Empty
                } else {
                    BoardCell::OutOfBounds
                }),
    {
        let ghost limits = heights_2d@.map_values(|row: Vec<usize>| row@);
        let mut cells: Vec<BoardCell> = Vec::new();
        let mut x: usize = 0;
        while x < 8
            invariant
                x <= 8,
                cells@.len() == 64 * x,
                limits == heights_2d@.map_values(|row: Vec<usize>| row@),
                forall|a: int, b: int, c: int|
                    in_grid(a, b, c) && #[trigger] flat(a, b, c) < cells@.len() ==> cells@[flat(
                        a,
                        b,
                        c,
                    )] == cell_for(limits, a, b, c),
            decreases 8 - x,
        {
            let mut y: usize = 0;
            while y < 8
                invariant
                    x < 8,
                    y <= 8,
                    cells@.len() == 64 * x + 8 * y,
                    limits == heights_2d@.map_values(|row: Vec<usize>| row@),
                    forall|a: int, b: int, c: int|
                        in_grid(a, b, c) && #[trigger] flat(a, b, c) < cells@.len() ==> cells@[flat(
                            a,
                            b,
                            c,
                        )] == cell_for(limits, a, b, c),
                decreases 8 - y,
            {
                let mut z: usize = 0;
                while z < 8
                    invariant
                        x < 8,
                        y < 8,
                        z <= 8,
                        cells@.len() == 64 * x + 8 * y + z,
                        limits == heights_2d@.map_values(|row: Vec<usize>| row@),
                        forall|a: int, b: int, c: int|
                            in_grid(a, b, c) && #[trigger] flat(a, b, c) < cells@.len()
                                ==> cells@[flat(a, b, c)] == cell_for(limits, a, b, c),
                    decreases 8 - z,
                {
                    let under_limit = x < heights_2d.len() && z < heights_2d[x].len() && y
                        < heights_2d[x][z];
                    let cell = if under_limit {
                        BoardCell::Empty
                    } else {
                        BoardCell::OutOfBounds
                    };
                    cells.push(cell);
                    proof {
                        assert(cells@[flat(x as int, y as int, z as int)] == cell_for(
                            limits,
                            x as int,
                            y as int,
                            z as int,
                        ));
                        assert forall|a: int, b: int, c: int|
                            in_grid(a, b, c) && #[trigger] flat(a, b, c) < cells@.len() implies
                            cells@[flat(a, b, c)] == cell_for(limits, a, b, c) by {
                            if flat(a, b, c) < cells@.len() - 1 {
                                assert(cells@[flat(a, b, c)] == cells@.drop_last()[flat(a, b, c)]);
                            } else {
                                lemma_flat_injective(a, b, c, x as int, y as int, z as int);
                            }
                        }
                    }
                    z = z + 1;
                }
                y = y + 1;
            }
            x = x + 1;
        }
        let r = Board { cells, height_limits: heights_2d };
        proof {
            assert forall|a: int, b: int, c: int| in_grid(a, b, c) implies (#[trigger] r@.cell(
                a,
                b,
                c,
            )) == cell_for(limits, a, b, c) by {
                assert(flat(a, b, c) < 512);
            }
        }
        r
    }

    /// `None` exactly when `index` lies outside the physical array; otherwise
    /// the cell at `index`.
    pub fn get(&self, index: V3) -> (r: Option<BoardCell>)
        requires
            self@.cells.len() == 512,
        ensures
            r == self@.spec_get(index),
    {
        if 0 <= index.x && index.x < 8 && 0 <= index.y && index.y < 8 && 0 <= index.z && index.z
            < 8 {
            let i: usize = (index.x as usize) * 64 + (index.y as usize) * 8 + (index.z as usize);
            Some(self.cells[i])
        } else {
            None
        }
    }

    /// Writes every cube whose coordinate resolves to a cell; cubes outside
    /// the array are silently skipped.
    pub fn add_cubes(&mut self, cubes: &Vec<Cube>)
        requires
            old(self)@.cells.len() == 512,
        ensures
            final(self)@.cells == put_cubes(old(self)@.cells, cubes@),
            final(self)@.limits == old(self)@.limits,
    {
        let mut i: usize = 0;
        while i < cubes.len()
            invariant
                i <= cubes@.len(),
                self@.cells.len() == 512,
                self@.cells == put_cubes(old(self)@.cells, cubes@.take(i as int)),
                self@.limits == old(self)@.limits,
            decreases cubes@.len() - i,
        {
            let c = cubes[i];
            proof {
                assert(cubes@.take(i + 1).drop_last() =~= cubes@.take(i as int));
                assert(cubes@.take(i + 1).last() == cubes@[i as int]);
            }
            if 0 <= c.position.x && c.position.x < 8 && 0 <= c.position.y && c.position.y < 8 && 0
                <= c.position.z && c.position.z < 8 {
                let idx: usize = (c.position.x as usize) * 64 + (c.position.y as usize) * 8 + (
                c.position.z as usize);
                self.cells[idx] = BoardCell::Player(c.player);
            }
            i = i + 1;
        }
        proof {
            assert(cubes@.take(cubes@.len() as int) =~= cubes@);
        }
    }

    /// True exactly when a cube at `position` would rest on the ground or on
    /// a non-empty cell directly beneath it.
    pub fn supports(&self, position: &V3) -> (r: bool)
        requires
            self@.cells.len() == 512,
        ensures
            r == self@.spec_supports(*position),
    {
        let below = position.below();
        let supported_from_below = match self.get(below) {
            Some(bc) => bc != BoardCell::Empty,
            None => false,
        };
        supported_from_below || position.y == 0
    }

    /// Whether the cell at `p` is owned by `player`.
    fn is_player_at(&self, p: V3, player: Player) -> (r: bool)
        requires
            self@.cells.len() == 512,
        ensures
            r == (self@.spec_get(p) == Some(BoardCell::Player(player))),
    {
        match self.get(p) {
            Some(BoardCell::Player(q)) => q == player,
            _ => false,
        }
    }

    /// Whether one of the six axis-aligned neighbours of `p` is owned by
    /// `player`.
    fn adjacent_to(&self, p: &V3, player: Player) -> (r: bool)
        requires
            self@.cells.len() == 512,
        ensures
            r == self@.spec_adjacent_to(*p, player),
    {
        let r = self.is_player_at(p.minus(V3::new(1, 0, 0)), player) || self.is_player_at(
            p.minus(V3::new(-1, 0, 0)),
            player,
        ) || self.is_player_at(p.minus(V3::new(0, 1, 0)), player) || self.is_player_at(
            p.minus(V3::new(0, -1, 0)),
            player,
        ) || self.is_player_at(p.minus(V3::new(0, 0, 1)), player) || self.is_player_at(
            p.minus(V3::new(0, 0, -1)),
            player,
        );
        proof {
            assert(nbr(*p, 0) == p.spec_minus(V3 { x: 1, y: 0, z: 0 }));
            assert(nbr(*p, 1) == p.spec_minus(V3 { x: -1i32, y: 0, z: 0 }));
            assert(nbr(*p, 2) == p.spec_minus(V3 { x: 0, y: 1, z: 0 }));
            assert(nbr(*p, 3) == p.spec_minus(V3 { x: 0, y: -1i32, z: 0 }));
            assert(nbr(*p, 4) == p.spec_minus(V3 { x: 0, y: 0, z: 1 }));
            assert(nbr(*p, 5) == p.spec_minus(V3 { x: 0, y: 0, z: -1i32 }));
        }
        r
    }

    /// Whether `player` owns any cell of the board.
    fn player_has_played(&self, player: Player) -> (r: bool)
        ensures
            r == self@.spec_player_has_played(player),
    {
        let mut i: usize = 0;
        while i < self.cells.len()
            invariant
                i <= self.cells@.len(),
                forall|k: int| 0 <= k < i ==> self.cells@[k] != BoardCell::Player(player),
            decreases self.cells@.len() - i,
        {
            if self.cells[i] == BoardCell::Player(player) {
                return true;
            }
            i = i + 1;
        }
        false
    }

    /// The game-opening touch rule. Once the acting player has played, some
    /// cube of the candidate set must neighbour one of their cells; before
    /// that, once the opponent has played, it must neighbour an opponent
    /// cell; on an empty board no adjacency is required. On failure every
    /// cube comes back annotated `NotTouchingPiece` in the error variant; on
    /// success the set comes back unchanged.
    pub fn check_touches_piece(&self, coords: Vec<Cube>) -> (r: Result<Vec<Cube>, Vec<Cube>>)
        requires
            self@.cells.len() == 512,
            coords@.len() > 0,
        ensures
            match r {
                Ok(c) => spec_check_touches(self@, coords@) == Ok::<Seq<Cube>, Seq<Cube>>(c@),
                Err(c) => spec_check_touches(self@, coords@) == Err::<Seq<Cube>, Seq<Cube>>(c@),
            },
    {
        let player = coords[0].player;
        let target = if self.player_has_played(player) {
            Some(player)
        } else if self.player_has_played(player.get_other()) {
            Some(player.get_other())
        } else {
            None
        };
        match target {
            None => Ok(coords),
            Some(t) => {
                let mut i: usize = 0;
                let mut found = false;
                while i < coords.len() && !found
                    invariant
                        i <= coords@.len(),
                        self@.cells.len() == 512,
                        found ==> self@.spec_touches(coords@, t),
                        !found ==> forall|k: int|
                            0 <= k < i ==> !self@.spec_adjacent_to(coords@[k].position, t),
                    decreases coords@.len() - i,
                {
                    if self.adjacent_to(&coords[i].position, t) {
                        found = true;
                    }
                    i = i + 1;
                }
                if found {
                    Ok(coords)
                } else {
                    let mut marked: Vec<Cube> = Vec::new();
                    let mut k: usize = 0;
                    while k < coords.len()
                        invariant
                            k <= coords@.len(),
                            marked@.len() == k,
                            forall|m: int|
                                0 <= m < k ==> marked@[m] == (Cube {
                                    player: coords@[m].player,
                                    position: coords@[m].position,
                                    error: Some(CubeError::NotTouchingPiece),
                                }),
                        decreases coords@.len() - k,
                    {
                        let c = coords[k];
                        marked.push(
                            Cube {
                                player: c.player,
                                position: c.position,
                                error: Some(CubeError::NotTouchingPiece),
                            },
                        );
                        k = k + 1;
                    }
                    proof {
                        assert(marked@ =~= mark_not_touching(coords@));
                    }
                    Err(marked)
                }
            },
        }
    }

    /// `None` when the target cell is empty, `Collision` when a player owns
    /// it, `OutOfBounds` in every other case, including outside the array.
    pub fn check_in_bounds_no_collision(&self, position: V3) -> (r: Option<CubeError>)
        requires
            self@.cells.len() == 512,
        ensures
            r == self@.spec_in_bounds_no_collision(position),
    {
        match self.get(position) {
            Some(BoardCell::Empty) => None,
            Some(BoardCell::Player(_)) => Some(CubeError::Collision),
            _ => Some(CubeError::OutOfBounds),
        }
    }

    /// The owner of the topmost occupied cell of column (x, z), scanning down
    /// from the column's height limit.
    fn get_highest_player(&self, x: usize, z: usize) -> (r: Option<Player>)
        requires
            self@.wf(),
            x < self@.limits.len(),
            z < self@.limits[x as int].len(),
        ensures
            r == self@.col_owner(x as int, z as int),
    {
        let y_max = self.height_limits[x][z];
        let mut y = y_max;
        while y > 0
            invariant
                self@.wf(),
                x < self@.limits.len(),
                z < self@.limits[x as int].len(),
                y <= y_max,
                y_max == self@.limits[x as int][z as int],
                self@.col_owner(x as int, z as int) == self@.top_owner_from(
                    x as int,
                    z as int,
                    y - 1,
                ),
            decreases y,
        {
            y = y - 1;
            let i: usize = x * 64 + y * 8 + z;
            match self.cells[i] {
                BoardCell::Player(p) => {
                    return Some(p);
                },
                _ => {},
            }
        }
        None
    }

    /// Counts, for every column up to its height limit, which player owns the
    /// topmost occupied cell.
    pub fn calculate_score(&self) -> (r: Score)
        requires
            self@.wf(),
        ensures
            r.p1 == self@.spec_score(Player::P1),
            r.p2 == self@.spec_score(Player::P2),
            0 <= r.p1,
            0 <= r.p2,
            r.p1 + r.p2 <= 64,
    {
        let mut p1: i8 = 0;
        let mut p2: i8 = 0;
        let mut x: usize = 0;
        while x < self.height_limits.len()
            invariant
                self@.wf(),
                x <= self@.limits.len(),
                p1 == self@.score_up_to(Player::P1, x as int),
                p2 == self@.score_up_to(Player::P2, x as int),
                p1 + p2 <= 8 * x,
                0 <= p1,
                0 <= p2,
            decreases self@.limits.len() - x,
        {
            let mut z: usize = 0;
            let row_len = self.height_limits[x].len();
            while z < row_len
                invariant
                    self@.wf(),
                    x < self@.limits.len(),
                    row_len == self@.limits[x as int].len(),
                    z <= row_len,
                    p1 == self@.score_up_to(Player::P1, x as int) + self@.row_score(
                        Player::P1,
                        x as int,
                        z as int,
                    ),
                    p2 == self@.score_up_to(Player::P2, x as int) + self@.row_score(
                        Player::P2,
                        x as int,
                        z as int,
                    ),
                    p1 + p2 <= 8 * x + z,
                    0 <= p1,
                    0 <= p2,
                decreases row_len - z,
            {
                match self.get_highest_player(x, z) {
                    Some(Player::P1) => {
                        p1 = p1 + 1;
                    },
                    Some(Player::P2) => {
                        p2 = p2 + 1;
                    },
                    None => {},
                }
                z = z + 1;
            }
            x = x + 1;
        }
        Score { p1, p2 }
    }

    /// Every coordinate whose cell is empty: the candidate positions the move
    /// search tries, filtered by no other legality rule.
    pub fn get_available_positions(&self) -> (r: Vec<V3>)
        requires
            self@.wf(),
        ensures
            forall|p: V3| r@.contains(p) <==> self@.spec_get(p) == Some(BoardCell::Empty),
            forall|k1: int, k2: int|
                #![trigger r@[k1], r@[k2]]
                0 <= k1 < k2 < r@.len() ==> r@[k1] != r@[k2],
    {
        let mut r: Vec<V3> = Vec::new();
        let mut x: usize = 0;
        while x < 8
            invariant
                self@.wf(),
                x <= 8,
                forall|p: V3|
                    r@.contains(p) <==> (self@.spec_get(p) == Some(BoardCell::Empty) && p.x < x),
                forall|k1: int, k2: int|
                    #![trigger r@[k1], r@[k2]]
                    0 <= k1 < k2 < r@.len() ==> r@[k1] != r@[k2],
            decreases 8 - x,
        {
            let mut y: usize = 0;
            while y < 8
                invariant
                    self@.wf(),
                    x < 8,
                    y <= 8,
                    forall|p: V3|
                        r@.contains(p) <==> (self@.spec_get(p) == Some(BoardCell::Empty) && (p.x
                            < x || (p.x == x && p.y < y))),
                    forall|k1: int, k2: int|
                        #![trigger r@[k1], r@[k2]]
                        0 <= k1 < k2 < r@.len() ==> r@[k1] != r@[k2],
                decreases 8 - y,
            {
                let mut z: usize = 0;
                while z < 8
                    invariant
                        self@.wf(),
                        x < 8,
                        y < 8,
                        z <= 8,
                        forall|p: V3|
                            r@.contains(p) <==> (self@.spec_get(p) == Some(BoardCell::Empty) && (
                            p.x < x || (p.x == x && (p.y < y || (p.y == y && p.z < z))))),
                        forall|k1: int, k2: int|
                            #![trigger r@[k1], r@[k2]]
                            0 <= k1 < k2 < r@.len() ==> r@[k1] != r@[k2],
                    decreases 8 - z,
                {
                    let i: usize = x * 64 + y * 8 + z;
                    let ghost old_r = r@;
                    if self.cells[i] == BoardCell::Empty {
                        r.push(V3 { x: x as i32, y: y as i32, z: z as i32 });
                        proof {
                            assert forall|p: V3| r@.contains(p) implies (self@.spec_get(p) == Some(
                                BoardCell::Empty,
                            ) && (p.x < x || (p.x == x && (p.y < y || (p.y == y && p.z < z
                                + 1))))) by {
                                let j = choose|j: int| 0 <= j < r@.len() && r@[j] == p;
                                if j < old_r.len() {
                                    assert(old_r.contains(p));
                                }
                            }
                            assert forall|p: V3| (self@.spec_get(p) == Some(BoardCell::Empty) && (
                            p.x < x || (p.x == x && (p.y < y || (p.y == y && p.z < z
                                + 1))))) implies r@.contains(p) by {
                                if p.x == x && p.y == y && p.z == z {
                                    assert(r@[r@.len() - 1] == p);
                                } else {
                                    assert(old_r.contains(p));
                                    let j = choose|j: int| 0 <= j < old_r.len() && old_r[j] == p;
                                    assert(r@[j] == p);
                                }
                            }
                            assert forall|k1: int, k2: int|
                                #![trigger r@[k1], r@[k2]]
                                0 <= k1 < k2 < r@.len() implies r@[k1] != r@[k2] by {
                                if k2 == r@.len() - 1 {
                                    assert(old_r[k1] == r@[k1]);
                                    assert(old_r.contains(old_r[k1]));
                                }
                            }
                        }
                    } else {
                        proof {
                            assert(self@.cell(x as int, y as int, z as int) != BoardCell::Empty);
                            assert forall|p: V3| (self@.spec_get(p) == Some(BoardCell::Empty) && (
                            p.x < x || (p.x == x && (p.y < y || (p.y == y && p.z < z
                                + 1))))) implies r@.contains(p) by {
                                assert(!(p.x == x && p.y == y && p.z == z));
                            }
                        }
                    }
                    z = z + 1;
                }
                y = y + 1;
            }
            x = x + 1;
        }
        r
    }
}

impl Default for Board {
    /// The tower map, as a fresh board.
    fn default() -> (r: Board)
        ensures
            r@.wf(),
            fresh_board(r@),
            r@.limits == spec_map_heights(TwoPlayerMap::Tower),
    {
        Board::new(GameMode::TwoPlayer(TwoPlayerMap::Tower))
    }
}

/// The board model after committing the given cubes.
pub open spec fn board_after(m: BoardModel, cubes: Seq<Cube>) -> BoardModel {
    BoardModel { cells: put_cubes(m.cells, cubes), limits: m.limits }
}

/// The cell a fresh board holds at (x, y, z) for the given limit table.
pub open spec fn cell_for(limits: Seq<Seq<usize>>, x: int, y: int, z: int) -> BoardCell {
    if 0 <= x < limits.len() && 0 <= z < limits[x].len() && 0 <= y < limits[x][z] {
        BoardCell::Empty
    } else {
        BoardCell::OutOfBounds
    }
}

/// Distinct grid coordinates have distinct flat indices.
pub proof fn lemma_flat_injective(a: int, b: int, c: int, x: int, y: int, z: int)
    requires
        in_grid(a, b, c),
        in_grid(x, y, z),
        flat(a, b, c) == flat(x, y, z),
    ensures
        a == x && b == y && c == z,
{
}

/// Any coordinate resting on the ground is supported, whatever the occupancy
/// of the board.
pub proof fn lemma_ground_always_supports(m: BoardModel, p: V3)
    requires
        p.y == 0,
    ensures
        m.spec_supports(p),
{
}

/// On a board where nobody owns a cell, the touch rule places no demand: any
/// candidate set passes unchanged.
pub proof fn lemma_empty_board_no_touch_rule(m: BoardModel, cubes: Seq<Cube>)
    requires
        cubes.len() > 0,
        forall|i: int| 0 <= i < m.cells.len() ==> !((#[trigger] m.cells[i]) matches BoardCell::Player(_)),
    ensures
        spec_check_touches(m, cubes) == Ok::<Seq<Cube>, Seq<Cube>>(cubes),
{
    assert(!m.spec_player_has_played(cubes[0].player));
    assert(!m.spec_player_has_played(cubes[0].player.spec_other()));
}

/// Once exactly one player has played, the opponent's candidate set passes
/// the touch rule exactly when one of its cubes neighbours a cell of that
/// player; otherwise every cube comes back annotated `NotTouchingPiece`.
pub proof fn lemma_opponent_must_touch(m: BoardModel, cubes: Seq<Cube>)
    requires
        cubes.len() > 0,
        m.spec_player_has_played(cubes[0].player.spec_other()),
        !m.spec_player_has_played(cubes[0].player),
    ensures
        m.spec_touches(cubes, cubes[0].player.spec_other()) ==> spec_check_touches(m, cubes)
            == Ok::<Seq<Cube>, Seq<Cube>>(cubes),
        !m.spec_touches(cubes, cubes[0].player.spec_other()) ==> spec_check_touches(m, cubes)
            == Err::<Seq<Cube>, Seq<Cube>>(mark_not_touching(cubes)),
{
}

/// Writing cubes never changes the limit correspondence of cells that stay
/// untouched, so a board stays well formed as long as every written cube
/// lands inside the array on a cell under its column's limit.
pub proof fn lemma_put_cubes_preserves_wf(m: BoardModel, cubes: Seq<Cube>)
    requires
        m.wf(),
        forall|i: int|
            0 <= i < cubes.len() ==> m.spec_get((#[trigger] cubes[i]).position) == Some(
                BoardCell::Empty,
            ),
    ensures
        (BoardModel { cells: put_cubes(m.cells, cubes), limits: m.limits }).wf(),
    decreases cubes.len(),
{
    if cubes.len() > 0 {
        let prefix = cubes.drop_last();
        let c = cubes.last();
        lemma_put_cubes_preserves_wf(m, prefix);
        let mid = BoardModel { cells: put_cubes(m.cells, prefix), limits: m.limits };
        lemma_put_cubes_only_writes(m.cells, prefix);
        let px = c.position.x as int;
        let py = c.position.y as int;
        let pz = c.position.z as int;
        assert(in_grid(px, py, pz));
        assert(m.cell(px, py, pz) == BoardCell::Empty);
        let result = BoardModel { cells: put_cube(mid.cells, c), limits: m.limits };
        assert forall|x: int, y: int, z: int| in_grid(x, y, z) implies ((#[trigger] result.cell(
            x,
            y,
            z,
        )) != BoardCell::OutOfBounds <==> result.in_limit(x, y, z)) by {
            if flat(x, y, z) == flat(px, py, pz) {
                lemma_flat_injective(x, y, z, px, py, pz);
                assert(mid.in_limit(x, y, z) == m.in_limit(x, y, z));
            } else {
                assert(result.cell(x, y, z) == mid.cell(x, y, z));
            }
        }
    }
}

/// Writing cubes touches only the cells they name: every other cell keeps
/// its value, and no written cell becomes `OutOfBounds`.
pub proof fn lemma_put_cubes_only_writes(cells: Seq<BoardCell>, cubes: Seq<Cube>)
    requires
        cells.len() == 512,
    ensures
        put_cubes(cells, cubes).len() == cells.len(),
        forall|j: int|
            0 <= j < cells.len() && (forall|i: int|
                0 <= i < cubes.len() ==> !(in_grid(
                    (#[trigger] cubes[i]).position.x as int,
                    cubes[i].position.y as int,
                    cubes[i].position.z as int,
                ) && flat(
                    cubes[i].position.x as int,
                    cubes[i].position.y as int,
                    cubes[i].position.z as int,
                ) == j)) ==> #[trigger] put_cubes(cells, cubes)[j] == cells[j],
        forall|j: int|
            0 <= j < cells.len() && cells[j] != BoardCell::OutOfBounds ==> #[trigger] put_cubes(
                cells,
                cubes,
            )[j] != BoardCell::OutOfBounds,
        forall|j: int|
            0 <= j < cells.len() ==> #[trigger] put_cubes(cells, cubes)[j] == cells[j] || exists|
                i: int,
            | 0 <= i < cubes.len() && put_cubes(cells, cubes)[j] == BoardCell::Player(
                (#[trigger] cubes[i]).player,
            ),
    decreases cubes.len(),
{
    if cubes.len() > 0 {
        lemma_put_cubes_only_writes(cells, cubes.drop_last());
        assert forall|j: int|
            0 <= j < cells.len() implies #[trigger] put_cubes(cells, cubes)[j] == cells[j] || exists|
            i: int,
        | 0 <= i < cubes.len() && put_cubes(cells, cubes)[j] == BoardCell::Player(
            (#[trigger] cubes[i]).player,
        ) by {
            let prev = put_cubes(cells, cubes.drop_last());
            if put_cubes(cells, cubes)[j] == prev[j] {
                if prev[j] != cells[j] {
                    let i = choose|i: int|
                        0 <= i < cubes.drop_last().len() && prev[j] == BoardCell::Player(
                            (#[trigger] cubes.drop_last()[i]).player,
                        );
                    assert(put_cubes(cells, cubes)[j] == BoardCell::Player(cubes[i].player));
                }
            } else {
                assert(put_cubes(cells, cubes)[j] == BoardCell::Player(
                    cubes[cubes.len() - 1].player,
                ));
            }
        }
    }
}

/// A commit of cubes that all sit on empty cells never touches an occupied or
/// out-of-bounds cell: a cell moves from empty to a player's exactly once and
/// never reverts.
pub proof fn lemma_commit_writes_only_empty_cells(m: BoardModel, cubes: Seq<Cube>)
    requires
        m.wf(),
        forall|i: int|
            0 <= i < cubes.len() ==> m.spec_get((#[trigger] cubes[i]).position) == Some(
                BoardCell::Empty,
            ),
    ensures
        forall|x: int, y: int, z: int|
            in_grid(x, y, z) && m.cell(x, y, z) != BoardCell::Empty ==> #[trigger] board_after(
                m,
                cubes,
            ).cell(x, y, z) == m.cell(x, y, z),
        forall|x: int, y: int, z: int|
            in_grid(x, y, z) && #[trigger] board_after(m, cubes).cell(x, y, z) != m.cell(x, y, z)
                ==> (m.cell(x, y, z) == BoardCell::Empty && board_after(m, cubes).cell(
                x,
                y,
                z,
            ) matches BoardCell::Player(_)),
{
    lemma_put_cubes_only_writes(m.cells, cubes);
    assert forall|x: int, y: int, z: int|
        in_grid(x, y, z) && m.cell(x, y, z) != BoardCell::Empty implies #[trigger] board_after(
        m,
        cubes,
    ).cell(x, y, z) == m.cell(x, y, z) by {
        let j = flat(x, y, z);
        assert forall|i: int|
            0 <= i < cubes.len() implies !(in_grid(
            (#[trigger] cubes[i]).position.x as int,
            cubes[i].position.y as int,
            cubes[i].position.z as int,
        ) && flat(
            cubes[i].position.x as int,
            cubes[i].position.y as int,
            cubes[i].position.z as int,
        ) == j) by {
            if in_grid(
                cubes[i].position.x as int,
                cubes[i].position.y as int,
                cubes[i].position.z as int,
            ) && flat(
                cubes[i].position.x as int,
                cubes[i].position.y as int,
                cubes[i].position.z as int,
            ) == j {
                lemma_flat_injective(
                    cubes[i].position.x as int,
                    cubes[i].position.y as int,
                    cubes[i].position.z as int,
                    x,
                    y,
                    z,
                );
            }
        }
    }
    assert forall|x: int, y: int, z: int|
        in_grid(x, y, z) && #[trigger] board_after(m, cubes).cell(x, y, z) != m.cell(
        x,
        y,
        z,
    ) implies (m.cell(x, y, z) == BoardCell::Empty && board_after(m, cubes).cell(
        x,
        y,
        z,
    ) matches BoardCell::Player(_)) by {
        let j = flat(x, y, z);
        assert(put_cubes(m.cells, cubes)[j] == m.cells[j] || exists|i: int|
            0 <= i < cubes.len() && put_cubes(m.cells, cubes)[j] == BoardCell::Player(
                (#[trigger] cubes[i]).player,
            ));
    }
}

} // verus!
