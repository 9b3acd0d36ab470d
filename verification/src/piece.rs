//! Polycube pieces: rigid sets of cube offsets with translation and the full
//! rotation group.

use vstd::prelude::*;

use crate::rotation_axis::RotationAxis;
use crate::v3::V3;

verus! {

/// A piece, as the offsets of its cubes from an implicit local origin.
#[derive(Debug)]
pub struct Piece {
    pub coords: Vec<V3>,
}

impl View for Piece {
    type V = Seq<V3>;

    open spec fn view(&self) -> Seq<V3> {
        self.coords@
    }
}

/// Every coordinate translated by `o`.
pub open spec fn translated(s: Seq<V3>, o: V3) -> Seq<V3> {
    s.map_values(|v: V3| v.spec_plus(o))
}

/// Every coordinate re-expressed relative to `o`.
pub open spec fn re_originated(s: Seq<V3>, o: V3) -> Seq<V3> {
    s.map_values(|v: V3| v.spec_minus(o))
}

/// A quarter turn of the whole piece about the X axis.
pub open spec fn piece_rot_x(s: Seq<V3>) -> Seq<V3> {
    s.map_values(|v: V3| v.spec_rot_x())
}

/// A quarter turn of the whole piece about the Y axis.
pub open spec fn piece_rot_y(s: Seq<V3>) -> Seq<V3> {
    s.map_values(|v: V3| v.spec_rot_y())
}

/// A quarter turn of the whole piece about the Z axis.
pub open spec fn piece_rot_z(s: Seq<V3>) -> Seq<V3> {
    s.map_values(|v: V3| v.spec_rot_z())
}

/// The piece itself holds the cube directly beneath `p`.
pub open spec fn piece_supports(s: Seq<V3>, p: V3) -> bool {
    exists|i: int| 0 <= i < s.len() && s[i] == p.spec_below()
}

/// `j` quarter turns of the piece about the Y axis.
pub open spec fn y_rotated(s: Seq<V3>, j: int) -> Seq<V3>
    decreases j,
{
    if j <= 0 {
        s
    } else {
        piece_rot_y(y_rotated(s, j - 1))
    }
}

/// The six orientations that decide which local face points up: four turns
/// about X, then a single turn about Z either way.
pub open spec fn side_up(s: Seq<V3>, i: int) -> Seq<V3> {
    if i == 0 {
        s
    } else if i == 1 {
        piece_rot_x(s)
    } else if i == 2 {
        piece_rot_x(piece_rot_x(s))
    } else if i == 3 {
        piece_rot_x(piece_rot_x(piece_rot_x(s)))
    } else if i == 4 {
        piece_rot_z(s)
    } else {
        piece_rot_z(piece_rot_z(piece_rot_z(s)))
    }
}

/// One of the 24 proper rotations of the cube, as "which face points up"
/// followed by a number of turns about the now-vertical Y axis.
pub open spec fn orientation(s: Seq<V3>, i: int, j: int) -> Seq<V3> {
    y_rotated(side_up(s, i), j)
}

/// One of the 24 rotations of an optional piece, lifted over absence.
pub open spec fn orientation_of(o: Option<Seq<V3>>, i: int, j: int) -> Option<Seq<V3>> {
    match o {
        Some(v) => Some(orientation(v, i, j)),
        None => None,
    }
}

impl Clone for Piece {
    fn clone(&self) -> (r: Piece)
        ensures
            r@ == self@,
    {
        let r = Piece { coords: self.coords.clone() };
        proof {
            assert(r@ =~= self@);
        }
        r
    }
}

impl Piece {
    /// A new piece with every coordinate translated by `position`; pure and
    /// non-mutating.
    pub fn get_moved_copy(&self, position: V3) -> (r: Piece)
        ensures
            r@ == translated(self@, position),
    {
        let mut coords: Vec<V3> = Vec::new();
        let mut i: usize = 0;
        while i < self.coords.len()
            invariant
                i <= self.coords.len(),
                coords@.len() == i,
                forall|k: int| 0 <= k < i ==> coords@[k] == self@[k].spec_plus(position),
            decreases self.coords.len() - i,
        {
            coords.push(self.coords[i].plus(position));
            i = i + 1;
        }
        let r = Piece { coords };
        proof {
            assert(r@ =~= translated(self@, position));
        }
        r
    }

    /// Re-expresses every coordinate relative to `new_origin`.
    pub fn set_origin(&mut self, new_origin: V3)
        ensures
            final(self)@ == re_originated(old(self)@, new_origin),
    {
        let mut i: usize = 0;
        while i < self.coords.len()
            invariant
                i <= self.coords.len(),
                self.coords@.len() == old(self)@.len(),
                forall|k: int| 0 <= k < i ==> self.coords@[k] == old(self)@[k].spec_minus(
                    new_origin,
                ),
                forall|k: int| i <= k < self.coords@.len() ==> self.coords@[k] == old(self)@[k],
            decreases self.coords.len() - i,
        {
            let moved = self.coords[i].minus(new_origin);
            self.coords.set(i, moved);
            i = i + 1;
        }
        proof {
            assert(self@ =~= re_originated(old(self)@, new_origin));
        }
    }

    /// Rotates the piece a quarter turn about the chosen axis.
    pub fn rotate(&mut self, rotation_axis: RotationAxis)
        ensures
            final(self)@ == match rotation_axis {
                RotationAxis::X => piece_rot_x(old(self)@),
                RotationAxis::Y => piece_rot_y(old(self)@),
            },
    {
        let mut i: usize = 0;
        while i < self.coords.len()
            invariant
                i <= self.coords.len(),
                self.coords@.len() == old(self)@.len(),
                forall|k: int| 0 <= k < i ==> self.coords@[k] == match rotation_axis {
                    RotationAxis::X => old(self)@[k].spec_rot_x(),
                    RotationAxis::Y => old(self)@[k].spec_rot_y(),
                },
                forall|k: int| i <= k < self.coords@.len() ==> self.coords@[k] == old(self)@[k],
            decreases self.coords.len() - i,
        {
            let turned = match rotation_axis {
                RotationAxis::X => self.coords[i].rot_x(),
                RotationAxis::Y => self.coords[i].rot_y(),
            };
            self.coords.set(i, turned);
            i = i + 1;
        }
        proof {
            match rotation_axis {
                RotationAxis::X => {
                    assert(self@ =~= piece_rot_x(old(self)@));
                },
                RotationAxis::Y => {
                    assert(self@ =~= piece_rot_y(old(self)@));
                },
            }
        }
    }

    /// Builds a piece from plain component triples.
    pub fn from_vec_i8_array(i: Vec<[i8; 3]>) -> (r: Piece)
        ensures
            r@.len() == i@.len(),
            forall|k: int| 0 <= k < i@.len() ==> r@[k] == (V3 {
                x: i@[k][0] as i32,
                y: i@[k][1] as i32,
                z: i@[k][2] as i32,
            }),
    {
        let mut coords: Vec<V3> = Vec::new();
        let mut k: usize = 0;
        while k < i.len()
            invariant
                k <= i.len(),
                coords@.len() == k,
                forall|m: int| 0 <= m < k ==> coords@[m] == (V3 {
                    x: i@[m][0] as i32,
                    y: i@[m][1] as i32,
                    z: i@[m][2] as i32,
                }),
            decreases i.len() - k,
        {
            let triple = i[k];
            coords.push(V3 { x: triple[0] as i32, y: triple[1] as i32, z: triple[2] as i32 });
            k = k + 1;
        }
        Piece { coords }
    }

    /// All 24 proper rotations of this piece, as the cross product of the six
    /// face-up orientations with the four turns about the vertical axis.
    /// Pieces with rotational symmetry repeat orientations; no deduplication
    /// is performed.
    pub fn get_available_piece_rotations(&self) -> (r: Vec<Piece>)
        ensures
            r@.len() == 24,
            forall|i: int, j: int|
                0 <= i < 6 && 0 <= j < 4 ==> (#[trigger] r@[4 * i + j])@ == orientation(
                    self@,
                    i,
                    j,
                ),
    {
        let s0 = self.clone();
        let s1 = rot_x_copy(&s0);
        let s2 = rot_x_copy(&s1);
        let s3 = rot_x_copy(&s2);
        let s4 = rot_z_copy(&s0);
        let s5 = rot_z_copy(&rot_z_copy(&s4));
        let mut r: Vec<Piece> = Vec::new();
        push_y_rotations(&mut r, s0);
        push_y_rotations(&mut r, s1);
        push_y_rotations(&mut r, s2);
        push_y_rotations(&mut r, s3);
        push_y_rotations(&mut r, s4);
        push_y_rotations(&mut r, s5);
        proof {
            assert forall|i: int, j: int| 0 <= i < 6 && 0 <= j < 4 implies (#[trigger] r@[4 * i
                + j])@ == orientation(self@, i, j) by {
                assert(r@[4 * i + j]@ == y_rotated(side_up(self@, i), j));
            }
        }
        r
    }

    /// Does this piece hold the cube directly beneath `position`? A piece's
    /// own cubes may support each other.
    pub fn supports(&self, position: &V3) -> (r: bool)
        ensures
            r == piece_supports(self@, *position),
    {
        let target = position.below();
        let mut i: usize = 0;
        while i < self.coords.len()
            invariant
                i <= self.coords.len(),
                target == position.spec_below(),
                forall|k: int| 0 <= k < i ==> self@[k] != target,
            decreases self.coords.len() - i,
        {
            if self.coords[i] == target {
                return true;
            }
            i = i + 1;
        }
        false
    }
}

/// A copy of the piece turned a quarter turn about the X axis.
fn rot_x_copy(p: &Piece) -> (r: Piece)
    ensures
        r@ == piece_rot_x(p@),
{
    let mut coords: Vec<V3> = Vec::new();
    let mut i: usize = 0;
    while i < p.coords.len()
        invariant
            i <= p.coords@.len(),
            coords@.len() == i,
            forall|k: int| 0 <= k < i ==> coords@[k] == p@[k].spec_rot_x(),
        decreases p.coords@.len() - i,
    {
        coords.push(p.coords[i].rot_x());
        i = i + 1;
    }
    let r = Piece { coords };
    proof {
        assert(r@ =~= piece_rot_x(p@));
    }
    r
}

/// A copy of the piece turned a quarter turn about the Y axis.
fn rot_y_copy(p: &Piece) -> (r: Piece)
    ensures
        r@ == piece_rot_y(p@),
{
    let mut coords: Vec<V3> = Vec::new();
    let mut i: usize = 0;
    while i < p.coords.len()
        invariant
            i <= p.coords@.len(),
            coords@.len() == i,
            forall|k: int| 0 <= k < i ==> coords@[k] == p@[k].spec_rot_y(),
        decreases p.coords@.len() - i,
    {
        coords.push(p.coords[i].rot_y());
        i = i + 1;
    }
    let r = Piece { coords };
    proof {
        assert(r@ =~= piece_rot_y(p@));
    }
    r
}

/// A copy of the piece turned a quarter turn about the Z axis.
fn rot_z_copy(p: &Piece) -> (r: Piece)
    ensures
        r@ == piece_rot_z(p@),
{
    let mut coords: Vec<V3> = Vec::new();
    let mut i: usize = 0;
    while i < p.coords.len()
        invariant
            i <= p.coords@.len(),
            coords@.len() == i,
            forall|k: int| 0 <= k < i ==> coords@[k] == p@[k].spec_rot_z(),
        decreases p.coords@.len() - i,
    {
        coords.push(p.coords[i].rot_z());
        i = i + 1;
    }
    let r = Piece { coords };
    proof {
        assert(r@ =~= piece_rot_z(p@));
    }
    r
}

/// Pushes `base` and its three further quarter turns about the Y axis.
fn push_y_rotations(r: &mut Vec<Piece>, base: Piece)
    ensures
        final(r)@.len() == old(r)@.len() + 4,
        forall|k: int| 0 <= k < old(r)@.len() ==> final(r)@[k] == old(r)@[k],
        forall|j: int|
            0 <= j < 4 ==> (#[trigger] final(r)@[old(r)@.len() + j])@ == y_rotated(base@, j),
{
    let ghost base_view = base@;
    let b1 = rot_y_copy(&base);
    let b2 = rot_y_copy(&b1);
    let b3 = rot_y_copy(&b2);
    r.push(base);
    r.push(b1);
    r.push(b2);
    r.push(b3);
    proof {
        assert(y_rotated(base_view, 0) == base_view);
        assert(y_rotated(base_view, 1) == piece_rot_y(y_rotated(base_view, 0)));
        assert(y_rotated(base_view, 2) == piece_rot_y(y_rotated(base_view, 1)));
        assert(y_rotated(base_view, 3) == piece_rot_y(y_rotated(base_view, 2)));
    }
}

/// Every orientation of a piece has exactly the piece's cubes.
pub proof fn lemma_orientation_len(s: Seq<V3>, i: int, j: int)
    ensures
        orientation(s, i, j).len() == s.len(),
    decreases (if j > 0 { j } else { 0 }),
{
    if j > 0 {
        lemma_orientation_len(s, i, j - 1);
    }
}

/// Four quarter turns about the same axis return every coordinate of a piece
/// to its original value.
pub proof fn lemma_piece_rotation_closure(s: Seq<V3>)
    ensures
        piece_rot_x(piece_rot_x(piece_rot_x(piece_rot_x(s)))) == s,
        piece_rot_y(piece_rot_y(piece_rot_y(piece_rot_y(s)))) == s,
{
    assert forall|i: int| 0 <= i < s.len() implies piece_rot_x(
        piece_rot_x(piece_rot_x(piece_rot_x(s))),
    )[i] == s[i] by {
        crate::v3::lemma_rot_x_four_times(s[i]);
    }
    assert(piece_rot_x(piece_rot_x(piece_rot_x(piece_rot_x(s)))) =~= s);
    assert forall|i: int| 0 <= i < s.len() implies piece_rot_y(
        piece_rot_y(piece_rot_y(piece_rot_y(s))),
    )[i] == s[i] by {
        crate::v3::lemma_rot_y_four_times(s[i]);
    }
    assert(piece_rot_y(piece_rot_y(piece_rot_y(piece_rot_y(s)))) =~= s);
}

/// Identifies the pieces a player starts with.
#[derive(Clone, Copy, PartialEq, Eq, Structural, Debug, Hash)]
pub enum PieceName {
    OneByTwo,
    OneByThree,
    OneByFour,
    TwoByTwo,
    Z,
    T,
    L,
    ShortL,
    RightScrew,
    LeftScrew,
    Corner,
}

/// The fixed enumeration order of the piece names.
pub open spec fn piece_name_order() -> Seq<PieceName> {
    seq![
        PieceName::OneByTwo,
        PieceName::OneByThree,
        PieceName::OneByFour,
        PieceName::TwoByTwo,
        PieceName::Z,
        PieceName::T,
        PieceName::L,
        PieceName::ShortL,
        PieceName::RightScrew,
        PieceName::LeftScrew,
        PieceName::Corner,
    ]
}

impl PieceName {
    /// Every piece name, in the fixed enumeration order.
    pub fn iter() -> (r: Vec<PieceName>)
        ensures
            r@ == piece_name_order(),
    {
        let r: Vec<PieceName> = vec![
            PieceName::OneByTwo,
            PieceName::OneByThree,
            PieceName::OneByFour,
            PieceName::TwoByTwo,
            PieceName::Z,
            PieceName::T,
            PieceName::L,
            PieceName::ShortL,
            PieceName::RightScrew,
            PieceName::LeftScrew,
            PieceName::Corner,
        ];
        proof {
            assert(r@ =~= piece_name_order());
        }
        r
    }
}

} // verus!
