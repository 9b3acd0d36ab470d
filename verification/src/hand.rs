//! The pieces a player starts with; a played piece leaves the hand for good.

use vstd::prelude::*;

use crate::piece::{Piece, PieceName};
use crate::v3::V3;

verus! {

/// A coordinate from plain components.
pub open spec fn cv(x: i32, y: i32, z: i32) -> V3 {
    V3 { x, y, z }
}

/// A hand slot is sound when the piece it still holds has at least one cube.
pub open spec fn slot_ok(o: Option<Seq<V3>>) -> bool {
    match o {
        Some(v) => v.len() > 0,
        None => true,
    }
}

/// The piece as the mathematical value it holds, when it is still in hand.
pub open spec fn piece_view(o: Option<Piece>) -> Option<Seq<V3>> {
    match o {
        Some(p) => Some(p@),
        None => None,
    }
}

/// The cube offsets each piece starts with.
pub open spec fn spec_default_piece(name: PieceName) -> Seq<V3> {
    match name {
        PieceName::OneByTwo => seq![cv(0, 0, 0), cv(0, 0, 1)],
        PieceName::OneByThree => seq![cv(0, 0, 0), cv(0, 0, 1), cv(0, 0, 2)],
        PieceName::OneByFour => seq![cv(0, 0, 0), cv(0, 0, 1), cv(0, 0, 2), cv(0, 0, 3)],
        PieceName::TwoByTwo => seq![cv(0, 0, 0), cv(0, 0, 1), cv(0, 1, 0), cv(0, 1, 1)],
        PieceName::Z => seq![cv(0, 0, 0), cv(0, 0, 1), cv(0, 1, 1), cv(0, 1, 2)],
        PieceName::T => seq![cv(0, 0, 0), cv(0, 0, 1), cv(0, 1, 1), cv(0, 0, 2)],
        PieceName::L => seq![cv(0, 0, 0), cv(0, 0, 1), cv(0, 0, 2), cv(0, 1, 2)],
        PieceName::ShortL => seq![cv(0, 0, 0), cv(0, 0, 1), cv(0, 1, 1)],
        PieceName::RightScrew => seq![cv(0, 0, 0), cv(0, 0, 1), cv(0, 1, 1), cv(1, 1, 1)],
        PieceName::LeftScrew => seq![cv(0, 0, 0), cv(0, 0, 1), cv(0, 1, 1), cv(-1i32, 1, 1)],
        PieceName::Corner => seq![cv(0, 0, 0), cv(0, 0, 1), cv(0, 1, 1), cv(1, 0, 1)],
    }
}

/// The pieces in a player's hand, by name; a played piece is `None`.
#[derive(Debug)]
pub struct Hand {
    pub one_by_two: Option<Piece>,
    pub one_by_three: Option<Piece>,
    pub one_by_four: Option<Piece>,
    pub two_by_two: Option<Piece>,
    pub z_piece: Option<Piece>,
    pub t_piece: Option<Piece>,
    pub l_piece: Option<Piece>,
    pub short_l: Option<Piece>,
    pub right_screw: Option<Piece>,
    pub left_screw: Option<Piece>,
    pub corner: Option<Piece>,
}

impl Hand {
    /// The slot of the named piece.
    pub open spec fn spec_get(self, name: PieceName) -> Option<Piece> {
        match name {
            PieceName::OneByTwo => self.one_by_two,
            PieceName::OneByThree => self.one_by_three,
            PieceName::OneByFour => self.one_by_four,
            PieceName::TwoByTwo => self.two_by_two,
            PieceName::Z => self.z_piece,
            PieceName::T => self.t_piece,
            PieceName::L => self.l_piece,
            PieceName::ShortL => self.short_l,
            PieceName::RightScrew => self.right_screw,
            PieceName::LeftScrew => self.left_screw,
            PieceName::Corner => self.corner,
        }
    }

    /// The named piece's cube offsets, when it is still in hand.
    pub open spec fn view_of(self, name: PieceName) -> Option<Seq<V3>> {
        piece_view(self.spec_get(name))
    }

    /// Every piece still in hand has at least one cube.
    pub open spec fn wf(self) -> bool {
        forall|n: PieceName| slot_ok(#[trigger] self.view_of(n))
    }

    /// A shared borrow of the named slot.
    pub fn get(&self, index: PieceName) -> (r: &Option<Piece>)
        ensures
            *r == self.spec_get(index),
    {
        match index {
            PieceName::OneByTwo => &self.one_by_two,
            PieceName::OneByThree => &self.one_by_three,
            PieceName::OneByFour => &self.one_by_four,
            PieceName::TwoByTwo => &self.two_by_two,
            PieceName::Z => &self.z_piece,
            PieceName::T => &self.t_piece,
            PieceName::L => &self.l_piece,
            PieceName::ShortL => &self.short_l,
            PieceName::RightScrew => &self.right_screw,
            PieceName::LeftScrew => &self.left_screw,
            PieceName::Corner => &self.corner,
        }
    }

    /// A mutable borrow of the named slot; every other slot keeps its piece.
    pub fn get_mut(&mut self, index: PieceName) -> (r: &mut Option<Piece>)
        ensures
            *r == old(self).spec_get(index),
            final(self).spec_get(index) == *final(r),
            forall|n: PieceName|
                n != index ==> (#[trigger] final(self).spec_get(n)) == old(self).spec_get(n),
    {
        match index {
            PieceName::OneByTwo => &mut self.one_by_two,
            PieceName::OneByThree => &mut self.one_by_three,
            PieceName::OneByFour => &mut self.one_by_four,
            PieceName::TwoByTwo => &mut self.two_by_two,
            PieceName::Z => &mut self.z_piece,
            PieceName::T => &mut self.t_piece,
            PieceName::L => &mut self.l_piece,
            PieceName::ShortL => &mut self.short_l,
            PieceName::RightScrew => &mut self.right_screw,
            PieceName::LeftScrew => &mut self.left_screw,
            PieceName::Corner => &mut self.corner,
        }
    }
}

impl Default for Hand {
    /// The full starting inventory.
    fn default() -> (r: Hand)
        ensures
            forall|n: PieceName| (#[trigger] r.view_of(n)) == Some(spec_default_piece(n)),
            r.wf(),
    {
        let one_by_two = Piece::from_vec_i8_array(vec![[0, 0, 0], [0, 0, 1]]);
        let one_by_three = Piece::from_vec_i8_array(vec![[0, 0, 0], [0, 0, 1], [0, 0, 2]]);
        let one_by_four = Piece::from_vec_i8_array(
            vec![[0, 0, 0], [0, 0, 1], [0, 0, 2], [0, 0, 3]],
        );
        let two_by_two = Piece::from_vec_i8_array(vec![[0, 0, 0], [0, 0, 1], [0, 1, 0], [0, 1, 1]]);
        let z_piece = Piece::from_vec_i8_array(vec![[0, 0, 0], [0, 0, 1], [0, 1, 1], [0, 1, 2]]);
        let t_piece = Piece::from_vec_i8_array(vec![[0, 0, 0], [0, 0, 1], [0, 1, 1], [0, 0, 2]]);
        let l_piece = Piece::from_vec_i8_array(vec![[0, 0, 0], [0, 0, 1], [0, 0, 2], [0, 1, 2]]);
        let short_l = Piece::from_vec_i8_array(vec![[0, 0, 0], [0, 0, 1], [0, 1, 1]]);
        let right_screw = Piece::from_vec_i8_array(
            vec![[0, 0, 0], [0, 0, 1], [0, 1, 1], [1, 1, 1]],
        );
        let left_screw = Piece::from_vec_i8_array(
            vec![[0, 0, 0], [0, 0, 1], [0, 1, 1], [-1, 1, 1]],
        );
        let corner = Piece::from_vec_i8_array(vec![[0, 0, 0], [0, 0, 1], [0, 1, 1], [1, 0, 1]]);
        proof {
            assert(one_by_two@ =~= spec_default_piece(PieceName::OneByTwo));
            assert(one_by_three@ =~= spec_default_piece(PieceName::OneByThree));
            assert(one_by_four@ =~= spec_default_piece(PieceName::OneByFour));
            assert(two_by_two@ =~= spec_default_piece(PieceName::TwoByTwo));
            assert(z_piece@ =~= spec_default_piece(PieceName::Z));
            assert(t_piece@ =~= spec_default_piece(PieceName::T));
            assert(l_piece@ =~= spec_default_piece(PieceName::L));
            assert(short_l@ =~= spec_default_piece(PieceName::ShortL));
            assert(right_screw@ =~= spec_default_piece(PieceName::RightScrew));
            assert(left_screw@ =~= spec_default_piece(PieceName::LeftScrew));
            assert(corner@ =~= spec_default_piece(PieceName::Corner));
        }
        Hand {
            one_by_two: Some(one_by_two),
            one_by_three: Some(one_by_three),
            one_by_four: Some(one_by_four),
            two_by_two: Some(two_by_two),
            z_piece: Some(z_piece),
            t_piece: Some(t_piece),
            l_piece: Some(l_piece),
            short_l: Some(short_l),
            right_screw: Some(right_screw),
            left_screw: Some(left_screw),
            corner: Some(corner),
        }
    }
}

impl Clone for Hand {
    fn clone(&self) -> (r: Hand)
        ensures
            forall|n: PieceName| (#[trigger] r.view_of(n)) == self.view_of(n),
            forall|n: PieceName|
                ((#[trigger] r.spec_get(n)) is Some) == (self.spec_get(n) is Some),
    {
        Hand {
            one_by_two: clone_slot(&self.one_by_two),
            one_by_three: clone_slot(&self.one_by_three),
            one_by_four: clone_slot(&self.one_by_four),
            two_by_two: clone_slot(&self.two_by_two),
            z_piece: clone_slot(&self.z_piece),
            t_piece: clone_slot(&self.t_piece),
            l_piece: clone_slot(&self.l_piece),
            short_l: clone_slot(&self.short_l),
            right_screw: clone_slot(&self.right_screw),
            left_screw: clone_slot(&self.left_screw),
            corner: clone_slot(&self.corner),
        }
    }
}

/// A copy of one hand slot, preserving the piece's coordinates.
fn clone_slot(o: &Option<Piece>) -> (r: Option<Piece>)
    ensures
        piece_view(r) == piece_view(*o),
        (r is Some) == (*o is Some),
{
    match o {
        Some(p) => Some(p.clone()),
        None => None,
    }
}

} // verus!
