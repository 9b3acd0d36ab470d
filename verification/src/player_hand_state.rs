//! One player's hand: which pieces remain unplayed and which one is selected.

use vstd::prelude::*;

use crate::hand::{piece_view, slot_ok, Hand};
use crate::piece::{orientation, orientation_of, re_originated, piece_rot_x, piece_rot_y, Piece, PieceName};
use crate::rotation_axis::RotationAxis;
use crate::v3::V3;

verus! {

/// The pieces in a player's hand and which (if any) the player has selected.
#[derive(Debug)]
pub struct PlayerHandState {
    /// The piece currently selected by the player, if any.
    pub selected_piece: Option<PieceName>,
    /// The player's remaining pieces; a played piece is gone.
    pub pieces: Hand,
}

impl PlayerHandState {
    /// Every piece still in hand has at least one cube.
    pub open spec fn wf(self) -> bool {
        self.pieces.wf()
    }

    /// The selected piece's cube offsets, when a piece is selected and still
    /// in hand.
    pub open spec fn spec_selected_view(self) -> Option<Seq<V3>> {
        match self.selected_piece {
            Some(n) => self.pieces.view_of(n),
            None => None,
        }
    }

    /// Marks the selected piece as played: it leaves the hand for good.
    pub fn play_selected_piece(&mut self)
        ensures
            final(self).selected_piece == old(self).selected_piece,
            forall|n: PieceName|
                (#[trigger] final(self).pieces.view_of(n)) == (if old(self).selected_piece == Some(
                    n,
                ) {
                    None::<Seq<V3>>
                } else {
                    old(self).pieces.view_of(n)
                }),
            old(self).wf() ==> final(self).wf(),
    {
        match self.selected_piece {
            Some(selected_piece_name) => {
                *self.pieces.get_mut(selected_piece_name) = None;
            },
            None => {},
        }
        proof {
            if old(self).wf() {
                assert forall|n: PieceName| slot_ok(#[trigger] self.pieces.view_of(n)) by {
                    assert(slot_ok(old(self).pieces.view_of(n)));
                }
            }
        }
    }

    /// Deselects without playing.
    pub fn clear_selected_piece(&mut self)
        ensures
            final(self).selected_piece is None,
            final(self).pieces == old(self).pieces,
    {
        self.selected_piece = None
    }

    /// Selects a piece by name, whether or not it is still in hand.
    pub fn set_selected_piece(&mut self, piece_name: PieceName)
        ensures
            final(self).selected_piece == Some(piece_name),
            final(self).pieces == old(self).pieces,
    {
        self.selected_piece = Some(piece_name)
    }

    /// Re-expresses the selected piece's cubes relative to `new_origin`; a
    /// no-op when nothing (or a played piece) is selected.
    pub fn set_selected_piece_origin(&mut self, new_origin: V3)
        ensures
            final(self).selected_piece == old(self).selected_piece,
            forall|n: PieceName|
                (#[trigger] final(self).pieces.view_of(n)) == (if old(self).selected_piece == Some(
                    n,
                ) {
                    match old(self).pieces.view_of(n) {
                        Some(v) => Some(re_originated(v, new_origin)),
                        None => None,
                    }
                } else {
                    old(self).pieces.view_of(n)
                }),
            old(self).wf() ==> final(self).wf(),
    {
        match self.selected_piece {
            Some(selected_piece_name) => {
                match self.pieces.get_mut(selected_piece_name) {
                    Some(piece) => piece.set_origin(new_origin),
                    None => {},
                }
            },
            None => {},
        }
        proof {
            if old(self).wf() {
                assert forall|n: PieceName| slot_ok(#[trigger] self.pieces.view_of(n)) by {
                    assert(slot_ok(old(self).pieces.view_of(n)));
                }
            }
        }
    }

    /// Turns the selected piece a quarter turn about the chosen axis; a no-op
    /// when nothing (or a played piece) is selected.
    pub fn rotate_selected_piece(&mut self, rotation_axis: RotationAxis)
        ensures
            final(self).selected_piece == old(self).selected_piece,
            forall|n: PieceName|
                (#[trigger] final(self).pieces.view_of(n)) == (if old(self).selected_piece == Some(
                    n,
                ) {
                    match old(self).pieces.view_of(n) {
                        Some(v) => Some(
                            match rotation_axis {
                                RotationAxis::X => piece_rot_x(v),
                                RotationAxis::Y => piece_rot_y(v),
                            },
                        ),
                        None => None,
                    }
                } else {
                    old(self).pieces.view_of(n)
                }),
            old(self).wf() ==> final(self).wf(),
    {
        match self.selected_piece {
            Some(piece_name) => {
                match self.pieces.get_mut(piece_name) {
                    Some(piece) => piece.rotate(rotation_axis),
                    None => {},
                }
            },
            None => {},
        }
        proof {
            if old(self).wf() {
                assert forall|n: PieceName| slot_ok(#[trigger] self.pieces.view_of(n)) by {
                    assert(slot_ok(old(self).pieces.view_of(n)));
                }
            }
        }
    }

    /// A copy of the selected piece, when one is selected and still in hand.
    pub fn get_selected_piece(&self) -> (r: Option<Piece>)
        ensures
            piece_view(r) == self.spec_selected_view(),
    {
        match self.selected_piece {
            Some(piece_name) => match self.pieces.get(piece_name) {
                Some(p) => Some(p.clone()),
                None => None,
            },
            None => None,
        }
    }

    /// All 24 rotations of every piece still in hand, tagged by name: the
    /// candidate orientations the move search tries. Every listed entry is an
    /// orientation of a piece in hand, and every orientation of every piece
    /// in hand is listed.
    pub fn get_available_piece_rotations(&self) -> (r: Vec<(PieceName, Piece)>)
        ensures
            forall|k: int|
                0 <= k < r@.len() ==> rotation_entry_ok(self.pieces, #[trigger] r@[k]),
            forall|n: PieceName| #[trigger] covers_piece(self.pieces, r@, n),
    {
        let names = PieceName::iter();
        let mut r: Vec<(PieceName, Piece)> = Vec::new();
        let mut m: usize = 0;
        proof {
            assert forall|n: PieceName| !listed_before(
                crate::piece::piece_name_order(),
                0,
                n,
            ) by {
                reveal(listed_before);
            }
        }
        while m < names.len()
            invariant
                m <= names@.len(),
                names@ == crate::piece::piece_name_order(),
                forall|k: int|
                    0 <= k < r@.len() ==> rotation_entry_ok(self.pieces, #[trigger] r@[k]),
                forall|n: PieceName|
                    listed_before(crate::piece::piece_name_order(), m as int, n)
                        ==> #[trigger] covers_piece(self.pieces, r@, n),
            decreases names@.len() - m,
        {
            let name = names[m];
            let ghost old_entries = r@;
            match self.pieces.get(name) {
                Some(piece) => {
                    let rotations = piece.get_available_piece_rotations();
                    let ghost base = r@.len();
                    let ghost v = piece@;
                    let mut t: usize = 0;
                    while t < rotations.len()
                        invariant
                            t <= 24,
                            rotations@.len() == 24,
                            self.pieces.view_of(name) == Some(v),
                            forall|i: int, j: int|
                                0 <= i < 6 && 0 <= j < 4 ==> (#[trigger] rotations@[4 * i + j])@
                                    == orientation(v, i, j),
                            r@.len() == base + t,
                            base == old_entries.len(),
                            forall|k: int| 0 <= k < base ==> r@[k] == old_entries[k],
                            forall|k: int|
                                base <= k < r@.len() ==> (#[trigger] r@[k]).0 == name && r@[k].1@
                                    == rotations@[k - base]@,
                        decreases 24 - t,
                    {
                        r.push((name, rotations[t].clone()));
                        t = t + 1;
                    }
                    proof {
                        assert(r@.len() == base + 24);
                        assert forall|k: int|
                            0 <= k < r@.len() implies rotation_entry_ok(
                            self.pieces,
                            #[trigger] r@[k],
                        ) by {
                            if k < base {
                                assert(rotation_entry_ok(self.pieces, old_entries[k]));
                            } else {
                                reveal(rotation_entry_ok);
                                let t0 = k - base;
                                let i = t0 / 4;
                                let j = t0 % 4;
                                assert(0 <= i < 6 && 0 <= j < 4 && t0 == 4 * i + j);
                                assert(rotations@[4 * i + j]@ == orientation(v, i, j));
                                assert(Some(r@[k].1@) == orientation_of(
                                    self.pieces.view_of(r@[k].0),
                                    i,
                                    j,
                                ));
                            }
                        }
                        assert(covers_piece(self.pieces, r@, name)) by {
                            reveal(covers_piece);
                            assert forall|i: int, j: int|
                                #![trigger orientation_of(self.pieces.view_of(name), i, j)]
                                0 <= i < 6 && 0 <= j < 4 implies exists|k: int|
                                0 <= k < r@.len() && (#[trigger] r@[k]).0 == name && Some(
                                    r@[k].1@,
                                ) == orientation_of(self.pieces.view_of(name), i, j) by {
                                assert(base <= base + 4 * i + j < r@.len());
                                assert(rotations@[4 * i + j]@ == orientation(v, i, j));
                                assert(r@[base + 4 * i + j].0 == name && Some(
                                    r@[base + 4 * i + j].1@,
                                ) == orientation_of(self.pieces.view_of(name), i, j));
                            }
                        }
                        assert forall|n: PieceName|
                            listed_before(
                                crate::piece::piece_name_order(),
                                m + 1,
                                n,
                            ) implies #[trigger] covers_piece(self.pieces, r@, n) by {
                            reveal(listed_before);
                            if n == name {
                            } else {
                                assert(listed_before(crate::piece::piece_name_order(), m as int, n));
                                assert(covers_piece(self.pieces, old_entries, n));
                                lemma_covers_piece_extends(self.pieces, old_entries, r@, n);
                            }
                        }
                    }
                },
                None => {
                    proof {
                        assert forall|n: PieceName|
                            listed_before(
                                crate::piece::piece_name_order(),
                                m + 1,
                                n,
                            ) implies #[trigger] covers_piece(self.pieces, r@, n) by {
                            reveal(listed_before);
                            if n == name {
                                assert(covers_piece(self.pieces, r@, n)) by {
                                    reveal(covers_piece);
                                }
                            } else {
                                assert(listed_before(crate::piece::piece_name_order(), m as int, n));
                            }
                        }
                    }
                },
            }
            m = m + 1;
        }
        proof {
            assert forall|n: PieceName| #[trigger] covers_piece(self.pieces, r@, n) by {
                let order = crate::piece::piece_name_order();
                reveal(listed_before);
                match n {
                    PieceName::OneByTwo => assert(order[0] == n),
                    PieceName::OneByThree => assert(order[1] == n),
                    PieceName::OneByFour => assert(order[2] == n),
                    PieceName::TwoByTwo => assert(order[3] == n),
                    PieceName::Z => assert(order[4] == n),
                    PieceName::T => assert(order[5] == n),
                    PieceName::L => assert(order[6] == n),
                    PieceName::ShortL => assert(order[7] == n),
                    PieceName::RightScrew => assert(order[8] == n),
                    PieceName::LeftScrew => assert(order[9] == n),
                    PieceName::Corner => assert(order[10] == n),
                }
                assert(listed_before(order, 11, n));
            }
        }
        r
    }
}

/// An entry of the rotation list is some orientation of the piece, still in
/// hand, that it names.
#[verifier::opaque]
pub open spec fn rotation_entry_ok(h: Hand, e: (PieceName, Piece)) -> bool {
    exists|i: int, j: int|
        0 <= i < 6 && 0 <= j < 4 && Some(e.1@) == #[trigger] orientation_of(h.view_of(e.0), i, j)
}

/// The rotation list holds, for the named piece if it is still in hand, all
/// 24 of its orientations.
#[verifier::opaque]
pub open spec fn covers_piece(h: Hand, r: Seq<(PieceName, Piece)>, n: PieceName) -> bool {
    h.view_of(n) is Some ==> forall|i: int, j: int|
        0 <= i < 6 && 0 <= j < 4 ==> exists|k: int|
            0 <= k < r.len() && (#[trigger] r[k]).0 == n && Some(r[k].1@)
                == #[trigger] orientation_of(h.view_of(n), i, j)
}

/// Whether a name occurs among the first `m` entries of the enumeration
/// order.
#[verifier::opaque]
pub open spec fn listed_before(s: Seq<PieceName>, m: int, n: PieceName) -> bool {
    exists|q: int| 0 <= q < m && s[q] == n
}

/// A rotation list that covers a piece still covers it after more entries are
/// appended.
pub proof fn lemma_covers_piece_extends(
    h: Hand,
    r1: Seq<(PieceName, Piece)>,
    r2: Seq<(PieceName, Piece)>,
    n: PieceName,
)
    requires
        covers_piece(h, r1, n),
        r1.len() <= r2.len(),
        forall|k: int| 0 <= k < r1.len() ==> r2[k] == r1[k],
    ensures
        covers_piece(h, r2, n),
{
    reveal(covers_piece);
    if h.view_of(n) is Some {
        assert forall|i: int, j: int| 0 <= i < 6 && 0 <= j < 4 implies exists|k: int|
            0 <= k < r2.len() && (#[trigger] r2[k]).0 == n && Some(r2[k].1@)
                == #[trigger] orientation_of(h.view_of(n), i, j) by {
            let k0 = choose|k: int|
                0 <= k < r1.len() && (#[trigger] r1[k]).0 == n && Some(r1[k].1@)
                    == orientation_of(h.view_of(n), i, j);
            assert(r2[k0].0 == n && Some(r2[k0].1@) == orientation_of(h.view_of(n), i, j));
        }
    }
}

impl Default for PlayerHandState {
    /// Nothing selected, the full starting inventory in hand.
    fn default() -> (r: PlayerHandState)
        ensures
            r.selected_piece is None,
            forall|n: PieceName|
                (#[trigger] r.pieces.view_of(n)) == Some(crate::hand::spec_default_piece(n)),
            r.wf(),
    {
        PlayerHandState { selected_piece: None, pieces: Hand::default() }
    }
}

impl Clone for PlayerHandState {
    fn clone(&self) -> (r: PlayerHandState)
        ensures
            r.selected_piece == self.selected_piece,
            forall|n: PieceName| (#[trigger] r.pieces.view_of(n)) == self.pieces.view_of(n),
            forall|n: PieceName|
                ((#[trigger] r.pieces.spec_get(n)) is Some) == (self.pieces.spec_get(n) is Some),
    {
        PlayerHandState { selected_piece: self.selected_piece, pieces: self.pieces.clone() }
    }
}

} // verus!
