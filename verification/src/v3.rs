//! Integer grid coordinates and the quarter-turn rotations about the axes.

use vstd::prelude::*;

verus! {

/// A grid cell coordinate or a piece-local offset: three signed components.
///
/// Component arithmetic wraps on overflow, so translation and rotation are
/// total functions; on the bounded boards every coordinate of interest is far
/// from the wrap-around points.
#[derive(Clone, Copy, PartialEq, Eq, Structural, Debug, Hash)]
pub struct V3 {
    pub x: i32,
    pub y: i32,
    pub z: i32,
}

/// Wrapping negation of a component.
pub open spec fn wneg(a: i32) -> i32 {
    (0i32).wrapping_sub(a)
}

impl V3 {
    pub open spec fn spec_plus(self, o: V3) -> V3 {
        V3 { x: self.x.wrapping_add(o.x), y: self.y.wrapping_add(o.y), z: self.z.wrapping_add(o.z) }
    }

    pub open spec fn spec_minus(self, o: V3) -> V3 {
        V3 { x: self.x.wrapping_sub(o.x), y: self.y.wrapping_sub(o.y), z: self.z.wrapping_sub(o.z) }
    }

    /// The cell directly beneath this one.
    pub open spec fn spec_below(self) -> V3 {
        V3 { x: self.x, y: self.y.wrapping_sub(1), z: self.z }
    }

    /// A quarter turn about the X axis.
    pub open spec fn spec_rot_x(self) -> V3 {
        V3 { x: self.x, y: wneg(self.z), z: self.y }
    }

    /// A quarter turn about the Y axis.
    pub open spec fn spec_rot_y(self) -> V3 {
        V3 { x: self.z, y: self.y, z: wneg(self.x) }
    }

    /// A quarter turn about the Z axis.
    pub open spec fn spec_rot_z(self) -> V3 {
        V3 { x: wneg(self.y), y: self.x, z: self.z }
    }

    pub fn new(x: i32, y: i32, z: i32) -> (r: V3)
        ensures
            r == (V3 { x, y, z }),
    {
        V3 { x, y, z }
    }

    /// Componentwise translation.
    pub fn plus(self, o: V3) -> (r: V3)
        ensures
            r == self.spec_plus(o),
    {
        V3 { x: self.x.wrapping_add(o.x), y: self.y.wrapping_add(o.y), z: self.z.wrapping_add(o.z) }
    }

    /// Componentwise difference.
    pub fn minus(self, o: V3) -> (r: V3)
        ensures
            r == self.spec_minus(o),
    {
        V3 { x: self.x.wrapping_sub(o.x), y: self.y.wrapping_sub(o.y), z: self.z.wrapping_sub(o.z) }
    }

    /// The cell directly beneath this one.
    pub fn below(self) -> (r: V3)
        ensures
            r == self.spec_below(),
    {
        V3 { x: self.x, y: self.y.wrapping_sub(1), z: self.z }
    }

    pub fn rot_x(self) -> (r: V3)
        ensures
            r == self.spec_rot_x(),
    {
        V3 { x: self.x, y: (0i32).wrapping_sub(self.z), z: self.y }
    }

    pub fn rot_y(self) -> (r: V3)
        ensures
            r == self.spec_rot_y(),
    {
        V3 { x: self.z, y: self.y, z: (0i32).wrapping_sub(self.x) }
    }

    pub fn rot_z(self) -> (r: V3)
        ensures
            r == self.spec_rot_z(),
    {
        V3 { x: (0i32).wrapping_sub(self.y), y: self.x, z: self.z }
    }
}

/// Four quarter turns about the X axis return a coordinate to its original
/// value.
pub proof fn lemma_rot_x_four_times(v: V3)
    ensures
        v.spec_rot_x().spec_rot_x().spec_rot_x().spec_rot_x() == v,
{
}

/// Four quarter turns about the Y axis return a coordinate to its original
/// value.
pub proof fn lemma_rot_y_four_times(v: V3)
    ensures
        v.spec_rot_y().spec_rot_y().spec_rot_y().spec_rot_y() == v,
{
}

} // verus!
