//! Two- and three-component vectors and 2x2 matrices over [`Fixed`].

use crate::fixed::Fixed;
use vstd::prelude::*;

verus! {

#[derive(Clone, Copy, Debug, PartialEq, Eq, Structural)]
pub struct Vec2 {
    pub x: Fixed,
    pub y: Fixed,
}

#[derive(Clone, Copy, Debug, PartialEq, Eq, Structural)]
pub struct Vec3 {
    pub x: Fixed,
    pub y: Fixed,
    pub z: Fixed,
}

/// A 2x2 matrix, stored by columns.
#[derive(Clone, Copy, Debug, PartialEq, Eq, Structural)]
pub struct Mat2 {
    pub x_col: Vec2,
    pub y_col: Vec2,
}

pub fn vec2(x: Fixed, y: Fixed) -> (r: Vec2)
    ensures
        r == (Vec2 { x, y }),
{
    Vec2 { x, y }
}

pub fn vec3(x: Fixed, y: Fixed, z: Fixed) -> (r: Vec3)
    ensures
        r == (Vec3 { x, y, z }),
{
    Vec3 { x, y, z }
}

impl Vec2 {
    pub open spec fn spec_zero() -> Vec2 {
        Vec2 { x: Fixed { raw: 0 }, y: Fixed { raw: 0 } }
    }

    pub open spec fn spec_plus(self, rhs: Vec2) -> Vec2 {
        Vec2 { x: self.x.spec_plus(rhs.x), y: self.y.spec_plus(rhs.y) }
    }

    pub open spec fn spec_minus(self, rhs: Vec2) -> Vec2 {
        Vec2 { x: self.x.spec_minus(rhs.x), y: self.y.spec_minus(rhs.y) }
    }

    pub open spec fn spec_scale(self, s: Fixed) -> Vec2 {
        Vec2 { x: self.x.spec_times(s), y: self.y.spec_times(s) }
    }

    pub open spec fn spec_half(self) -> Vec2 {
        Vec2 { x: self.x.spec_half(), y: self.y.spec_half() }
    }

    /// The vector with its second component negated.
    pub open spec fn spec_flip_y(self) -> Vec2 {
        Vec2 { x: self.x, y: self.y.spec_neg() }
    }

    pub fn zero() -> (r: Vec2)
        ensures
            r == Vec2::spec_zero(),
    {
        Vec2 { x: Fixed::zero(), y: Fixed::zero() }
    }

    pub fn plus(self, rhs: Vec2) -> (r: Vec2)
        ensures
            r == self.spec_plus(rhs),
    {
        Vec2 { x: self.x.plus(rhs.x), y: self.y.plus(rhs.y) }
    }

    pub fn minus(self, rhs: Vec2) -> (r: Vec2)
        ensures
            r == self.spec_minus(rhs),
    {
        Vec2 { x: self.x.minus(rhs.x), y: self.y.minus(rhs.y) }
    }

    pub fn scale(self, s: Fixed) -> (r: Vec2)
        ensures
            r == self.spec_scale(s),
    {
        Vec2 { x: self.x.times(s), y: self.y.times(s) }
    }

    pub fn half(self) -> (r: Vec2)
        ensures
            r == self.spec_half(),
    {
        Vec2 { x: self.x.half(), y: self.y.half() }
    }

    pub fn flip_y(self) -> (r: Vec2)
        ensures
            r == self.spec_flip_y(),
    {
        Vec2 { x: self.x, y: self.y.neg() }
    }
}

impl Vec3 {
    pub open spec fn spec_plus(self, rhs: Vec3) -> Vec3 {
        Vec3 { x: self.x.spec_plus(rhs.x), y: self.y.spec_plus(rhs.y), z: self.z.spec_plus(rhs.z) }
    }

    pub open spec fn spec_scale(self, s: Fixed) -> Vec3 {
        Vec3 { x: self.x.spec_times(s), y: self.y.spec_times(s), z: self.z.spec_times(s) }
    }

    pub fn plus(self, rhs: Vec3) -> (r: Vec3)
        ensures
            r == self.spec_plus(rhs),
    {
        Vec3 { x: self.x.plus(rhs.x), y: self.y.plus(rhs.y), z: self.z.plus(rhs.z) }
    }

    pub fn scale(self, s: Fixed) -> (r: Vec3)
        ensures
            r == self.spec_scale(s),
    {
        Vec3 { x: self.x.times(s), y: self.y.times(s), z: self.z.times(s) }
    }
}

impl Mat2 {
    /// The product of the matrix with a column vector: the first column
    /// scaled by `v.x` plus the second scaled by `v.y`.
    pub open spec fn spec_mul_vec2(self, v: Vec2) -> Vec2 {
        self.x_col.spec_scale(v.x).spec_plus(self.y_col.spec_scale(v.y))
    }

    pub fn from_cols(x_col: Vec2, y_col: Vec2) -> (r: Mat2)
        ensures
            r == (Mat2 { x_col, y_col }),
    {
        Mat2 { x_col, y_col }
    }

    pub fn mul_vec2(self, v: Vec2) -> (r: Vec2)
        ensures
            r == self.spec_mul_vec2(v),
    {
        self.x_col.scale(v.x).plus(self.y_col.scale(v.y))
    }
}

} // verus!
