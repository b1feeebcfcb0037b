//! Three scalars: a point, a direction or a normal.

use vstd::prelude::*;
use crate::scalar::Scalar;

verus! {

/// A vector of three binary32 components.
#[derive(Clone, Copy, Debug, PartialEq, Eq, Structural)]
pub struct Vec3 {
    pub x: Scalar,
    pub y: Scalar,
    pub z: Scalar,
}

impl Vec3 {
    /// The component on `axis`: 0 is x, 1 is y, anything else is z.
    pub open spec fn at(self, axis: int) -> Scalar {
        if axis == 0 {
            self.x
        } else if axis == 1 {
            self.y
        } else {
            self.z
        }
    }

    /// No component is a NaN.
    pub open spec fn is_number(self) -> bool {
        !self.x.nan() && !self.y.nan() && !self.z.nan()
    }

    pub fn new(x: Scalar, y: Scalar, z: Scalar) -> (v: Vec3)
        ensures
            v.x == x,
            v.y == y,
            v.z == z,
    {
        Vec3 { x, y, z }
    }

    /// The component on `axis`.
    pub fn get(&self, axis: usize) -> (s: Scalar)
        requires
            axis < 3,
        ensures
            s == self.at(axis as int),
    {
        if axis == 0 {
            self.x
        } else if axis == 1 {
            self.y
        } else {
            self.z
        }
    }

    /// The vector from its components' bit patterns.
    pub fn from_bits(x: u32, y: u32, z: u32) -> (v: Vec3)
        ensures
            v.x.bits == x,
            v.y.bits == y,
            v.z.bits == z,
    {
        Vec3 { x: Scalar { bits: x }, y: Scalar { bits: y }, z: Scalar { bits: z } }
    }

    /// The vector with every sign flipped.
    pub open spec fn negated(self) -> Vec3 {
        Vec3 { x: self.x.negated(), y: self.y.negated(), z: self.z.negated() }
    }

    /// The vector with every sign flipped.
    pub fn neg(&self) -> (v: Vec3)
        ensures
            v == self.negated(),
            v.x.sign() == !self.x.sign(),
            v.y.sign() == !self.y.sign(),
            v.z.sign() == !self.z.sign(),
            v.x.rank() == -self.x.rank(),
            v.y.rank() == -self.y.rank(),
            v.z.rank() == -self.z.rank(),
            v.x.magnitude() == self.x.magnitude(),
            v.y.magnitude() == self.y.magnitude(),
            v.z.magnitude() == self.z.magnitude(),
    {
        Vec3 { x: self.x.neg(), y: self.y.neg(), z: self.z.neg() }
    }
}

} // verus!
