//! A ray: where it starts and which way it goes.

use vstd::prelude::*;
use crate::vec3::Vec3;

verus! {

/// A half-line from an origin along a direction of unit length.
#[derive(Clone, Copy, Debug, PartialEq, Eq, Structural)]
pub struct Ray {
    pub origin: Vec3,
    pub direction: Vec3,
}

impl Ray {
    /// A ray from `origin` along `direction`, normalised.
    ///
    /// `normalize(d)` is `d` over its length.
    pub fn new<N: Fn(Vec3) -> Vec3>(origin: Vec3, direction: Vec3, normalize: &N) -> (r: Ray)
        requires
            call_requires(*normalize, (direction,)),
        ensures
            r.origin == origin,
            call_ensures(*normalize, (direction,), r.direction),
    {
        Ray { origin, direction: normalize(direction) }
    }

    pub fn origin(&self) -> (o: Vec3)
        ensures
            o == self.origin,
    {
        self.origin
    }

    pub fn direction(&self) -> (d: Vec3)
        ensures
            d == self.direction,
    {
        self.direction
    }
}

} // verus!
