//! A small scene of distance fields: a sphere over a plane.

use vstd::prelude::*;
use crate::scalar::Scalar;
use crate::vec3::Vec3;

verus! {

/// `out` is what `map` returns, for some outcome of the calls made: the
/// smaller of the distance to the sphere and the distance to the plane.
pub open spec fn map_outcome<S: Fn(Vec3) -> Scalar, P: Fn(Vec3) -> Scalar>(
    pos: Vec3,
    sphere: S,
    plane: P,
    out: Scalar,
) -> bool {
    exists|a: Scalar, b: Scalar|
        #![trigger call_ensures(sphere, (pos,), a), call_ensures(plane, (pos,), b)]
        call_ensures(sphere, (pos,), a) && call_ensures(plane, (pos,), b) && out == a.min_of(b)
}

/// The distance from `pos` to the scene: to the sphere or to the plane,
/// whichever is nearer.
///
/// `sphere(p)` is the length of `p` less 0.25; `plane(p)` is the height of
/// `p` over the plane at -0.25.
pub fn map<S: Fn(Vec3) -> Scalar, P: Fn(Vec3) -> Scalar>(pos: Vec3, sphere: &S, plane: &P) -> (out: Scalar)
    requires
        call_requires(*sphere, (pos,)),
        call_requires(*plane, (pos,)),
    ensures
        map_outcome(pos, *sphere, *plane, out),
{
    let a = sphere(pos);
    let b = plane(pos);
    a.min(b)
}

} // verus!
