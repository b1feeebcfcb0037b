//! The thin-lens camera: what it holds once it is set up.

use vstd::prelude::*;
use crate::scalar::Scalar;
use crate::vec3::Vec3;

verus! {

/// A camera with its basis and the corners of its image plane. To set one up
/// from a viewpoint and to aim a ray through it is arithmetic, and so the
/// caller's.
#[derive(Clone, Copy, Debug)]
pub struct Camera {
    pub origin: Vec3,
    pub lower_left_corner: Vec3,
    pub horizontal: Vec3,
    pub vertical: Vec3,
    pub lens_radius: Scalar,
    pub u: Vec3,
    pub v: Vec3,
    pub w: Vec3,
}

} // verus!
