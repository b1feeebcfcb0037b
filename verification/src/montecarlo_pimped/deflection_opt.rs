use vstd::prelude::*;
use crate::scalar::Scalar;

verus! {

/// Which vector a deflected normal is pushed along.
#[derive(Clone, Copy, Debug, PartialEq, Eq, Structural)]
pub enum DeflectionForce {
    CameraRay,
    ObjectToCamera,
}

/// How far a surface normal is bent away from the camera.
pub struct DeflectionOpt {
    pub amplitude: Scalar,
    pub randomness: Scalar,
    pub force: DeflectionForce,
}

impl DeflectionOpt {
    /// Amplitude 0.9, no randomness, pushed along the camera ray.
    pub fn default() -> (opt: DeflectionOpt)
        ensures
            opt.amplitude.bits == 0x3f66_6666,
            opt.randomness.bits == 0,
            opt.force == DeflectionForce::CameraRay,
    {
        DeflectionOpt {
            amplitude: Scalar::from_bits(0x3f66_6666),
            randomness: Scalar::from_bits(0),
            force: DeflectionForce::CameraRay,
        }
    }
}

} // verus!
