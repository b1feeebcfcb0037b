//! Effects on the rays that leave the camera.

use vstd::prelude::*;

pub mod camera_distorter;
pub mod camera_distorter_opt;

verus! {

/// Whether the camera's rays are bent by noise.
#[derive(Clone, Copy, Debug, PartialEq, Eq, Structural)]
pub enum CameraEffects {
    NoEffects,
    Distorter,
}

} // verus!
