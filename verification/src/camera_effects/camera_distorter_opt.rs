use vstd::prelude::*;
use crate::scalar::Scalar;

verus! {

/// How the noise bends the camera's rays.
pub struct CameraDistorterOpt {
    pub noise_scale: Scalar,
    pub amplitude: Scalar,
    pub easing: Scalar,
}

impl CameraDistorterOpt {
    /// Noise at scale 16, amplitude 0.4, easing 0.8.
    pub fn default() -> (opt: CameraDistorterOpt)
        ensures
            opt.noise_scale.bits == 0x4180_0000,
            opt.amplitude.bits == 0x3ecc_cccd,
            opt.easing.bits == 0x3f4c_cccd,
    {
        CameraDistorterOpt {
            noise_scale: Scalar::from_bits(0x4180_0000),
            amplitude: Scalar::from_bits(0x3ecc_cccd),
            easing: Scalar::from_bits(0x3f4c_cccd),
        }
    }
}

} // verus!
