use vstd::prelude::*;
use crate::color::Color;
use crate::scalar::Scalar;

verus! {

/// The periodic function that bands a tint.
#[derive(Clone, Copy, Debug, PartialEq, Eq, Structural)]
pub enum BandOp {
    Sin,
    Fract,
    Mod,
}

/// How a scattered direction recolours a surface.
pub struct TintOpt {
    pub normal_color: Color,
    pub background_color: Color,
    pub mix: Scalar,
    pub freq: Scalar,
    pub amplitude: Scalar,
    pub band_op: BandOp,
}

impl TintOpt {
    /// Tint (1, 0.5, 1) over background (0.8196, 0.7568, 0.3490), mixed at
    /// 0.9, with frequency 45, amplitude 40 and sine bands.
    pub fn default() -> (opt: TintOpt)
        ensures
            opt.normal_color.red.bits == 0x3f80_0000,
            opt.normal_color.green.bits == 0x3f00_0000,
            opt.normal_color.blue.bits == 0x3f80_0000,
            opt.background_color.red.bits == 0x3f51_d14e,
            opt.background_color.green.bits == 0x3f41_bda5,
            opt.background_color.blue.bits == 0x3eb2_b021,
            opt.mix.bits == 0x3f66_6666,
            opt.freq.bits == 0x4234_0000,
            opt.amplitude.bits == 0x4220_0000,
            opt.band_op == BandOp::Sin,
    {
        TintOpt {
            normal_color: Color::from_bits(0x3f80_0000, 0x3f00_0000, 0x3f80_0000),
            background_color: Color::from_bits(0x3f51_d14e, 0x3f41_bda5, 0x3eb2_b021),
            mix: Scalar::from_bits(0x3f66_6666),
            freq: Scalar::from_bits(0x4234_0000),
            amplitude: Scalar::from_bits(0x4220_0000),
            band_op: BandOp::Sin,
        }
    }
}

} // verus!
