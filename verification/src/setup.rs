//! Settings that the scenes share.

use vstd::prelude::*;
use crate::color::Color;

verus! {

/// Bit pattern of 2: the level of detail that distance fields are drawn
/// with. Nearer to zero shows smaller detail.
pub const SDF_DETAIL_SCALE_BITS: u32 = 0x4000_0000;

/// The number of rounds of the fractal function.
pub const FRACTAL_ITERATIONS: usize = 12;

/// White: every channel 1.
pub fn white() -> (c: Color)
    ensures
        c.is_white(),
{
    Color::white()
}

/// Black: every channel 0.
pub fn black() -> (c: Color)
    ensures
        c.is_black(),
{
    Color::black()
}

} // verus!
