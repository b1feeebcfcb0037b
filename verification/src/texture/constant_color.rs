use vstd::prelude::*;
use crate::color::Color;

verus! {

/// One colour everywhere.
#[derive(Clone, Debug)]
pub struct ConstantColor {
    pub color: Color,
}

impl ConstantColor {
    /// The colour, whatever the place.
    pub fn value(&self) -> (c: Color)
        ensures
            c == self.color,
    {
        self.color
    }
}

} // verus!
