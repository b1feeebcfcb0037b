//! Linear colours, their clamping and their quantisation to eight bits.

use vstd::prelude::*;
use vstd::std_specs::cmp::PartialEqSpecImpl;
use crate::scalar::{Scalar, ONE_BITS};

verus! {

/// A colour in linear space.
///
/// `==` compares the channels by value: the two zeros are equal, and a colour
/// with a NaN in it equals nothing, itself included.
#[derive(Clone, Copy, Debug)]
pub struct Color {
    pub red: Scalar,
    pub green: Scalar,
    pub blue: Scalar,
}

impl PartialEq for Color {
    fn eq(&self, other: &Color) -> (r: bool) {
        self.red.eq_value(other.red) && self.green.eq_value(other.green) && self.blue.eq_value(other.blue)
    }
}

impl PartialEqSpecImpl for Color {
    open spec fn obeys_eq_spec() -> bool {
        true
    }

    open spec fn eq_spec(&self, other: &Color) -> bool {
        self.same(*other)
    }
}

impl Color {
    /// Every channel is 1.
    pub open spec fn is_white(self) -> bool {
        self.red.bits == ONE_BITS && self.green.bits == ONE_BITS && self.blue.bits == ONE_BITS
    }

    /// No channel is a NaN.
    pub open spec fn is_number(self) -> bool {
        !self.red.nan() && !self.green.nan() && !self.blue.nan()
    }

    /// The two colours have channels of equal value.
    pub open spec fn same(self, other: Color) -> bool {
        self.red.same(other.red) && self.green.same(other.green) && self.blue.same(other.blue)
    }

    /// `rgba` is the colour as four bytes, for some outcome of the calls of
    /// `encode`: each channel encoded and cut to a byte, then an opaque alpha.
    pub open spec fn encoded_as<E: Fn(Scalar) -> Scalar>(self, encode: E, rgba: Seq<u8>) -> bool {
        exists|r: Scalar, g: Scalar, b: Scalar|
            #![trigger
                call_ensures(encode, (self.red,), r),
                call_ensures(encode, (self.green,), g),
                call_ensures(encode, (self.blue,), b)]
            {
                &&& call_ensures(encode, (self.red,), r)
                &&& call_ensures(encode, (self.green,), g)
                &&& call_ensures(encode, (self.blue,), b)
                &&& rgba == seq![r.byte_of() as u8, g.byte_of() as u8, b.byte_of() as u8, 255u8]
            }
    }

    /// White: every channel 1.
    pub open spec fn spec_white() -> Color {
        Color {
            red: Scalar { bits: ONE_BITS },
            green: Scalar { bits: ONE_BITS },
            blue: Scalar { bits: ONE_BITS },
        }
    }

    /// Every channel is +0.
    pub open spec fn is_black(self) -> bool {
        self.red.bits == 0 && self.green.bits == 0 && self.blue.bits == 0
    }

    /// The colour with every channel held to the interval from 0 to 1.
    pub open spec fn clamped(self) -> Color {
        Color {
            red: self.red.unit_of(),
            green: self.green.unit_of(),
            blue: self.blue.unit_of(),
        }
    }

    pub fn new(r: Scalar, g: Scalar, b: Scalar) -> (c: Color)
        ensures
            c.red == r,
            c.green == g,
            c.blue == b,
    {
        Color { red: r, green: g, blue: b }
    }

    /// The colour from its channels' bit patterns.
    pub fn from_bits(r: u32, g: u32, b: u32) -> (c: Color)
        ensures
            c.red.bits == r,
            c.green.bits == g,
            c.blue.bits == b,
    {
        Color { red: Scalar { bits: r }, green: Scalar { bits: g }, blue: Scalar { bits: b } }
    }

    pub fn white() -> (c: Color)
        ensures
            c.is_white(),
            c == Color::spec_white(),
    {
        Color { red: Scalar::one(), green: Scalar::one(), blue: Scalar::one() }
    }

    pub fn black() -> (c: Color)
        ensures
            c.is_black(),
    {
        Color { red: Scalar::zero(), green: Scalar::zero(), blue: Scalar::zero() }
    }

    /// `out` is the colour as four bytes, for some outcome of the calls of
    /// `encode`: each channel encoded and cut to a byte, then an opaque alpha.
    pub open spec fn rgba_outcome<E: Fn(Scalar) -> Scalar>(self, encode: E, out: [u8; 4]) -> bool {
        self.encoded_as(encode, out@)
    }

    /// The colour as red, green, blue and alpha bytes.
    ///
    /// `encode(c)` is the gamma-encoded channel on the scale of a byte:
    /// `c` to the power of 1 / 2.2, times 255.
    pub fn to_rgba<E: Fn(Scalar) -> Scalar>(&self, encode: &E) -> (out: [u8; 4])
        requires
            forall|c: Scalar| call_requires(*encode, (c,)),
        ensures
            self.rgba_outcome(*encode, out),
    {
        let r = encode(self.red);
        let g = encode(self.green);
        let b = encode(self.blue);
        let out = [r.to_u8(), g.to_u8(), b.to_u8(), 255];
        out
    }

    /// The colour blended towards `new_color` by `pct`, which is held to the
    /// interval from 0 to 1 first.
    ///
    /// `mix(a, b, p)` is `a * (1 - p) + b * p`.
    pub fn lerp<M: Fn(Color, Color, Scalar) -> Color>(&self, new_color: Color, pct: Scalar, mix: &M) -> (out:
        Color)
        requires
            forall|a: Color, b: Color, p: Scalar| call_requires(*mix, (a, b, p)),
        ensures
            call_ensures(*mix, (*self, new_color, pct.unit_of()), out),
    {
        let p = pct.clamp_unit();
        mix(*self, new_color, p)
    }

    /// Every channel held to the interval from 0 to 1; a NaN becomes 1.
    pub fn clamp(&self) -> (c: Color)
        ensures
            c == self.clamped(),
    {
        Color {
            red: self.red.clamp_unit(),
            blue: self.blue.clamp_unit(),
            green: self.green.clamp_unit(),
        }
    }
}

/// Every channel of a clamped colour is a number from 0 to 1, and a colour
/// whose channels are such numbers is left as it is.
pub proof fn lemma_clamped_is_in_unit(c: Color)
    ensures
        !c.clamped().red.nan() && 0 <= c.clamped().red.rank() <= ONE_BITS,
        !c.clamped().green.nan() && 0 <= c.clamped().green.rank() <= ONE_BITS,
        !c.clamped().blue.nan() && 0 <= c.clamped().blue.rank() <= ONE_BITS,
        c.is_white() || c.is_black() ==> c.clamped() == c,
{
    crate::scalar::lemma_clamp_unit(c.red);
    crate::scalar::lemma_clamp_unit(c.green);
    crate::scalar::lemma_clamp_unit(c.blue);
}

} // verus!
