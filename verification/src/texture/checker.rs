use vstd::prelude::*;
use crate::color::Color;
use crate::scalar::Scalar;

verus! {

/// A board of `squares` by `squares` fields in two colours.
#[derive(Clone, Debug)]
pub struct Checker {
    pub squares: usize,
    pub even: Color,
    pub odd: Color,
}

pub fn is_even(v: u32) -> (r: bool)
    ensures
        r == (v % 2 == 0),
{
    v % 2 == 0
}

impl Checker {
    /// The colour of the field in column `x` and row `y`: `even` where the
    /// two have the same parity, else `odd`.
    pub open spec fn field_of(&self, x: u32, y: u32) -> Color {
        if (x + y) % 2 == 0 {
            self.even
        } else {
            self.odd
        }
    }

    /// The colour of the field in column `x` and row `y`.
    pub fn field(&self, x: u32, y: u32) -> (c: Color)
        ensures
            c == self.field_of(x, y),
    {
        match (is_even(x), is_even(y)) {
            (true, true) | (false, false) => self.even,
            _ => self.odd,
        }
    }

    /// `out` is what `value` returns, for some outcome of the calls made:
    /// the colour of the field whose column and row are the whole parts of
    /// the scaled coordinates.
    pub open spec fn value_outcome<M: Fn(Scalar, usize) -> Scalar>(
        &self,
        u: Scalar,
        v: Scalar,
        scale: M,
        out: Color,
    ) -> bool {
        exists|x: Scalar, y: Scalar|
            #![trigger
                call_ensures(scale, (u, self.squares), x),
                call_ensures(scale, (v, self.squares), y)]
            {
                &&& call_ensures(scale, (u, self.squares), x)
                &&& call_ensures(scale, (v, self.squares), y)
                &&& out == self.field_of(
                    x.clipped(u32::MAX as int) as u32,
                    y.clipped(u32::MAX as int) as u32,
                )
            }
    }

    /// The colour at the surface coordinates `u` and `v`.
    ///
    /// `scale(c, n)` is `c * n`.
    pub fn value<M: Fn(Scalar, usize) -> Scalar>(&self, u: Scalar, v: Scalar, scale: &M) -> (out: Color)
        requires
            forall|c: Scalar, n: usize| call_requires(*scale, (c, n)),
        ensures
            self.value_outcome(u, v, *scale, out),
    {
        let x = scale(u, self.squares).to_u32();
        let y = scale(v, self.squares).to_u32();
        self.field(x, y)
    }
}

} // verus!
