use vstd::prelude::*;
use crate::color::Color;
use crate::frame::{frame_rows, Frame};
use crate::scalar::Scalar;

verus! {

/// A texture read from a decoded image of eight-bit red, green, blue and
/// alpha.
#[derive(Clone, Debug)]
pub struct Bitmap {
    pub bitmap: Frame,
}

impl Bitmap {
    /// The image has at least one pixel.
    pub open spec fn has_pixels(&self) -> bool {
        frame_rows(self.bitmap).len() > 0 && frame_rows(self.bitmap)[0].len() > 0
    }

    /// The pixel that stands for column `i` and row `j`: a column or row past
    /// the last one counts as the last one.
    pub open spec fn texel_of(&self, i: u32, j: u32) -> Seq<u8> {
        let rows = frame_rows(self.bitmap);
        let y = if j < rows.len() {
            j as int
        } else {
            rows.len() - 1
        };
        let x = if i < rows[y].len() {
            i as int
        } else {
            rows[y].len() - 1
        };
        rows[y][x]
    }

    /// The bytes of the pixel in column `i` and row `j`, each held to the
    /// image.
    pub fn texel(&self, i: u32, j: u32) -> (p: [u8; 4])
        requires
            self.has_pixels(),
        ensures
            p@ == self.texel_of(i, j),
    {
        let (width, height) = self.bitmap.dimensions();
        let x = if i < width {
            i
        } else {
            width - 1
        };
        let y = if j < height {
            j
        } else {
            height - 1
        };
        self.bitmap.get_pixel(x, y).unwrap()
    }

    /// The bytes of the pixel in column `i` and row `j`, each held to the
    /// image; `None` for an image without pixels.
    pub fn try_texel(&self, i: u32, j: u32) -> (p: Option<[u8; 4]>)
        ensures
            p.is_some() == self.has_pixels(),
            p.is_some() ==> p.unwrap()@ == self.texel_of(i, j),
    {
        let (width, height) = self.bitmap.dimensions();
        if width == 0 || height == 0 {
            None
        } else {
            Some(self.texel(i, j))
        }
    }

    /// `out` is what `value` returns for an image with pixels, for some
    /// outcome of the calls made: the decoded pixel whose column and row are
    /// the whole parts of what `column` and `row` give.
    pub open spec fn value_outcome<
        X: Fn(Scalar, u32) -> Scalar,
        Y: Fn(Scalar, u32) -> Scalar,
        G: Fn([u8; 4]) -> Color,
    >(
        &self,
        u: Scalar,
        v: Scalar,
        column: X,
        row: Y,
        decode: G,
        out: Color,
    ) -> bool {
        let width = frame_rows(self.bitmap)[0].len() as u32;
        let height = frame_rows(self.bitmap).len() as u32;
        exists|x: Scalar, y: Scalar, rgba: [u8; 4]|
            #![trigger
                call_ensures(column, (u, width), x),
                call_ensures(row, (v, height), y),
                call_ensures(decode, (rgba,), out)]
            {
                &&& call_ensures(column, (u, width), x)
                &&& call_ensures(row, (v, height), y)
                &&& rgba@ == self.texel_of(
                    x.clipped(u32::MAX as int) as u32,
                    y.clipped(u32::MAX as int) as u32,
                )
                &&& call_ensures(decode, (rgba,), out)
            }
    }

    /// The colour at the surface coordinates `u` and `v`; `None` for an
    /// image without pixels.
    ///
    /// `column(u, w)` is `u * w`; `row(v, h)` is `(1 - v) * h - 0.001`;
    /// `decode(p)` is the linear colour of the gamma-encoded bytes `p`.
    pub fn value<X: Fn(Scalar, u32) -> Scalar, Y: Fn(Scalar, u32) -> Scalar, G: Fn([u8; 4]) -> Color>(
        &self,
        u: Scalar,
        v: Scalar,
        column: &X,
        row: &Y,
        decode: &G,
    ) -> (out: Option<Color>)
        requires
            forall|c: Scalar, n: u32| call_requires(*column, (c, n)),
            forall|c: Scalar, n: u32| call_requires(*row, (c, n)),
            forall|p: [u8; 4]| call_requires(*decode, (p,)),
        ensures
            out.is_some() == self.has_pixels(),
            out.is_some() ==> self.value_outcome(u, v, *column, *row, *decode, out.unwrap()),
    {
        let (width, height) = self.bitmap.dimensions();
        if width == 0 || height == 0 {
            return None;
        }
        let x = column(u, width);
        let y = row(v, height);
        let rgba = self.texel(x.to_u32(), y.to_u32());
        let out = decode(rgba);
        Some(out)
    }
}

} // verus!
