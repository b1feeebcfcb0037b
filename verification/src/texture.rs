//! Colour fields over a surface: what each kind holds.

use vstd::prelude::*;
use crate::color::Color;
use crate::frame::Frame;
use crate::scalar::Scalar;
use crate::vec3::Vec3;

pub mod bitmap;
pub mod checker;
pub mod constant_color;
pub mod noise;
pub mod perlin;

use bitmap::Bitmap;
use checker::Checker;
use constant_color::ConstantColor;
use noise::Noise;

verus! {

/// A colour field over a surface.
#[derive(Clone, Debug)]
pub enum Texture {
    Bitmap(Bitmap),
    Checker(Checker),
    ConstantColor(ConstantColor),
    Noise(Noise),
}

impl Texture {
    /// A texture read from a decoded image.
    pub fn bitmap(bitmap: Frame) -> (t: Texture)
        ensures
            t == Texture::Bitmap(Bitmap { bitmap }),
    {
        Texture::Bitmap(Bitmap { bitmap })
    }

    /// Noise at scale `s` over the given gradients; `None` unless there are
    /// 256 of them.
    pub fn noise(s: Scalar, ranvec: Vec<Vec3>) -> (t: Option<Texture>)
        ensures
            t.is_some() == (ranvec@.len() == perlin::SIZE),
            t.is_some() ==> t.unwrap() is Noise,
    {
        match Noise::new(s, ranvec) {
            Some(noise) => Some(Texture::Noise(noise)),
            None => None,
        }
    }

    /// `out` is what `value` returns, for some outcome of the call made: the
    /// colour of a constant texture, and for the others what the call for
    /// their kind gives.
    pub open spec fn value_outcome<
        B: Fn(&Bitmap, Scalar, Scalar, Vec3) -> Color,
        C: Fn(&Checker, Scalar, Scalar, Vec3) -> Color,
        N: Fn(&Noise, Scalar, Scalar, Vec3) -> Color,
    >(
        self,
        u: Scalar,
        v: Scalar,
        p: Vec3,
        bitmap: B,
        checker: C,
        noise: N,
        out: Color,
    ) -> bool {
        match self {
            Texture::Bitmap(b) => call_ensures(bitmap, (&b, u, v, p), out),
            Texture::Checker(c) => call_ensures(checker, (&c, u, v, p), out),
            Texture::ConstantColor(c) => out == c.color,
            Texture::Noise(n) => call_ensures(noise, (&n, u, v, p), out),
        }
    }

    /// The colour of the texture at surface coordinates `u` and `v` and at
    /// the point `p`: the value of its own kind, of which each but the
    /// constant one is handed in.
    pub fn value<
        B: Fn(&Bitmap, Scalar, Scalar, Vec3) -> Color,
        C: Fn(&Checker, Scalar, Scalar, Vec3) -> Color,
        N: Fn(&Noise, Scalar, Scalar, Vec3) -> Color,
    >(
        &self,
        u: Scalar,
        v: Scalar,
        p: Vec3,
        bitmap: &B,
        checker: &C,
        noise: &N,
    ) -> (out: Color)
        requires
            forall|b: &Bitmap, u: Scalar, v: Scalar, p: Vec3| call_requires(*bitmap, (b, u, v, p)),
            forall|c: &Checker, u: Scalar, v: Scalar, p: Vec3| call_requires(*checker, (c, u, v, p)),
            forall|n: &Noise, u: Scalar, v: Scalar, p: Vec3| call_requires(*noise, (n, u, v, p)),
        ensures
            self.value_outcome(u, v, p, *bitmap, *checker, *noise, out),
    {
        match self {
            Texture::Bitmap(b) => bitmap(b, u, v, p),
            Texture::Checker(c) => checker(c, u, v, p),
            Texture::ConstantColor(color) => color.value(),
            Texture::Noise(n) => noise(n, u, v, p),
        }
    }

    pub fn checker(squares: usize, odd: Color, even: Color) -> (t: Texture)
        ensures
            t == Texture::Checker(Checker { squares, even, odd }),
    {
        Texture::Checker(Checker { squares, odd, even })
    }

    pub fn constant_color(color: Color) -> (t: Texture)
        ensures
            t == Texture::ConstantColor(ConstantColor { color }),
    {
        Texture::ConstantColor(ConstantColor { color })
    }
}

} // verus!
