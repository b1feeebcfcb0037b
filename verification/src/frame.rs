//! The picture that a render fills: rows of pixels of four bytes each.

use vstd::prelude::*;

verus! {

/// A picture of eight-bit red, green, blue and alpha, held in an
/// `ImageBuffer` of the image crate.
#[verifier::external_body]
#[derive(Debug)]
pub struct Frame {
    buffer: image::ImageBuffer<image::Rgba<u8>, Vec<u8>>,
}

/// The rows of a frame from top to bottom, each a row of pixels from left to
/// right, each pixel its red, green, blue and alpha bytes.
pub uninterp spec fn frame_rows(frame: Frame) -> Seq<Seq<Seq<u8>>>;

/// The bytes of the rows laid end to end: pixel after pixel, row after row.
pub open spec fn laid_out(rows: Seq<Seq<Seq<u8>>>, width: int, raw: Seq<u8>) -> bool {
    &&& raw.len() == 4 * width * rows.len()
    &&& forall|x: int, y: int, c: int|
        0 <= x < width && 0 <= y < rows.len() && 0 <= c < 4 ==> #[trigger] raw[(y * width + x) * 4 + c]
            == rows[y][x][c]
}

/// `ImageBuffer::new` of the image crate, which panics where the bytes of the
/// frame are more than a vector can hold. The contract states the frame's size, and that
/// every byte of it is zero.
#[verifier::external_body]
fn blank_frame(width: u32, height: u32) -> (frame: Frame)
    requires
        4 * width * height <= isize::MAX,
    ensures
        frame.is_sized(width, height),
        forall|x: int, y: int|
            0 <= x < width && 0 <= y < height ==> #[trigger] frame_rows(frame)[y][x] == seq![
                0u8,
                0u8,
                0u8,
                0u8,
            ],
{
    Frame { buffer: image::ImageBuffer::new(width, height) }
}

/// `ImageBuffer::from_raw` of the image crate, which gives nothing where the
/// bytes are too few. The contract asks for exactly the bytes of a frame of
/// that size, and states that a frame comes back whose pixels are those
/// bytes, pixel after pixel, row after row.
#[verifier::external_body]
fn frame_of(width: u32, height: u32, raw: Vec<u8>) -> (frame: Option<Frame>)
    requires
        raw@.len() == 4 * width * height,
    ensures
        frame.is_some(),
        frame.unwrap().is_sized(width, height),
        laid_out(frame_rows(frame.unwrap()), width as int, raw@),
{
    match image::ImageBuffer::from_raw(width, height, raw) {
        Some(buffer) => Some(Frame { buffer }),
        None => None,
    }
}

/// `Clone::clone` of the image crate's `ImageBuffer`: the copy holds the same
/// pixels.
#[verifier::external_body]
fn copy_frame(frame: &Frame) -> (copy: Frame)
    ensures
        frame_rows(copy) == frame_rows(*frame),
{
    Frame { buffer: frame.buffer.clone() }
}

/// `ImageBuffer::dimensions` of the image crate: width, then height. The
/// contract takes them for the length of every row and the number of rows.
#[verifier::external_body]
fn frame_dimensions(frame: &Frame) -> (d: (u32, u32))
    ensures
        frame.is_sized(d.0, d.1),
{
    frame.buffer.dimensions()
}

/// `ImageBuffer::put_pixel` of the image crate, which panics outside the
/// frame. The contract states that the pixel in column `x` of row `y` holds
/// the four bytes afterwards, and every other pixel what it held.
#[verifier::external_body]
fn set_pixel(frame: &mut Frame, x: u32, y: u32, rgba: [u8; 4])
    requires
        y < frame_rows(*old(frame)).len(),
        x < frame_rows(*old(frame))[y as int].len(),
    ensures
        frame_rows(*final(frame)) == frame_rows(*old(frame)).update(
            y as int,
            frame_rows(*old(frame))[y as int].update(x as int, rgba@),
        ),
{
    frame.buffer.put_pixel(x, y, image::Rgba(rgba));
}

/// `ImageBuffer::get_pixel` of the image crate, which panics outside the
/// frame. The contract takes its four bytes for the pixel in column `x` of
/// row `y`.
#[verifier::external_body]
fn pixel_at(frame: &Frame, x: u32, y: u32) -> (rgba: [u8; 4])
    requires
        y < frame_rows(*frame).len(),
        x < frame_rows(*frame)[y as int].len(),
    ensures
        rgba@ == frame_rows(*frame)[y as int][x as int],
{
    frame.buffer.get_pixel(x, y).0
}

/// `ImageBuffer::into_raw` of the image crate. The contract states that the
/// bytes are those of the pixels, pixel after pixel, row after row.
#[verifier::external_body]
fn raw_bytes(frame: Frame, width: u32) -> (raw: Vec<u8>)
    requires
        forall|y: int| 0 <= y < frame_rows(frame).len() ==> (#[trigger] frame_rows(frame)[y]).len() == width,
    ensures
        laid_out(frame_rows(frame), width as int, raw@),
{
    frame.buffer.into_raw()
}

impl Frame {
    /// The frame has `height` rows of `width` pixels.
    pub open spec fn is_sized(self, width: u32, height: u32) -> bool {
        &&& frame_rows(self).len() == height
        &&& forall|y: int| 0 <= y < height ==> (#[trigger] frame_rows(self)[y]).len() == width
    }

    /// A frame of `width` by `height` pixels; `None` where its bytes are more
    /// than a vector can hold.
    pub fn new(width: u32, height: u32) -> (frame: Option<Frame>)
        ensures
            frame.is_some() == (4 * width * height <= isize::MAX),
            frame.is_some() ==> frame.unwrap().is_sized(width, height),
            frame.is_some() ==> forall|x: int, y: int|
                0 <= x < width && 0 <= y < height ==> #[trigger] frame_rows(frame.unwrap())[y][x]
                    == seq![0u8, 0u8, 0u8, 0u8],
    {
        assert(width * height <= 0xffff_fffe_0000_0001) by (nonlinear_arith)
            requires
                0 <= width <= 0xffff_ffff,
                0 <= height <= 0xffff_ffff,
        ;
        assert(4 * width * height == 4 * (width * height)) by (nonlinear_arith);
        let area: u64 = width as u64 * height as u64;
        if area > 0x3fff_ffff_ffff_ffff {
            return None;
        }
        let bytes: u64 = 4 * area;
        if bytes > isize::MAX as u64 {
            return None;
        }
        Some(blank_frame(width, height))
    }

    /// A frame of `width` by `height` pixels from its bytes, pixel after
    /// pixel, row after row; `None` unless there are four bytes for each
    /// pixel and no more.
    pub fn from_raw(width: u32, height: u32, raw: Vec<u8>) -> (frame: Option<Frame>)
        ensures
            frame.is_some() == (raw@.len() == 4 * width * height),
            frame.is_some() ==> frame.unwrap().is_sized(width, height) && laid_out(
                frame_rows(frame.unwrap()),
                width as int,
                raw@,
            ),
    {
        assert(width * height <= 0xffff_fffe_0000_0001) by (nonlinear_arith)
            requires
                0 <= width <= 0xffff_ffff,
                0 <= height <= 0xffff_ffff,
        ;
        assert(4 * width * height == 4 * (width * height)) by (nonlinear_arith);
        let area: u64 = width as u64 * height as u64;
        let given: u64 = raw.len() as u64;
        if area > 0x3fff_ffff_ffff_ffff {
            return None;
        }
        let bytes: u64 = 4 * area;
        if given != bytes {
            return None;
        }
        frame_of(width, height, raw)
    }

    /// Width, then height.
    pub fn dimensions(&self) -> (d: (u32, u32))
        ensures
            self.is_sized(d.0, d.1),
    {
        frame_dimensions(self)
    }

    /// Sets the pixel in column `x` of row `y`.
    pub fn put_pixel(&mut self, x: u32, y: u32, rgba: [u8; 4])
        requires
            y < frame_rows(*old(self)).len(),
            x < frame_rows(*old(self))[y as int].len(),
        ensures
            frame_rows(*final(self)) == frame_rows(*old(self)).update(
                y as int,
                frame_rows(*old(self))[y as int].update(x as int, rgba@),
            ),
    {
        set_pixel(self, x, y, rgba)
    }

    /// Sets the pixel in column `x` of row `y`, where the frame has one
    /// there, and says whether it has.
    pub fn try_put_pixel(&mut self, x: u32, y: u32, rgba: [u8; 4]) -> (done: bool)
        ensures
            done == (y < frame_rows(*old(self)).len() && x < frame_rows(*old(self))[y as int].len()),
            done ==> frame_rows(*final(self)) == frame_rows(*old(self)).update(
                y as int,
                frame_rows(*old(self))[y as int].update(x as int, rgba@),
            ),
            !done ==> *final(self) == *old(self),
    {
        let (width, height) = frame_dimensions(self);
        if x < width && y < height {
            set_pixel(self, x, y, rgba);
            true
        } else {
            false
        }
    }

    /// The four bytes of the pixel in column `x` of row `y`; `None` outside
    /// the frame.
    pub fn get_pixel(&self, x: u32, y: u32) -> (rgba: Option<[u8; 4]>)
        ensures
            rgba.is_some() == (y < frame_rows(*self).len() && x < frame_rows(*self)[y as int].len()),
            rgba.is_some() ==> rgba.unwrap()@ == frame_rows(*self)[y as int][x as int],
    {
        let (width, height) = frame_dimensions(self);
        if x < width && y < height {
            Some(pixel_at(self, x, y))
        } else {
            None
        }
    }

    /// The bytes of the frame: pixel after pixel, row after row.
    pub fn into_raw(self) -> (raw: Vec<u8>)
        ensures
            exists|width: int| self.is_sized(width as u32, frame_rows(self).len() as u32) && laid_out(
                frame_rows(self),
                width,
                raw@,
            ),
    {
        let (width, height) = frame_dimensions(&self);
        raw_bytes(self, width)
    }
}

impl Clone for Frame {
    /// A copy that holds the same pixels.
    fn clone(&self) -> (copy: Self)
        ensures
            frame_rows(copy) == frame_rows(*self),
    {
        copy_frame(self)
    }
}

} // verus!
