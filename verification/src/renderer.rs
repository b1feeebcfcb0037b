//! The integrator and the frame: the light along one ray, the samples of one
//! pixel, the pixels of one image.

use vstd::prelude::*;
use rayon::iter::{IntoParallelRefIterator, ParallelIterator};
use crate::color::Color;
use crate::frame::{frame_rows, Frame};
use crate::render_error::RenderError;
use crate::hitable::{HitRecord, Hitable};
use crate::material::Scatter;
use crate::ray::Ray;
use crate::scalar::{Scalar, MAX_BITS};
use crate::scene::Scene;
use crate::bvh::{BvhTree, Shape};

verus! {

/// Bit pattern of 0.001, the nearest that a hit may lie.
pub const NEAR_BITS: u32 = 0x3a83_126f;

/// What a surface answers to a ray that hits it: the light it emits and what
/// it scatters, if anything.
pub struct Response {
    pub emitted: Color,
    pub scattered: Option<Scatter>,
}

/// The sky of a scene with one background colour: that colour, whatever the
/// ray.
pub open spec fn flat_sky(background: Color) -> spec_fn(Ray, Color) -> bool {
    |r: Ray, c: Color| c == background
}

/// What a call of `sky` can return, as a relation.
pub open spec fn sky_of<S: Fn(&Ray) -> Color>(sky: S) -> spec_fn(Ray, Color) -> bool {
    |r: Ray, c: Color| call_ensures(sky, (&r,), c)
}

/// `out` is the light that comes along the ray with `depth` bounces left,
/// for some outcome of the calls made. With no bounce left it is white, and
/// not clamped. A ray that hits nothing between 0.001 and the largest number
/// gives a colour of the sky. A ray that hits a surface that scatters no ray
/// gives what the surface emits; where the surface scatters, it gives `blend`
/// of what the surface emits, its colour and the light along the ray that
/// leaves, with one bounce less. Each of the three is clamped.
pub open spec fn radiance<
    H: Hitable,
    T: Fn(&Ray, Scalar, usize) -> Scalar,
    R: Fn(&Ray, &HitRecord) -> Response,
    B: Fn(Color, Color, Color) -> Color,
>(
    shape: Shape,
    prims: Seq<H>,
    sky: spec_fn(Ray, Color) -> bool,
    ray: Ray,
    depth: nat,
    travel: T,
    respond: R,
    blend: B,
    out: Color,
) -> bool
    decreases depth,
{
    if depth == 0 {
        out.is_white()
    } else {
        exists|hit: Option<HitRecord>|
            #![trigger
                shape.hit_outcome(
                    prims,
                    ray,
                    travel,
                    Scalar { bits: NEAR_BITS },
                    Scalar { bits: MAX_BITS },
                    hit,
                )]
            {
                &&& shape.hit_outcome(
                    prims,
                    ray,
                    travel,
                    Scalar { bits: NEAR_BITS },
                    Scalar { bits: MAX_BITS },
                    hit,
                )
                &&& match hit {
                    None => exists|beyond: Color|
                        #![trigger sky(ray, beyond)]
                        sky(ray, beyond) && out == beyond.clamped(),
                    Some(h) => exists|answer: Response|
                        #![trigger call_ensures(respond, (&ray, &h), answer)]
                        {
                            &&& call_ensures(respond, (&ray, &h), answer)
                            &&& match answer.scattered {
                                Some(Scatter { color, ray: Some(bounce) }) => exists|
                                    incoming: Color,
                                    mixed: Color,
                                |
                                    #![trigger
                                        call_ensures(
                                            blend,
                                            (answer.emitted, color, incoming),
                                            mixed,
                                        )]
                                    {
                                        &&& radiance(
                                            shape,
                                            prims,
                                            sky,
                                            bounce,
                                            (depth - 1) as nat,
                                            travel,
                                            respond,
                                            blend,
                                            incoming,
                                        )
                                        &&& call_ensures(
                                            blend,
                                            (answer.emitted, color, incoming),
                                            mixed,
                                        )
                                        &&& out == mixed.clamped()
                                    },
                                _ => out == answer.emitted.clamped(),
                            }
                        },
                }
            }
    }
}

/// The light that comes along `ray` with `depth` bounces left, under a sky
/// that may differ from ray to ray.
///
/// `travel(r, c, a)` is the ray parameter at which `r` meets the plane where
/// coordinate `a` is `c`; `respond(r, h)` is what the material at `h` emits
/// and scatters; `blend(e, c, l)` is `e + c * l`; `sky(r)` is the colour
/// behind everything along `r`.
pub fn trace<
    'a,
    H: Hitable,
    T: Fn(&Ray, Scalar, usize) -> Scalar,
    R: Fn(&Ray, &HitRecord) -> Response,
    B: Fn(Color, Color, Color) -> Color,
    S: Fn(&Ray) -> Color,
>(
    ray: &Ray,
    bvh: &BvhTree<'a, H>,
    depth: usize,
    travel: &T,
    respond: &R,
    blend: &B,
    sky: &S,
) -> (out: Color)
    requires
        forall|r: &Ray, c: Scalar, a: usize| a < 3 ==> call_requires(*travel, (r, c, a)),
        forall|r: &Ray, h: &HitRecord| call_requires(*respond, (r, h)),
        forall|e: Color, c: Color, l: Color| call_requires(*blend, (e, c, l)),
        forall|r: &Ray| call_requires(*sky, (r,)),
    ensures
        radiance(bvh@, bvh.prims(), sky_of(*sky), *ray, depth as nat, *travel, *respond, *blend, out),
        depth == 0 ==> out.is_white(),
    decreases depth,
{
    if depth == 0 {
        return Color::white();
    }
    let near = Scalar::from_bits(NEAR_BITS);
    let far = Scalar::from_bits(MAX_BITS);
    let hit = bvh.hit(ray, travel, near, far);
    assert(bvh@.hit_outcome(
        bvh.prims(),
        *ray,
        *travel,
        Scalar { bits: NEAR_BITS },
        Scalar { bits: MAX_BITS },
        hit,
    ));
    match hit {
        Some(hit_record) => {
            let answer = respond(ray, &hit_record);
            assert(call_ensures(*respond, (ray, &hit_record), answer));
            match answer.scattered {
                Some(Scatter { color: tint, ray: Some(bounce) }) => {
                    let incoming = trace(&bounce, bvh, depth - 1, travel, respond, blend, sky);
                    let mixed = blend(answer.emitted, tint, incoming);
                    assert(call_ensures(*blend, (answer.emitted, tint, incoming), mixed));
                    mixed.clamp()
                },
                _ => answer.emitted.clamp(),
            }
        },
        None => {
            let beyond = sky(ray);
            assert(sky_of(*sky)(*ray, beyond));
            beyond.clamp()
        },
    }
}

/// Light under a narrower sky is light under a wider one.
pub proof fn lemma_radiance_widens<
    H: Hitable,
    T: Fn(&Ray, Scalar, usize) -> Scalar,
    R: Fn(&Ray, &HitRecord) -> Response,
    B: Fn(Color, Color, Color) -> Color,
>(
    shape: Shape,
    prims: Seq<H>,
    narrow: spec_fn(Ray, Color) -> bool,
    wide: spec_fn(Ray, Color) -> bool,
    ray: Ray,
    depth: nat,
    travel: T,
    respond: R,
    blend: B,
    out: Color,
)
    requires
        forall|r: Ray, c: Color| #[trigger] narrow(r, c) ==> wide(r, c),
        radiance(shape, prims, narrow, ray, depth, travel, respond, blend, out),
    ensures
        radiance(shape, prims, wide, ray, depth, travel, respond, blend, out),
    decreases depth,
{
    if depth > 0 {
        let near = Scalar { bits: NEAR_BITS };
        let far = Scalar { bits: MAX_BITS };
        let hit = choose|hit: Option<HitRecord>|
            {
                &&& #[trigger] shape.hit_outcome(prims, ray, travel, near, far, hit)
                &&& match hit {
                    None => exists|beyond: Color|
                        #![trigger narrow(ray, beyond)]
                        narrow(ray, beyond) && out == beyond.clamped(),
                    Some(h) => exists|answer: Response|
                        #![trigger call_ensures(respond, (&ray, &h), answer)]
                        {
                            &&& call_ensures(respond, (&ray, &h), answer)
                            &&& match answer.scattered {
                                Some(Scatter { color, ray: Some(bounce) }) => exists|
                                    incoming: Color,
                                    mixed: Color,
                                |
                                    #![trigger
                                        call_ensures(
                                            blend,
                                            (answer.emitted, color, incoming),
                                            mixed,
                                        )]
                                    {
                                        &&& radiance(
                                            shape,
                                            prims,
                                            narrow,
                                            bounce,
                                            (depth - 1) as nat,
                                            travel,
                                            respond,
                                            blend,
                                            incoming,
                                        )
                                        &&& call_ensures(
                                            blend,
                                            (answer.emitted, color, incoming),
                                            mixed,
                                        )
                                        &&& out == mixed.clamped()
                                    },
                                _ => out == answer.emitted.clamped(),
                            }
                        },
                }
            };
        match hit {
            None => {
                let beyond = choose|beyond: Color| #[trigger]
                    narrow(ray, beyond) && out == beyond.clamped();
                assert(wide(ray, beyond));
            },
            Some(h) => {
                let answer = choose|answer: Response|
                    {
                        &&& #[trigger] call_ensures(respond, (&ray, &h), answer)
                        &&& match answer.scattered {
                            Some(Scatter { color, ray: Some(bounce) }) => exists|
                                incoming: Color,
                                mixed: Color,
                            |
                                #![trigger
                                    call_ensures(blend, (answer.emitted, color, incoming), mixed)]
                                {
                                    &&& radiance(
                                        shape,
                                        prims,
                                        narrow,
                                        bounce,
                                        (depth - 1) as nat,
                                        travel,
                                        respond,
                                        blend,
                                        incoming,
                                    )
                                    &&& call_ensures(
                                        blend,
                                        (answer.emitted, color, incoming),
                                        mixed,
                                    )
                                    &&& out == mixed.clamped()
                                },
                            _ => out == answer.emitted.clamped(),
                        }
                    };
                match answer.scattered {
                    Some(Scatter { color, ray: Some(bounce) }) => {
                        let (incoming, mixed) = choose|incoming: Color, mixed: Color|
                            {
                                &&& radiance(
                                    shape,
                                    prims,
                                    narrow,
                                    bounce,
                                    (depth - 1) as nat,
                                    travel,
                                    respond,
                                    blend,
                                    incoming,
                                )
                                &&& #[trigger] call_ensures(
                                    blend,
                                    (answer.emitted, color, incoming),
                                    mixed,
                                )
                                &&& out == mixed.clamped()
                            };
                        lemma_radiance_widens(
                            shape,
                            prims,
                            narrow,
                            wide,
                            bounce,
                            (depth - 1) as nat,
                            travel,
                            respond,
                            blend,
                            incoming,
                        );
                    },
                    _ => {},
                }
            },
        }
    }
}

/// The light that comes along `ray` with `depth` bounces left, in a scene
/// with one background colour.
///
/// `travel(r, c, a)` is the ray parameter at which `r` meets the plane where
/// coordinate `a` is `c`; `respond(r, h)` is what the material at `h` emits
/// and scatters; `blend(e, c, l)` is `e + c * l`.
pub fn color<
    'a,
    H: Hitable,
    T: Fn(&Ray, Scalar, usize) -> Scalar,
    R: Fn(&Ray, &HitRecord) -> Response,
    B: Fn(Color, Color, Color) -> Color,
>(
    ray: &Ray,
    scene: &Scene<'a, H>,
    max_depth: usize,
    depth: usize,
    travel: &T,
    respond: &R,
    blend: &B,
) -> (out: Color)
    requires
        forall|r: &Ray, c: Scalar, a: usize| a < 3 ==> call_requires(*travel, (r, c, a)),
        forall|r: &Ray, h: &HitRecord| call_requires(*respond, (r, h)),
        forall|e: Color, c: Color, l: Color| call_requires(*blend, (e, c, l)),
    ensures
        radiance(
            scene.bvh@,
            scene.bvh.prims(),
            flat_sky(scene.background),
            *ray,
            depth as nat,
            *travel,
            *respond,
            *blend,
            out,
        ),
        depth == 0 ==> out.is_white(),
{
    let background = scene.background;
    let sky = |r: &Ray| -> (c: Color)
        ensures
            c == background,
        { background };
    let out = trace(ray, &scene.bvh, depth, travel, respond, blend, &sky);
    proof {
        lemma_radiance_widens(
            scene.bvh@,
            scene.bvh.prims(),
            sky_of(sky),
            flat_sky(background),
            *ray,
            depth as nat,
            *travel,
            *respond,
            *blend,
            out,
        );
    }
    out
}

/// In a scene whose surfaces scatter nothing, the light along a ray with a
/// bounce left is a colour of the sky or what one surface emits, clamped:
/// nothing is blended.
pub proof fn lemma_light_without_scatter<
    H: Hitable,
    T: Fn(&Ray, Scalar, usize) -> Scalar,
    R: Fn(&Ray, &HitRecord) -> Response,
    B: Fn(Color, Color, Color) -> Color,
>(
    shape: Shape,
    prims: Seq<H>,
    sky: spec_fn(Ray, Color) -> bool,
    ray: Ray,
    depth: nat,
    travel: T,
    respond: R,
    blend: B,
    out: Color,
)
    requires
        depth >= 1,
        forall|r: Ray, h: HitRecord, answer: Response| #[trigger]
            call_ensures(respond, (&r, &h), answer) ==> answer.scattered.is_none(),
        radiance(shape, prims, sky, ray, depth, travel, respond, blend, out),
    ensures
        (exists|beyond: Color| #[trigger] sky(ray, beyond) && out == beyond.clamped()) || (exists|
            h: HitRecord,
            answer: Response,
        | #[trigger]
            call_ensures(respond, (&ray, &h), answer) && out == answer.emitted.clamped()),
{
}

/// With no bounce left the light is white, whatever the scene and the ray.
pub proof fn lemma_light_without_depth<
    H: Hitable,
    T: Fn(&Ray, Scalar, usize) -> Scalar,
    R: Fn(&Ray, &HitRecord) -> Response,
    B: Fn(Color, Color, Color) -> Color,
>(
    shape: Shape,
    prims: Seq<H>,
    sky: spec_fn(Ray, Color) -> bool,
    ray: Ray,
    travel: T,
    respond: R,
    blend: B,
    out: Color,
)
    requires
        radiance(shape, prims, sky, ray, 0, travel, respond, blend, out),
    ensures
        out.is_white(),
{
}

/// What a call of `sample` can return, as a relation.
pub open spec fn outcomes_of<S: Fn(u32, u32) -> Color>(sample: S) -> spec_fn(u32, u32, Color) -> bool {
    |x: u32, v: u32, c: Color| call_ensures(sample, (x, v), c)
}

/// `acc` is the sum of the first `k` samples of a pixel, for some outcome of
/// the calls made: black before the first, then `accumulate` of the sum so far and
/// the next sample.
pub open spec fn gathered<A: Fn(Color, Color) -> Color>(
    x: u32,
    flipped_y: u32,
    k: nat,
    sample: spec_fn(u32, u32, Color) -> bool,
    accumulate: A,
    acc: Color,
) -> bool
    decreases k,
{
    if k == 0 {
        acc.is_black()
    } else {
        exists|before: Color, light: Color|
            #![trigger call_ensures(accumulate, (before, light), acc)]
            {
                &&& gathered(x, flipped_y, (k - 1) as nat, sample, accumulate, before)
                &&& sample(x, flipped_y, light)
                &&& call_ensures(accumulate, (before, light), acc)
            }
    }
}

/// `out` is the pixel in column `x` and row `y`, for some outcome of the
/// calls made: its place, and `mean` of the sum of `n_msaa` samples, each
/// taken at `x` and at the row counted from below, `frame_height - y`.
pub open spec fn pixel_outcome<A: Fn(Color, Color) -> Color, M: Fn(Color, usize) -> Color>(
    x: u32,
    y: u32,
    frame_height: u32,
    n_msaa: usize,
    sample: spec_fn(u32, u32, Color) -> bool,
    accumulate: A,
    mean: M,
    out: (u32, u32, Color),
) -> bool {
    &&& out.0 == x
    &&& out.1 == y
    &&& exists|total: Color|
        #![trigger call_ensures(mean, (total, n_msaa), out.2)]
        {
            &&& gathered(x, (frame_height - y) as u32, n_msaa as nat, sample, accumulate, total)
            &&& call_ensures(mean, (total, n_msaa), out.2)
        }
}

/// The pixel in column `x` and row `y`: the mean of `n_msaa` samples.
///
/// `sample(x, v)` is the light through one point of the pixel in column `x`
/// of the row `v` from below; `accumulate(a, b)` is `a + b`; `mean(a, n)` is `a / n`.
pub fn sample_pixel<
    S: Fn(u32, u32) -> Color,
    A: Fn(Color, Color) -> Color,
    M: Fn(Color, usize) -> Color,
>(
    x: u32,
    y: u32,
    frame_height: u32,
    n_msaa: usize,
    sample: &S,
    accumulate: &A,
    mean: &M,
) -> (out: (u32, u32, Color))
    requires
        y <= frame_height,
        forall|x: u32, v: u32| call_requires(*sample, (x, v)),
        forall|a: Color, b: Color| call_requires(*accumulate, (a, b)),
        forall|a: Color, n: usize| call_requires(*mean, (a, n)),
    ensures
        pixel_outcome(x, y, frame_height, n_msaa, outcomes_of(*sample), *accumulate, *mean, out),
{
    let flipped_y = frame_height - y;
    let mut col = Color::black();
    let mut s: usize = 0;
    while s < n_msaa
        invariant
            s <= n_msaa,
            forall|x: u32, v: u32| call_requires(*sample, (x, v)),
            forall|a: Color, b: Color| call_requires(*accumulate, (a, b)),
            gathered(x, flipped_y, s as nat, outcomes_of(*sample), *accumulate, col),
        decreases n_msaa - s,
    {
        let light = sample(x, flipped_y);
        let ghost before = col;
        col = accumulate(col, light);
        s += 1;
        assert(outcomes_of(*sample)(x, flipped_y, light));
        assert(call_ensures(*accumulate, (before, light), col));
    }
    let avg = mean(col, n_msaa);
    let out = (x, y, avg);
    assert(gathered(x, (frame_height - y) as u32, n_msaa as nat, outcomes_of(*sample), *accumulate, col));
    assert(call_ensures(*mean, (col, n_msaa), out.2));
    out
}

/// The places of the pixels of a frame, row by row from the top.
pub fn frame_coords(frame_width: u32, frame_height: u32) -> (coords: Vec<(u32, u32)>)
    requires
        frame_width * frame_height <= u32::MAX,
    ensures
        coords.len() == frame_width * frame_height,
        forall|x: int, y: int|
            0 <= x < frame_width && 0 <= y < frame_height ==> #[trigger] coords[y * frame_width + x]
                == (x as u32, y as u32),
{
    let mut coords: Vec<(u32, u32)> = Vec::new();
    let mut y: u32 = 0;
    while y < frame_height
        invariant
            y <= frame_height,
            coords.len() == y * frame_width,
            forall|i: int, j: int|
                0 <= i < frame_width && 0 <= j < y ==> #[trigger] coords[j * frame_width + i] == (
                    i as u32,
                    j as u32,
                ),
        decreases frame_height - y,
    {
        let mut x: u32 = 0;
        while x < frame_width
            invariant
                y < frame_height,
                x <= frame_width,
                coords.len() == y * frame_width + x,
                forall|i: int, j: int|
                    0 <= i < frame_width && 0 <= j < y ==> #[trigger] coords[j * frame_width + i]
                        == (i as u32, j as u32),
                forall|i: int| 0 <= i < x ==> #[trigger] coords[y * frame_width + i] == (i as u32, y),
            decreases frame_width - x,
        {
            let ghost before = coords@;
            coords.push((x, y));
            assert forall|i: int, j: int| 0 <= i < frame_width && 0 <= j < y implies #[trigger] coords[j
                * frame_width + i] == (i as u32, j as u32) by {
                assert(j * frame_width + i < y * frame_width) by (nonlinear_arith)
                    requires
                        0 <= i < frame_width,
                        0 <= j < y,
                ;
                assert(before[j * frame_width + i] == (i as u32, j as u32));
            }
            assert forall|i: int| 0 <= i < x + 1 implies #[trigger] coords[y * frame_width + i] == (
                i as u32,
                y,
            ) by {
                if i < x {
                    assert(before[y * frame_width + i] == (i as u32, y));
                }
            }
            x += 1;
        }
        assert((y + 1) * frame_width == y * frame_width + frame_width) by (nonlinear_arith);
        y += 1;
    }
    assert(frame_height * frame_width == frame_width * frame_height) by (nonlinear_arith);
    coords
}

/// rayon's `par_iter`, `map` and `collect` over the places of the pixels.
/// The contract states that one pixel comes back for each place, in the
/// order of the places, and that each is what `sample_pixel` can return for
/// its place.
#[verifier::external_body]
fn par_pixels<
    S: Fn(u32, u32) -> Color + Sync,
    A: Fn(Color, Color) -> Color + Sync,
    M: Fn(Color, usize) -> Color + Sync,
>(
    coords: &Vec<(u32, u32)>,
    frame_height: u32,
    n_msaa: usize,
    sample: &S,
    accumulate: &A,
    mean: &M,
) -> (pixels: Vec<(u32, u32, Color)>)
    requires
        forall|i: int| 0 <= i < coords.len() ==> (#[trigger] coords[i]).1 <= frame_height,
        forall|x: u32, v: u32| call_requires(*sample, (x, v)),
        forall|a: Color, b: Color| call_requires(*accumulate, (a, b)),
        forall|a: Color, n: usize| call_requires(*mean, (a, n)),
    ensures
        pixels.len() == coords.len(),
        forall|i: int|
            0 <= i < coords.len() ==> pixel_outcome(
                coords[i].0,
                coords[i].1,
                frame_height,
                n_msaa,
                outcomes_of(*sample),
                *accumulate,
                *mean,
                #[trigger] pixels[i],
            ),
{
    coords.par_iter().map(|&(x, y)| sample_pixel(x, y, frame_height, n_msaa, sample, accumulate, mean)).collect()
}

/// `rgba` is what the pixel in column `x` and row `y` can be painted with,
/// for some outcome of the calls made.
pub open spec fn painted<
    A: Fn(Color, Color) -> Color,
    M: Fn(Color, usize) -> Color,
    E: Fn(Scalar) -> Scalar,
>(
    x: u32,
    y: u32,
    frame_height: u32,
    n_msaa: usize,
    sample: spec_fn(u32, u32, Color) -> bool,
    accumulate: A,
    mean: M,
    encode: E,
    rgba: Seq<u8>,
) -> bool {
    exists|pixel: (u32, u32, Color), bytes: [u8; 4]|
        #![trigger pixel.2.rgba_outcome(encode, bytes)]
        {
            &&& pixel_outcome(x, y, frame_height, n_msaa, sample, accumulate, mean, pixel)
            &&& pixel.2.rgba_outcome(encode, bytes)
            &&& rgba == bytes@
        }
}

/// A frame of `frame_width` by `frame_height` pixels, each the mean of
/// `n_msaa` samples, encoded to bytes. The pixels are worked out in parallel.
pub fn render_frame<
    S: Fn(u32, u32) -> Color + Sync,
    A: Fn(Color, Color) -> Color + Sync,
    M: Fn(Color, usize) -> Color + Sync,
    E: Fn(Scalar) -> Scalar,
>(
    frame_width: u32,
    frame_height: u32,
    n_msaa: usize,
    sample: &S,
    accumulate: &A,
    mean: &M,
    encode: &E,
) -> (result: Result<Frame, RenderError>)
    requires
        frame_width * frame_height <= u32::MAX,
        4 * frame_width * frame_height <= isize::MAX,
        forall|x: u32, v: u32| call_requires(*sample, (x, v)),
        forall|a: Color, b: Color| call_requires(*accumulate, (a, b)),
        forall|a: Color, n: usize| call_requires(*mean, (a, n)),
        forall|c: Scalar| call_requires(*encode, (c,)),
    ensures
        result.is_ok(),
        result.unwrap().is_sized(frame_width, frame_height),
        forall|x: int, y: int|
            0 <= x < frame_width && 0 <= y < frame_height ==> painted(
                x as u32,
                y as u32,
                frame_height,
                n_msaa,
                outcomes_of(*sample),
                *accumulate,
                *mean,
                *encode,
                #[trigger] frame_rows(result.unwrap())[y][x],
            ),
{
    let mut imgbuf = Frame::new(frame_width, frame_height).unwrap();
    let coords = frame_coords(frame_width, frame_height);
    assert forall|i: int| 0 <= i < coords.len() implies (#[trigger] coords[i]).1 <= frame_height by {
        lemma_place_of(i, frame_width as int, frame_height as int);
        let y = i / (frame_width as int);
        let x = i % (frame_width as int);
        assert(coords[y * frame_width + x] == (x as u32, y as u32));
    }
    let pixels = par_pixels(&coords, frame_height, n_msaa, sample, accumulate, mean);
    let mut k: usize = 0;
    while k < pixels.len()
        invariant
            k <= pixels.len(),
            pixels.len() == coords.len(),
            coords.len() == frame_width * frame_height,
            frame_width * frame_height <= u32::MAX,
            imgbuf.is_sized(frame_width, frame_height),
            forall|c: Scalar| call_requires(*encode, (c,)),
            forall|x: int, y: int|
                0 <= x < frame_width && 0 <= y < frame_height ==> #[trigger] coords[y * frame_width
                    + x] == (x as u32, y as u32),
            forall|i: int|
                0 <= i < coords.len() ==> pixel_outcome(
                    coords[i].0,
                    coords[i].1,
                    frame_height,
                    n_msaa,
                    outcomes_of(*sample),
                    *accumulate,
                    *mean,
                    #[trigger] pixels[i],
                ),
            forall|x: int, y: int|
                0 <= x < frame_width && 0 <= y < frame_height && y * frame_width + x < k ==> painted(
                    x as u32,
                    y as u32,
                    frame_height,
                    n_msaa,
                    outcomes_of(*sample),
                    *accumulate,
                    *mean,
                    *encode,
                    #[trigger] frame_rows(imgbuf)[y][x],
                ),
        decreases pixels.len() - k,
    {
        let (x, y, col) = pixels[k];
        let bytes = col.to_rgba(encode);
        proof {
            lemma_place_of(k as int, frame_width as int, frame_height as int);
            let row = k as int / (frame_width as int);
            let column = k as int % (frame_width as int);
            assert(coords[row * frame_width + column] == (column as u32, row as u32));
            assert(x == column && y == row);
        }
        let ghost before = frame_rows(imgbuf);
        imgbuf.put_pixel(x, y, bytes);
        assert(imgbuf.is_sized(frame_width, frame_height)) by {
            assert forall|j: int| 0 <= j < frame_height implies (#[trigger] frame_rows(imgbuf)[j]).len()
                == frame_width by {
                assert(before[j].len() == frame_width);
            }
        }
        assert forall|i: int, j: int|
            0 <= i < frame_width && 0 <= j < frame_height && j * frame_width + i < k + 1 implies painted(
            i as u32,
            j as u32,
            frame_height,
            n_msaa,
            outcomes_of(*sample),
            *accumulate,
            *mean,
            *encode,
            #[trigger] frame_rows(imgbuf)[j][i],
        ) by {
            if j * frame_width + i == k {
                lemma_place_is_unique(i, j, x as int, y as int, frame_width as int);
                assert(frame_rows(imgbuf)[j][i] == bytes@);
                assert(pixels[k as int].2.rgba_outcome(*encode, bytes));
            } else {
                if i == x && j == y {
                    assert(false);
                }
                assert(frame_rows(imgbuf)[j][i] == before[j][i]);
            }
        }
        k += 1;
    }
    assert forall|x: int, y: int| 0 <= x < frame_width && 0 <= y < frame_height implies painted(
        x as u32,
        y as u32,
        frame_height,
        n_msaa,
        outcomes_of(*sample),
        *accumulate,
        *mean,
        *encode,
        #[trigger] frame_rows(imgbuf)[y][x],
    ) by {
        assert(y * frame_width + x < frame_width * frame_height) by (nonlinear_arith)
            requires
                0 <= x < frame_width,
                0 <= y < frame_height,
        ;
    }
    Ok(imgbuf)
}

/// Samples that come from a narrower relation give sums, pixels and bytes
/// that the wider relation gives too.
pub proof fn lemma_gathered_widens<A: Fn(Color, Color) -> Color>(
    x: u32,
    flipped_y: u32,
    k: nat,
    narrow: spec_fn(u32, u32, Color) -> bool,
    wide: spec_fn(u32, u32, Color) -> bool,
    accumulate: A,
    acc: Color,
)
    requires
        forall|x: u32, v: u32, c: Color| #[trigger] narrow(x, v, c) ==> wide(x, v, c),
        gathered(x, flipped_y, k, narrow, accumulate, acc),
    ensures
        gathered(x, flipped_y, k, wide, accumulate, acc),
    decreases k,
{
    if k > 0 {
        let (before, light) = choose|before: Color, light: Color|
            {
                &&& gathered(x, flipped_y, (k - 1) as nat, narrow, accumulate, before)
                &&& narrow(x, flipped_y, light)
                &&& #[trigger] call_ensures(accumulate, (before, light), acc)
            };
        lemma_gathered_widens(x, flipped_y, (k - 1) as nat, narrow, wide, accumulate, before);
    }
}

/// What a call of `shoot` can return, as a relation.
pub open spec fn shots_of<F: Fn(u32, u32) -> Ray>(shoot: F) -> spec_fn(u32, u32, Ray) -> bool {
    |x: u32, v: u32, ray: Ray| call_ensures(shoot, (x, v), ray)
}

/// The light through a point of the frame: a ray is shot through it, and
/// the light along the ray is gathered with `max_depth` bounces.
pub open spec fn traced<
    H: Hitable,
    T: Fn(&Ray, Scalar, usize) -> Scalar,
    R: Fn(&Ray, &HitRecord) -> Response,
    B: Fn(Color, Color, Color) -> Color,
>(
    shape: Shape,
    prims: Seq<H>,
    sky: spec_fn(Ray, Color) -> bool,
    max_depth: usize,
    shot: spec_fn(u32, u32, Ray) -> bool,
    travel: T,
    respond: R,
    blend: B,
) -> spec_fn(u32, u32, Color) -> bool {
    |x: u32, v: u32, c: Color|
        exists|ray: Ray|
            #![trigger shot(x, v, ray)]
            shot(x, v, ray) && radiance(
                shape,
                prims,
                sky,
                ray,
                max_depth as nat,
                travel,
                respond,
                blend,
                c,
            )
}

/// A picture of the scene, of `frame_width` by `frame_height` pixels, each
/// the mean of `n_msaa` samples of the light along a ray, gathered with
/// `max_depth` bounces, and encoded to four bytes with an opaque alpha.
///
/// `shoot(x, v)` is a ray from the camera through a point chosen at random in
/// the pixel in column `x` of the row `v` from below; `travel`, `respond` and
/// `blend` are those of [`color`]; `accumulate(a, b)` is `a + b`;
/// `mean(a, n)` is `a / n`; `encode(c)` is `c` to the power of 1 / 2.2,
/// times 255.
pub fn render_montecarlo<
    'a,
    H: Hitable + Sync,
    F: Fn(u32, u32) -> Ray + Sync,
    T: Fn(&Ray, Scalar, usize) -> Scalar + Sync,
    R: Fn(&Ray, &HitRecord) -> Response + Sync,
    B: Fn(Color, Color, Color) -> Color + Sync,
    A: Fn(Color, Color) -> Color + Sync,
    M: Fn(Color, usize) -> Color + Sync,
    E: Fn(Scalar) -> Scalar,
>(
    frame_width: u32,
    frame_height: u32,
    max_depth: usize,
    n_msaa: usize,
    _current_frame: u32,
    _tot_frames: u32,
    scene: &Scene<'a, H>,
    shoot: &F,
    travel: &T,
    respond: &R,
    blend: &B,
    accumulate: &A,
    mean: &M,
    encode: &E,
) -> (result: Result<Frame, RenderError>)
    requires
        frame_width * frame_height <= u32::MAX,
        4 * frame_width * frame_height <= isize::MAX,
        forall|x: u32, v: u32| call_requires(*shoot, (x, v)),
        forall|r: &Ray, c: Scalar, a: usize| a < 3 ==> call_requires(*travel, (r, c, a)),
        forall|r: &Ray, h: &HitRecord| call_requires(*respond, (r, h)),
        forall|e: Color, c: Color, l: Color| call_requires(*blend, (e, c, l)),
        forall|a: Color, b: Color| call_requires(*accumulate, (a, b)),
        forall|a: Color, n: usize| call_requires(*mean, (a, n)),
        forall|c: Scalar| call_requires(*encode, (c,)),
    ensures
        result.is_ok(),
        result.unwrap().is_sized(frame_width, frame_height),
        forall|x: int, y: int|
            0 <= x < frame_width && 0 <= y < frame_height ==> painted(
                x as u32,
                y as u32,
                frame_height,
                n_msaa,
                traced(
                    scene.bvh@,
                    scene.bvh.prims(),
                    flat_sky(scene.background),
                    max_depth,
                    shots_of(*shoot),
                    *travel,
                    *respond,
                    *blend,
                ),
                *accumulate,
                *mean,
                *encode,
                #[trigger] frame_rows(result.unwrap())[y][x],
            ),
{
    let ghost wide = traced(
        scene.bvh@,
        scene.bvh.prims(),
        flat_sky(scene.background),
        max_depth,
        shots_of(*shoot),
        *travel,
        *respond,
        *blend,
    );
    let ghost shot = shots_of(*shoot);
    let sample = |x: u32, v: u32| -> (c: Color)
        ensures
            wide(x, v, c),
        {
            let ray = shoot(x, v);
            assert(shot(x, v, ray));
            color(&ray, scene, max_depth, max_depth, travel, respond, blend)
        };
    let result = render_frame(frame_width, frame_height, n_msaa, &sample, accumulate, mean, encode);
    proof {
        lemma_frame_widens(
            frame_rows(result.unwrap()),
            frame_width,
            frame_height,
            n_msaa,
            outcomes_of(sample),
            wide,
            *accumulate,
            *mean,
            *encode,
        );
    }
    result
}

/// Samples that come from a narrower relation give bytes that the wider
/// relation gives too.
pub proof fn lemma_painted_widens<
    A: Fn(Color, Color) -> Color,
    M: Fn(Color, usize) -> Color,
    E: Fn(Scalar) -> Scalar,
>(
    x: u32,
    y: u32,
    frame_height: u32,
    n_msaa: usize,
    narrow: spec_fn(u32, u32, Color) -> bool,
    wide: spec_fn(u32, u32, Color) -> bool,
    accumulate: A,
    mean: M,
    encode: E,
    rgba: Seq<u8>,
)
    requires
        forall|x: u32, v: u32, c: Color| #[trigger] narrow(x, v, c) ==> wide(x, v, c),
        painted(x, y, frame_height, n_msaa, narrow, accumulate, mean, encode, rgba),
    ensures
        painted(x, y, frame_height, n_msaa, wide, accumulate, mean, encode, rgba),
{
    let (pixel, bytes) = choose|pixel: (u32, u32, Color), bytes: [u8; 4]|
        {
            &&& pixel_outcome(x, y, frame_height, n_msaa, narrow, accumulate, mean, pixel)
            &&& #[trigger] pixel.2.rgba_outcome(encode, bytes)
            &&& rgba == bytes@
        };
    let total = choose|total: Color|
        {
            &&& gathered(x, (frame_height - y) as u32, n_msaa as nat, narrow, accumulate, total)
            &&& #[trigger] call_ensures(mean, (total, n_msaa), pixel.2)
        };
    lemma_gathered_widens(
        x,
        (frame_height - y) as u32,
        n_msaa as nat,
        narrow,
        wide,
        accumulate,
        total,
    );
    assert(pixel_outcome(x, y, frame_height, n_msaa, wide, accumulate, mean, pixel));
}

/// Where every pixel of a frame is painted from samples of a narrower
/// relation, every pixel is painted from samples of the wider one.
pub proof fn lemma_frame_widens<
    A: Fn(Color, Color) -> Color,
    M: Fn(Color, usize) -> Color,
    E: Fn(Scalar) -> Scalar,
>(
    rows: Seq<Seq<Seq<u8>>>,
    frame_width: u32,
    frame_height: u32,
    n_msaa: usize,
    narrow: spec_fn(u32, u32, Color) -> bool,
    wide: spec_fn(u32, u32, Color) -> bool,
    accumulate: A,
    mean: M,
    encode: E,
)
    requires
        forall|x: u32, v: u32, c: Color| #[trigger] narrow(x, v, c) ==> wide(x, v, c),
        forall|x: int, y: int|
            0 <= x < frame_width && 0 <= y < frame_height ==> painted(
                x as u32,
                y as u32,
                frame_height,
                n_msaa,
                narrow,
                accumulate,
                mean,
                encode,
                #[trigger] rows[y][x],
            ),
    ensures
        forall|x: int, y: int|
            0 <= x < frame_width && 0 <= y < frame_height ==> painted(
                x as u32,
                y as u32,
                frame_height,
                n_msaa,
                wide,
                accumulate,
                mean,
                encode,
                #[trigger] rows[y][x],
            ),
{
    assert forall|x: int, y: int| 0 <= x < frame_width && 0 <= y < frame_height implies painted(
        x as u32,
        y as u32,
        frame_height,
        n_msaa,
        wide,
        accumulate,
        mean,
        encode,
        #[trigger] rows[y][x],
    ) by {
        lemma_painted_widens(
            x as u32,
            y as u32,
            frame_height,
            n_msaa,
            narrow,
            wide,
            accumulate,
            mean,
            encode,
            rows[y][x],
        );
    }
}

/// The place `i` in a frame counted row by row lies in row `i / width` and
/// column `i % width`.
proof fn lemma_place_of(i: int, width: int, height: int)
    requires
        0 <= i < width * height,
        0 <= width,
        0 <= height,
    ensures
        width > 0,
        0 <= i % width < width,
        0 <= i / width < height,
        (i / width) * width + i % width == i,
{
    assert(width > 0) by (nonlinear_arith)
        requires
            0 <= i < width * height,
            0 <= width,
    ;
    vstd::arithmetic::div_mod::lemma_fundamental_div_mod(i, width);
    vstd::arithmetic::div_mod::lemma_mod_bound(i, width);
    assert(0 <= i / width < height) by (nonlinear_arith)
        requires
            0 <= i < width * height,
            width > 0,
            i == width * (i / width) + i % width,
            0 <= i % width < width,
    ;
    assert((i / width) * width == width * (i / width)) by (nonlinear_arith);
}

/// Two places in one frame that count the same are the same.
proof fn lemma_place_is_unique(x1: int, y1: int, x2: int, y2: int, width: int)
    requires
        0 <= x1 < width,
        0 <= x2 < width,
        0 <= y1,
        0 <= y2,
        y1 * width + x1 == y2 * width + x2,
    ensures
        x1 == x2,
        y1 == y2,
{
    assert(y1 == y2) by (nonlinear_arith)
        requires
            0 <= x1 < width,
            0 <= x2 < width,
            0 <= y1,
            0 <= y2,
            y1 * width + x1 == y2 * width + x2,
    ;
}

} // verus!
