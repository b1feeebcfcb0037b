//! What comes out of the integrator and of a render in some plain cases:
//! without depth, without scatter, with one bounce, with one sample.

use vstd::prelude::*;
use crate::bvh::Shape;
use crate::color::{lemma_clamped_is_in_unit, Color};
use crate::hitable::{HitRecord, Hitable};
use crate::ray::Ray;
use crate::renderer::{
    gathered, lemma_light_without_scatter, painted, pixel_outcome, radiance, traced, Response, NEAR_BITS,
};
use crate::scalar::{Scalar, MAX_BITS, ONE_BITS};

verus! {

/// A sum that starts from black has the value of what is added.
pub open spec fn sums_from_black<A: Fn(Color, Color) -> Color>(accumulate: A) -> bool {
    forall|a: Color, c: Color, out: Color| #[trigger]
        call_ensures(accumulate, (a, c), out) && a.is_black() && c.is_number() ==> out.same(c)
}

/// The mean of one colour has the value of that colour.
pub open spec fn mean_of_one<M: Fn(Color, usize) -> Color>(mean: M) -> bool {
    forall|c: Color, out: Color| #[trigger]
        call_ensures(mean, (c, 1usize), out) && c.is_number() ==> out.same(c)
}

/// `encode` has an answer for the channel.
pub open spec fn encodes<E: Fn(Scalar) -> Scalar>(encode: E, c: Scalar) -> bool {
    exists|e: Scalar| #[trigger] call_ensures(encode, (c,), e)
}

/// `encode` answers for every channel, and for two channels of equal value
/// its answers give the same byte.
pub open spec fn encodes_by_value<E: Fn(Scalar) -> Scalar>(encode: E) -> bool {
    &&& forall|c: Scalar| #[trigger] encodes(encode, c)
    &&& forall|a: Scalar, b: Scalar, ea: Scalar, eb: Scalar|
        #![trigger call_ensures(encode, (a,), ea), call_ensures(encode, (b,), eb)]
        a.same(b) && call_ensures(encode, (a,), ea) && call_ensures(encode, (b,), eb) ==> ea.byte_of()
            == eb.byte_of()
}

/// The light along a ray is a colour of numbers: white, or clamped.
pub proof fn lemma_light_is_a_number<
    H: Hitable,
    T: Fn(&Ray, Scalar, usize) -> Scalar,
    R: Fn(&Ray, &HitRecord) -> Response,
    B: Fn(Color, Color, Color) -> Color,
>(
    shape: Shape,
    prims: Seq<H>,
    sky: spec_fn(Ray, Color) -> bool,
    ray: Ray,
    depth: nat,
    travel: T,
    respond: R,
    blend: B,
    out: Color,
)
    requires
        radiance(shape, prims, sky, ray, depth, travel, respond, blend, out),
    ensures
        out.is_number(),
{
    assert forall|c: Color| (#[trigger] c.clamped()).is_number() by {
        lemma_clamped_is_in_unit(c);
    }
}

/// A ray that hits a surface which scatters, and whose scattered ray hits
/// nothing, brings the sky along the scattered ray, not along itself: the
/// light is `blend` of what the surface emits, its colour and the clamped
/// sky along the ray that leaves, clamped.
pub proof fn lemma_one_bounce_sees_the_sky<
    H: Hitable,
    T: Fn(&Ray, Scalar, usize) -> Scalar,
    R: Fn(&Ray, &HitRecord) -> Response,
    B: Fn(Color, Color, Color) -> Color,
>(
    shape: Shape,
    prims: Seq<H>,
    sky: spec_fn(Ray, Color) -> bool,
    ray: Ray,
    depth: nat,
    travel: T,
    respond: R,
    blend: B,
    out: Color,
)
    requires
        depth >= 2,
        radiance(shape, prims, sky, ray, depth, travel, respond, blend, out),
        forall|h: Option<HitRecord>| #[trigger]
            shape.hit_outcome(prims, ray, travel, Scalar { bits: NEAR_BITS }, Scalar { bits: MAX_BITS }, h)
                ==> h.is_some(),
        forall|h: HitRecord, answer: Response| #[trigger]
            call_ensures(respond, (&ray, &h), answer) ==> answer.scattered.is_some()
                && answer.scattered.unwrap().ray.is_some(),
        forall|h: HitRecord, answer: Response, beyond: Option<HitRecord>|
            #![trigger
                call_ensures(respond, (&ray, &h), answer),
                shape.hit_outcome(
                    prims,
                    answer.scattered.unwrap().ray.unwrap(),
                    travel,
                    Scalar { bits: NEAR_BITS },
                    Scalar { bits: MAX_BITS },
                    beyond,
                )]
            call_ensures(respond, (&ray, &h), answer) && shape.hit_outcome(
                prims,
                answer.scattered.unwrap().ray.unwrap(),
                travel,
                Scalar { bits: NEAR_BITS },
                Scalar { bits: MAX_BITS },
                beyond,
            ) ==> beyond.is_none(),
    ensures
        exists|h: HitRecord, answer: Response, seen: Color, mixed: Color|
            #![trigger
                call_ensures(respond, (&ray, &h), answer),
                call_ensures(blend, (answer.emitted, answer.scattered.unwrap().color, seen.clamped()), mixed)]
            {
                &&& call_ensures(respond, (&ray, &h), answer)
                &&& sky(answer.scattered.unwrap().ray.unwrap(), seen)
                &&& call_ensures(
                    blend,
                    (answer.emitted, answer.scattered.unwrap().color, seen.clamped()),
                    mixed,
                )
                &&& out == mixed.clamped()
            },
{
    reveal_with_fuel(radiance, 2);
}

/// With one sample to the pixel, the bytes of a pixel are the encoding of
/// that sample, where the sum, the mean and the encoding go by value and
/// the samples are colours of numbers.
pub proof fn lemma_one_sample_is_encoded<
    A: Fn(Color, Color) -> Color,
    M: Fn(Color, usize) -> Color,
    E: Fn(Scalar) -> Scalar,
>(
    x: u32,
    y: u32,
    frame_height: u32,
    sample: spec_fn(u32, u32, Color) -> bool,
    accumulate: A,
    mean: M,
    encode: E,
    rgba: Seq<u8>,
)
    requires
        sums_from_black(accumulate),
        mean_of_one(mean),
        encodes_by_value(encode),
        forall|x: u32, v: u32, c: Color| #[trigger] sample(x, v, c) ==> c.is_number(),
        painted(x, y, frame_height, 1, sample, accumulate, mean, encode, rgba),
    ensures
        exists|light: Color| #[trigger]
            sample(x, (frame_height - y) as u32, light) && light.encoded_as(encode, rgba),
{
    reveal_with_fuel(gathered, 2);
    let row = (frame_height - y) as u32;
    let (pixel, bytes) = choose|pixel: (u32, u32, Color), bytes: [u8; 4]|
        {
            &&& pixel_outcome(x, y, frame_height, 1, sample, accumulate, mean, pixel)
            &&& #[trigger] pixel.2.rgba_outcome(encode, bytes)
            &&& rgba == bytes@
        };
    let total = choose|total: Color|
        {
            &&& gathered(x, row, 1, sample, accumulate, total)
            &&& #[trigger] call_ensures(mean, (total, 1usize), pixel.2)
        };
    let (before, light) = choose|before: Color, light: Color|
        {
            &&& gathered(x, row, 0, sample, accumulate, before)
            &&& sample(x, row, light)
            &&& #[trigger] call_ensures(accumulate, (before, light), total)
        };
    assert(light.is_number());
    assert(total.same(light));
    assert(pixel.2.same(light));
    let (r, g, b) = choose|r: Scalar, g: Scalar, b: Scalar|
        #![trigger
            call_ensures(encode, (pixel.2.red,), r),
            call_ensures(encode, (pixel.2.green,), g),
            call_ensures(encode, (pixel.2.blue,), b)]
        {
            &&& call_ensures(encode, (pixel.2.red,), r)
            &&& call_ensures(encode, (pixel.2.green,), g)
            &&& call_ensures(encode, (pixel.2.blue,), b)
            &&& rgba == seq![r.byte_of() as u8, g.byte_of() as u8, b.byte_of() as u8, 255u8]
        };
    assert(encodes(encode, light.red));
    assert(encodes(encode, light.green));
    assert(encodes(encode, light.blue));
    let lr = choose|e: Scalar| #[trigger] call_ensures(encode, (light.red,), e);
    let lg = choose|e: Scalar| #[trigger] call_ensures(encode, (light.green,), e);
    let lb = choose|e: Scalar| #[trigger] call_ensures(encode, (light.blue,), e);
    assert(lr.byte_of() == r.byte_of());
    assert(lg.byte_of() == g.byte_of());
    assert(lb.byte_of() == b.byte_of());
    assert(light.encoded_as(encode, rgba));
}

/// With no bounce allowed and one sample to the pixel, every pixel is four
/// bytes of 255, whatever the scene and the rays, where the sum, the mean and
/// the encoding go by value and 1 is encoded as 255.
pub proof fn lemma_no_depth_paints_white<
    H: Hitable,
    T: Fn(&Ray, Scalar, usize) -> Scalar,
    R: Fn(&Ray, &HitRecord) -> Response,
    B: Fn(Color, Color, Color) -> Color,
    A: Fn(Color, Color) -> Color,
    M: Fn(Color, usize) -> Color,
    E: Fn(Scalar) -> Scalar,
>(
    x: u32,
    y: u32,
    frame_height: u32,
    shape: Shape,
    prims: Seq<H>,
    sky: spec_fn(Ray, Color) -> bool,
    shot: spec_fn(u32, u32, Ray) -> bool,
    travel: T,
    respond: R,
    blend: B,
    accumulate: A,
    mean: M,
    encode: E,
    rgba: Seq<u8>,
)
    requires
        sums_from_black(accumulate),
        mean_of_one(mean),
        encodes_by_value(encode),
        forall|e: Scalar| #[trigger]
            call_ensures(encode, (Scalar { bits: ONE_BITS },), e) ==> e.byte_of() == 255,
        painted(
            x,
            y,
            frame_height,
            1,
            traced(shape, prims, sky, 0, shot, travel, respond, blend),
            accumulate,
            mean,
            encode,
            rgba,
        ),
    ensures
        rgba == seq![255u8, 255u8, 255u8, 255u8],
{
    let sample = traced(shape, prims, sky, 0, shot, travel, respond, blend);
    assert forall|x: u32, v: u32, c: Color| #[trigger] sample(x, v, c) implies c.is_number() by {
        let ray = choose|ray: Ray| #[trigger]
            shot(x, v, ray) && radiance(shape, prims, sky, ray, 0, travel, respond, blend, c);
        lemma_light_is_a_number(shape, prims, sky, ray, 0, travel, respond, blend, c);
    }
    lemma_one_sample_is_encoded(x, y, frame_height, sample, accumulate, mean, encode, rgba);
    let row = (frame_height - y) as u32;
    let light = choose|light: Color| #[trigger] sample(x, row, light) && light.encoded_as(encode, rgba);
    assert(light.is_white());
    assert(light.red == Scalar { bits: ONE_BITS });
    assert(light.green == Scalar { bits: ONE_BITS });
    assert(light.blue == Scalar { bits: ONE_BITS });
}

/// In a scene whose surfaces scatter nothing, with one sample to the pixel,
/// every pixel is the encoding of a colour of the sky along its ray or of
/// what one surface emits to its ray, clamped: nothing is blended.
pub proof fn lemma_lights_paint_themselves<
    H: Hitable,
    T: Fn(&Ray, Scalar, usize) -> Scalar,
    R: Fn(&Ray, &HitRecord) -> Response,
    B: Fn(Color, Color, Color) -> Color,
    A: Fn(Color, Color) -> Color,
    M: Fn(Color, usize) -> Color,
    E: Fn(Scalar) -> Scalar,
>(
    x: u32,
    y: u32,
    frame_height: u32,
    max_depth: usize,
    shape: Shape,
    prims: Seq<H>,
    sky: spec_fn(Ray, Color) -> bool,
    shot: spec_fn(u32, u32, Ray) -> bool,
    travel: T,
    respond: R,
    blend: B,
    accumulate: A,
    mean: M,
    encode: E,
    rgba: Seq<u8>,
)
    requires
        max_depth >= 1,
        sums_from_black(accumulate),
        mean_of_one(mean),
        encodes_by_value(encode),
        forall|r: Ray, h: HitRecord, answer: Response| #[trigger]
            call_ensures(respond, (&r, &h), answer) ==> answer.scattered.is_none(),
        painted(
            x,
            y,
            frame_height,
            1,
            traced(shape, prims, sky, max_depth, shot, travel, respond, blend),
            accumulate,
            mean,
            encode,
            rgba,
        ),
    ensures
        (exists|ray: Ray, beyond: Color| #[trigger]
            sky(ray, beyond) && shot(x, (frame_height - y) as u32, ray) && beyond.clamped().encoded_as(
                encode,
                rgba,
            )) || (exists|ray: Ray, h: HitRecord, answer: Response| #[trigger]
            call_ensures(respond, (&ray, &h), answer) && shot(x, (frame_height - y) as u32, ray)
                && answer.emitted.clamped().encoded_as(encode, rgba)),
{
    let sample = traced(shape, prims, sky, max_depth, shot, travel, respond, blend);
    assert forall|x: u32, v: u32, c: Color| #[trigger] sample(x, v, c) implies c.is_number() by {
        let ray = choose|ray: Ray| #[trigger]
            shot(x, v, ray) && radiance(shape, prims, sky, ray, max_depth as nat, travel, respond, blend, c);
        lemma_light_is_a_number(shape, prims, sky, ray, max_depth as nat, travel, respond, blend, c);
    }
    lemma_one_sample_is_encoded(x, y, frame_height, sample, accumulate, mean, encode, rgba);
    let row = (frame_height - y) as u32;
    let light = choose|light: Color| #[trigger] sample(x, row, light) && light.encoded_as(encode, rgba);
    let ray = choose|ray: Ray| #[trigger]
        shot(x, row, ray) && radiance(shape, prims, sky, ray, max_depth as nat, travel, respond, blend, light);
    lemma_light_without_scatter(shape, prims, sky, ray, max_depth as nat, travel, respond, blend, light);
}

} // verus!
