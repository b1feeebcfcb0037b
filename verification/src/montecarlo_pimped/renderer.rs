use vstd::prelude::*;
use crate::camera_effects::CameraEffects;
use crate::color::Color;
use crate::frame::{frame_rows, Frame};
use crate::hitable::{HitRecord, Hitable};
use crate::ray::Ray;
use crate::render_error::RenderError;
use crate::renderer::{
    lemma_frame_widens, outcomes_of, painted, radiance, render_frame, sky_of, trace, traced, Response,
};
use crate::scalar::Scalar;
use crate::scene::Scene;

verus! {

/// What `get_camera_ray` can return, as a relation: a ray of `plain` without
/// effects, a ray of `distorted` with the distorter.
pub open spec fn camera_shots<P: Fn(u32, u32) -> Ray, D: Fn(u32, u32) -> Ray>(
    camera_effects: CameraEffects,
    plain: P,
    distorted: D,
) -> spec_fn(u32, u32, Ray) -> bool {
    |x: u32, v: u32, ray: Ray|
        match camera_effects {
            CameraEffects::NoEffects => call_ensures(plain, (x, v), ray),
            CameraEffects::Distorter => call_ensures(distorted, (x, v), ray),
        }
}

/// A ray from the camera through a point of the pixel in column `x` of the
/// row `v` from below, bent by noise where the effects ask for it.
pub fn get_camera_ray<P: Fn(u32, u32) -> Ray, D: Fn(u32, u32) -> Ray>(
    x: u32,
    v: u32,
    camera_effects: &CameraEffects,
    plain: &P,
    distorted: &D,
) -> (ray: Ray)
    requires
        forall|x: u32, v: u32| call_requires(*plain, (x, v)),
        forall|x: u32, v: u32| call_requires(*distorted, (x, v)),
    ensures
        camera_shots(*camera_effects, *plain, *distorted)(x, v, ray),
{
    match camera_effects {
        CameraEffects::NoEffects => plain(x, v),
        CameraEffects::Distorter => distorted(x, v),
    }
}

/// The light that comes along `ray` with `depth` bounces left, under the
/// graded sky of the stylised variant.
///
/// `travel`, `respond` and `blend` are those of [`crate::renderer::color`],
/// with the stylised scatter in `respond`; `sky(r)` is the background graded
/// by the height of `r`.
pub fn colora<
    'a,
    H: Hitable,
    T: Fn(&Ray, Scalar, usize) -> Scalar,
    R: Fn(&Ray, &HitRecord) -> Response,
    B: Fn(Color, Color, Color) -> Color,
    S: Fn(&Ray) -> Color,
>(
    ray: &Ray,
    scene: &Scene<'a, H>,
    max_depth: usize,
    depth: usize,
    travel: &T,
    respond: &R,
    blend: &B,
    sky: &S,
) -> (out: Color)
    requires
        forall|r: &Ray, c: Scalar, a: usize| a < 3 ==> call_requires(*travel, (r, c, a)),
        forall|r: &Ray, h: &HitRecord| call_requires(*respond, (r, h)),
        forall|e: Color, c: Color, l: Color| call_requires(*blend, (e, c, l)),
        forall|r: &Ray| call_requires(*sky, (r,)),
    ensures
        radiance(
            scene.bvh@,
            scene.bvh.prims(),
            sky_of(*sky),
            *ray,
            depth as nat,
            *travel,
            *respond,
            *blend,
            out,
        ),
        depth == 0 ==> out.is_white(),
{
    trace(ray, &scene.bvh, depth, travel, respond, blend, sky)
}

/// A picture of the scene in the stylised variant, of `frame_width` by
/// `frame_height` pixels, each the mean of `n_msaa` samples of the light
/// along a camera ray, gathered with `max_depth` bounces under the graded
/// sky, and encoded to four bytes with an opaque alpha.
///
/// `plain` and `distorted` are the two ways to shoot a ray, of which
/// `camera_effects` picks one; the others are those of
/// [`crate::renderer::render_montecarlo`] and of [`colora`].
pub fn render_montecarlo_pimped<
    'a,
    H: Hitable + Sync,
    P: Fn(u32, u32) -> Ray + Sync,
    D: Fn(u32, u32) -> Ray + Sync,
    T: Fn(&Ray, Scalar, usize) -> Scalar + Sync,
    R: Fn(&Ray, &HitRecord) -> Response + Sync,
    B: Fn(Color, Color, Color) -> Color + Sync,
    S: Fn(&Ray) -> Color + Sync,
    A: Fn(Color, Color) -> Color + Sync,
    M: Fn(Color, usize) -> Color + Sync,
    E: Fn(Scalar) -> Scalar,
>(
    frame_width: u32,
    frame_height: u32,
    max_depth: usize,
    n_msaa: usize,
    _current_frame: u32,
    _tot_frames: u32,
    camera_effects: &CameraEffects,
    scene: &Scene<'a, H>,
    plain: &P,
    distorted: &D,
    travel: &T,
    respond: &R,
    blend: &B,
    sky: &S,
    accumulate: &A,
    mean: &M,
    encode: &E,
) -> (result: Result<Frame, RenderError>)
    requires
        frame_width * frame_height <= u32::MAX,
        4 * frame_width * frame_height <= isize::MAX,
        forall|x: u32, v: u32| call_requires(*plain, (x, v)),
        forall|x: u32, v: u32| call_requires(*distorted, (x, v)),
        forall|r: &Ray, c: Scalar, a: usize| a < 3 ==> call_requires(*travel, (r, c, a)),
        forall|r: &Ray, h: &HitRecord| call_requires(*respond, (r, h)),
        forall|e: Color, c: Color, l: Color| call_requires(*blend, (e, c, l)),
        forall|r: &Ray| call_requires(*sky, (r,)),
        forall|a: Color, b: Color| call_requires(*accumulate, (a, b)),
        forall|a: Color, n: usize| call_requires(*mean, (a, n)),
        forall|c: Scalar| call_requires(*encode, (c,)),
    ensures
        result.is_ok(),
        result.unwrap().is_sized(frame_width, frame_height),
        forall|x: int, y: int|
            0 <= x < frame_width && 0 <= y < frame_height ==> painted(
                x as u32,
                y as u32,
                frame_height,
                n_msaa,
                traced(
                    scene.bvh@,
                    scene.bvh.prims(),
                    sky_of(*sky),
                    max_depth,
                    camera_shots(*camera_effects, *plain, *distorted),
                    *travel,
                    *respond,
                    *blend,
                ),
                *accumulate,
                *mean,
                *encode,
                #[trigger] frame_rows(result.unwrap())[y][x],
            ),
{
    let ghost wide = traced(
        scene.bvh@,
        scene.bvh.prims(),
        sky_of(*sky),
        max_depth,
        camera_shots(*camera_effects, *plain, *distorted),
        *travel,
        *respond,
        *blend,
    );
    let sample = |x: u32, v: u32| -> (c: Color)
        ensures
            wide(x, v, c),
        {
            let ray = get_camera_ray(x, v, camera_effects, plain, distorted);
            colora(&ray, scene, max_depth, max_depth, travel, respond, blend, sky)
        };
    let result = render_frame(frame_width, frame_height, n_msaa, &sample, accumulate, mean, encode);
    proof {
        lemma_frame_widens(
            frame_rows(result.unwrap()),
            frame_width,
            frame_height,
            n_msaa,
            outcomes_of(sample),
            wide,
            *accumulate,
            *mean,
            *encode,
        );
    }
    result
}

} // verus!
