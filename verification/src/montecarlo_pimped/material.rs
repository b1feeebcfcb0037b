use vstd::prelude::*;
use crate::color::Color;
use crate::hitable::HitRecord;
use crate::material::{Bounce, Dielectric, Lambertian, Material, Metal, Optics, Scatter};
use crate::scalar::Scalar;
use crate::montecarlo_pimped::deflection_opt::{DeflectionForce, DeflectionOpt};
use crate::montecarlo_pimped::tint_opt::{BandOp, TintOpt};
use crate::ray::Ray;
use crate::vec3::Vec3;

verus! {

impl Material {
    /// What the material scatters of a ray in the stylised variant: the
    /// stylised scatter of its own kind, of which each is handed in. A light
    /// scatters nothing.
    pub fn scattero<
        L: Fn(&Lambertian, &Ray, &HitRecord) -> Option<Scatter>,
        M: Fn(&Metal, &Ray, &HitRecord) -> Option<Scatter>,
        D: Fn(&Dielectric, &Ray, &HitRecord) -> Option<Scatter>,
    >(
        &self,
        ray: &Ray,
        hit_record: &HitRecord,
        lambertian: &L,
        metal: &M,
        dielectric: &D,
    ) -> (out: Option<Scatter>)
        requires
            forall|l: &Lambertian, r: &Ray, h: &HitRecord| call_requires(*lambertian, (l, r, h)),
            forall|m: &Metal, r: &Ray, h: &HitRecord| call_requires(*metal, (m, r, h)),
            forall|d: &Dielectric, r: &Ray, h: &HitRecord| call_requires(*dielectric, (d, r, h)),
        ensures
            self.scatter_outcome(*ray, *hit_record, *lambertian, *metal, *dielectric, out),
    {
        self.scatter(ray, hit_record, lambertian, metal, dielectric)
    }
}

impl Dielectric {
    /// `out` is what `scattero` returns, for some outcome of the calls made:
    /// the one ray that `bounce` gives, with white tinted by the ray's
    /// direction where the ray is the refracted one, and plain white where it
    /// is the reflected one.
    pub open spec fn scattero_outcome<
        F: Fn(&Ray, &HitRecord) -> Scalar,
        O: Fn(&Dielectric, Scalar, bool, &Ray) -> Optics,
        D: Fn(Vec3, Vec3, Scalar) -> Scalar,
        B: Fn(Vec3, Vec3, Scalar, Scalar) -> Vec3,
        A: Fn(Vec3, Vec3) -> Ray,
        W: Fn() -> Scalar,
        S: Fn(Scalar, Scalar) -> Scalar,
        M: Fn(&Ray, &HitRecord) -> Ray,
        T: Fn(&Vec3, &Color) -> Color,
    >(
        &self,
        r_in: Ray,
        hit: HitRecord,
        facing: F,
        optics: O,
        discriminant: D,
        bend: B,
        aim: A,
        draw: W,
        schlick: S,
        mirror: M,
        tint: T,
        out: Option<Scatter>,
    ) -> bool {
        &&& out.is_some()
        &&& out.unwrap().ray.is_some()
        &&& exists|b: Bounce|
            #![trigger
                self.bounce_outcome(
                    r_in,
                    hit,
                    facing,
                    optics,
                    discriminant,
                    bend,
                    aim,
                    draw,
                    schlick,
                    mirror,
                    b,
                )]
            {
                &&& self.bounce_outcome(
                    r_in,
                    hit,
                    facing,
                    optics,
                    discriminant,
                    bend,
                    aim,
                    draw,
                    schlick,
                    mirror,
                    b,
                )
                &&& out.unwrap().ray == Some(b.ray)
                &&& if b.refracted {
                    call_ensures(tint, (&b.ray.direction, &Color::spec_white()), out.unwrap().color)
                } else {
                    out.unwrap().color == Color::spec_white()
                }
            }
    }

    /// The scatter of a medium in the stylised variant: always one ray, the
    /// refracted one tinted by its direction, the reflected one white.
    ///
    /// `tint(d, c)` is the colour `c` banded by the direction `d`; the other
    /// closures are those of [`Dielectric::bounce`].
    pub fn scattero<
        F: Fn(&Ray, &HitRecord) -> Scalar,
        O: Fn(&Dielectric, Scalar, bool, &Ray) -> Optics,
        D: Fn(Vec3, Vec3, Scalar) -> Scalar,
        B: Fn(Vec3, Vec3, Scalar, Scalar) -> Vec3,
        A: Fn(Vec3, Vec3) -> Ray,
        W: Fn() -> Scalar,
        S: Fn(Scalar, Scalar) -> Scalar,
        M: Fn(&Ray, &HitRecord) -> Ray,
        T: Fn(&Vec3, &Color) -> Color,
    >(
        &self,
        r_in: &Ray,
        hit: &HitRecord,
        facing: &F,
        optics: &O,
        discriminant: &D,
        bend: &B,
        aim: &A,
        draw: &W,
        schlick: &S,
        mirror: &M,
        tint: &T,
    ) -> (out: Option<Scatter>)
        requires
            forall|r: &Ray, h: &HitRecord| call_requires(*facing, (r, h)),
            forall|d: &Dielectric, f: Scalar, l: bool, r: &Ray| call_requires(*optics, (d, f, l, r)),
            forall|v: Vec3, n: Vec3, r: Scalar| call_requires(*discriminant, (v, n, r)),
            forall|v: Vec3, n: Vec3, r: Scalar, d: Scalar| call_requires(*bend, (v, n, r, d)),
            forall|p: Vec3, v: Vec3| call_requires(*aim, (p, v)),
            call_requires(*draw, ()),
            forall|c: Scalar, i: Scalar| call_requires(*schlick, (c, i)),
            forall|r: &Ray, h: &HitRecord| call_requires(*mirror, (r, h)),
            forall|d: &Vec3, c: &Color| call_requires(*tint, (d, c)),
        ensures
            self.scattero_outcome(
                *r_in,
                *hit,
                *facing,
                *optics,
                *discriminant,
                *bend,
                *aim,
                *draw,
                *schlick,
                *mirror,
                *tint,
                out,
            ),
    {
        let b = self.bounce(r_in, hit, facing, optics, discriminant, bend, aim, draw, schlick, mirror);
        let white = Color::white();
        let color = if b.refracted {
            tint(&b.ray.direction, &white)
        } else {
            white
        };
        Some(Scatter { color, ray: Some(b.ray) })
    }
}

/// `out` is what `get_deflected_color` returns, for some outcome of the calls
/// made: the band of the direction that the options ask for, mixed into the
/// colour.
pub open spec fn tint_outcome<
    S: Fn(&Vec3, &TintOpt) -> Color,
    F: Fn(&Vec3, &TintOpt) -> Color,
    M: Fn(&Vec3, &TintOpt) -> Color,
    L: Fn(&Color, Color, &TintOpt) -> Color,
>(
    scatter_direction: Vec3,
    surface_color: Color,
    tint_opt: TintOpt,
    sine: S,
    fract: F,
    modulo: M,
    mix: L,
    out: Color,
) -> bool {
    exists|band: Color| #![trigger call_ensures(mix, (&surface_color, band, &tint_opt), out)]
        {
            &&& match tint_opt.band_op {
                BandOp::Sin => call_ensures(sine, (&scatter_direction, &tint_opt), band),
                BandOp::Fract => call_ensures(fract, (&scatter_direction, &tint_opt), band),
                BandOp::Mod => call_ensures(modulo, (&scatter_direction, &tint_opt), band),
            }
            &&& call_ensures(mix, (&surface_color, band, &tint_opt), out)
        }
}

/// The colour of a surface, banded by the direction of the scatter.
///
/// `sine`, `fract` and `modulo` are the three periodic functions of the
/// direction's components; `mix(c, b, o)` blends the colour `c` towards the
/// band `b` times the tint of `o`, by the mix factor of `o`.
pub fn get_deflected_color<
    S: Fn(&Vec3, &TintOpt) -> Color,
    F: Fn(&Vec3, &TintOpt) -> Color,
    M: Fn(&Vec3, &TintOpt) -> Color,
    L: Fn(&Color, Color, &TintOpt) -> Color,
>(
    scatter_direction: &Vec3,
    surface_color: &Color,
    tint_opt: &TintOpt,
    sine: &S,
    fract: &F,
    modulo: &M,
    mix: &L,
) -> (out: Color)
    requires
        forall|d: &Vec3, o: &TintOpt| call_requires(*sine, (d, o)),
        forall|d: &Vec3, o: &TintOpt| call_requires(*fract, (d, o)),
        forall|d: &Vec3, o: &TintOpt| call_requires(*modulo, (d, o)),
        forall|c: &Color, b: Color, o: &TintOpt| call_requires(*mix, (c, b, o)),
    ensures
        tint_outcome(
            *scatter_direction,
            *surface_color,
            *tint_opt,
            *sine,
            *fract,
            *modulo,
            *mix,
            out,
        ),
{
    let new_color = match tint_opt.band_op {
        BandOp::Sin => sine(scatter_direction, tint_opt),
        BandOp::Fract => fract(scatter_direction, tint_opt),
        BandOp::Mod => modulo(scatter_direction, tint_opt),
    };
    mix(surface_color, new_color, tint_opt)
}

/// `out` is what `deflect_normal` returns, for some outcome of the calls
/// made: the normal pushed along the vector that the options ask for, then
/// bent and shaken.
pub open spec fn deflection_outcome<
    C: Fn(&Vec3, &Vec3, &Vec3) -> Vec3,
    O: Fn(&Vec3, &Vec3, &Vec3) -> Vec3,
    B: Fn(&Vec3, Vec3, &DeflectionOpt) -> Vec3,
>(
    surface_position: Vec3,
    surface_normal: Vec3,
    camera_pos: Vec3,
    deflection_opt: DeflectionOpt,
    along_camera_ray: C,
    toward_camera: O,
    bend: B,
    out: Vec3,
) -> bool {
    exists|pushed_away: Vec3|
        #![trigger call_ensures(bend, (&surface_normal, pushed_away, &deflection_opt), out)]
        {
            &&& match deflection_opt.force {
                DeflectionForce::CameraRay => call_ensures(
                    along_camera_ray,
                    (&surface_position, &surface_normal, &camera_pos),
                    pushed_away,
                ),
                DeflectionForce::ObjectToCamera => call_ensures(
                    toward_camera,
                    (&surface_position, &surface_normal, &camera_pos),
                    pushed_away,
                ),
            }
            &&& call_ensures(bend, (&surface_normal, pushed_away, &deflection_opt), out)
        }
}

/// The normal of a surface, bent away from the camera.
///
/// `along_camera_ray(p, n, c)` is `n + (p - c)`; `toward_camera(p, n, c)` is
/// `n + (c - p)`; `bend(n, a, o)` blends `n` towards `a` by the amplitude of
/// `o`, normalises, adds a random point times the randomness of `o`, and
/// normalises again.
pub fn deflect_normal<
    C: Fn(&Vec3, &Vec3, &Vec3) -> Vec3,
    O: Fn(&Vec3, &Vec3, &Vec3) -> Vec3,
    B: Fn(&Vec3, Vec3, &DeflectionOpt) -> Vec3,
>(
    surface_position: &Vec3,
    surface_normal: &Vec3,
    camera_pos: &Vec3,
    deflection_opt: &DeflectionOpt,
    along_camera_ray: &C,
    toward_camera: &O,
    bend: &B,
) -> (out: Vec3)
    requires
        forall|p: &Vec3, n: &Vec3, c: &Vec3| call_requires(*along_camera_ray, (p, n, c)),
        forall|p: &Vec3, n: &Vec3, c: &Vec3| call_requires(*toward_camera, (p, n, c)),
        forall|n: &Vec3, a: Vec3, o: &DeflectionOpt| call_requires(*bend, (n, a, o)),
    ensures
        deflection_outcome(
            *surface_position,
            *surface_normal,
            *camera_pos,
            *deflection_opt,
            *along_camera_ray,
            *toward_camera,
            *bend,
            out,
        ),
{
    let pushed_away = match deflection_opt.force {
        DeflectionForce::CameraRay => along_camera_ray(surface_position, surface_normal, camera_pos),
        DeflectionForce::ObjectToCamera => toward_camera(surface_position, surface_normal, camera_pos),
    };
    bend(surface_normal, pushed_away, deflection_opt)
}

} // verus!
