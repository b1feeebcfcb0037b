//! Surface materials: what each kind holds, and what each decides once the
//! arithmetic of a scatter is done.

use vstd::prelude::*;
use crate::color::Color;
use crate::hitable::HitRecord;
use crate::ray::Ray;
use crate::scalar::Scalar;
use crate::texture::Texture;
use crate::utils::{is_near_zero, near_zero, refract, refract_outcome};
use crate::vec3::Vec3;

verus! {

/// What a surface does to a ray: the colour it contributes and, unless the
/// ray ends there, the ray that leaves.
#[derive(Clone, Copy, Debug)]
pub struct Scatter {
    pub color: Color,
    pub ray: Option<Ray>,
}

/// A surface material.
#[derive(Clone, Debug)]
pub enum Material {
    Lambertian(Lambertian),
    Metal(Metal),
    Dielectric(Dielectric),
    DiffuseLight(DiffuseLight),
}

/// A diffuse surface.
#[derive(Clone, Debug)]
pub struct Lambertian {
    pub albedo: Texture,
}

/// A mirror, blurred by `fuzz`.
#[derive(Clone, Debug)]
pub struct Metal {
    pub albedo: Texture,
    pub fuzz: Scalar,
}

/// A transparent medium.
#[derive(Clone, Copy, Debug)]
pub struct Dielectric {
    pub index_of_refraction: Scalar,
}

/// A surface that emits light and scatters none.
#[derive(Clone, Debug)]
pub struct DiffuseLight {
    pub albedo: Texture,
}

/// What the arithmetic of a crossing gives: the ratio of the two indices of
/// refraction, and the cosine of the angle to the normal.
#[derive(Clone, Copy, Debug)]
pub struct Optics {
    pub ni_over_nt: Scalar,
    pub cosine: Scalar,
}

/// The one ray that leaves the surface of a medium, and whether it is the
/// refracted one.
#[derive(Clone, Copy, Debug)]
pub struct Bounce {
    pub ray: Ray,
    pub refracted: bool,
}

/// How a ray meets the surface of a medium, and what follows for its
/// refraction.
#[derive(Clone, Copy, Debug)]
pub struct Crossing {
    /// The ray runs along the normal: it is on its way out of the medium.
    pub leaving: bool,
    /// The normal that points against the ray.
    pub outward_normal: Vec3,
}

impl Material {
    pub fn lambertian(albedo: Texture) -> (m: Material)
        ensures
            m == Material::Lambertian(Lambertian { albedo }),
    {
        Material::Lambertian(Lambertian { albedo })
    }

    pub fn metal(albedo: Texture, fuzz: Scalar) -> (m: Material)
        ensures
            m == Material::Metal(Metal { albedo, fuzz }),
    {
        Material::Metal(Metal { albedo, fuzz })
    }

    pub fn dielectric(index_of_refraction: Scalar) -> (m: Material)
        ensures
            m == Material::Dielectric(Dielectric { index_of_refraction }),
    {
        Material::Dielectric(Dielectric { index_of_refraction })
    }

    pub fn diffuse_light(albedo: Texture) -> (m: Material)
        ensures
            m == Material::DiffuseLight(DiffuseLight { albedo }),
    {
        Material::DiffuseLight(DiffuseLight { albedo })
    }

    /// `out` is what the material scatters, for some outcome of the call
    /// made: what the scatter of its own kind gives, and nothing for a light.
    pub open spec fn scatter_outcome<
        L: Fn(&Lambertian, &Ray, &HitRecord) -> Option<Scatter>,
        M: Fn(&Metal, &Ray, &HitRecord) -> Option<Scatter>,
        D: Fn(&Dielectric, &Ray, &HitRecord) -> Option<Scatter>,
    >(
        self,
        ray: Ray,
        hit_record: HitRecord,
        lambertian: L,
        metal: M,
        dielectric: D,
        out: Option<Scatter>,
    ) -> bool {
        match self {
            Material::Lambertian(l) => call_ensures(lambertian, (&l, &ray, &hit_record), out),
            Material::Metal(m) => call_ensures(metal, (&m, &ray, &hit_record), out),
            Material::Dielectric(d) => call_ensures(dielectric, (&d, &ray, &hit_record), out),
            Material::DiffuseLight(_) => out.is_none(),
        }
    }

    /// What the material scatters of a ray that hits it: the scatter of its
    /// own kind, of which each is handed in. A light scatters nothing.
    pub fn scatter<
        L: Fn(&Lambertian, &Ray, &HitRecord) -> Option<Scatter>,
        M: Fn(&Metal, &Ray, &HitRecord) -> Option<Scatter>,
        D: Fn(&Dielectric, &Ray, &HitRecord) -> Option<Scatter>,
    >(
        &self,
        ray: &Ray,
        hit_record: &HitRecord,
        lambertian: &L,
        metal: &M,
        dielectric: &D,
    ) -> (out: Option<Scatter>)
        requires
            forall|l: &Lambertian, r: &Ray, h: &HitRecord| call_requires(*lambertian, (l, r, h)),
            forall|m: &Metal, r: &Ray, h: &HitRecord| call_requires(*metal, (m, r, h)),
            forall|d: &Dielectric, r: &Ray, h: &HitRecord| call_requires(*dielectric, (d, r, h)),
        ensures
            self.scatter_outcome(*ray, *hit_record, *lambertian, *metal, *dielectric, out),
    {
        match self {
            Material::Lambertian(l) => lambertian(l, ray, hit_record),
            Material::Metal(m) => metal(m, ray, hit_record),
            Material::Dielectric(d) => dielectric(d, ray, hit_record),
            Material::DiffuseLight(l) => l.scatter(),
        }
    }

    /// `out` is what the material emits, for some outcome of the call made:
    /// for a light the value of its texture, else black.
    pub open spec fn emitted_outcome<V: Fn(&Texture, Scalar, Scalar, Vec3) -> Color>(
        self,
        u: Scalar,
        v: Scalar,
        p: Vec3,
        value: V,
        out: Color,
    ) -> bool {
        match self {
            Material::DiffuseLight(dl) => call_ensures(value, (&dl.albedo, u, v, p), out),
            _ => out.is_black(),
        }
    }

    /// The light that the material emits at a place: for a light the value
    /// of its texture there, else black.
    pub fn emitted<V: Fn(&Texture, Scalar, Scalar, Vec3) -> Color>(
        &self,
        u: Scalar,
        v: Scalar,
        p: Vec3,
        value: &V,
    ) -> (out: Color)
        requires
            forall|t: &Texture, u: Scalar, v: Scalar, p: Vec3| call_requires(*value, (t, u, v, p)),
        ensures
            self.emitted_outcome(u, v, p, *value, out),
    {
        match self {
            Material::DiffuseLight(dl) => value(&dl.albedo, u, v, p),
            _ => Color::black(),
        }
    }
}

impl Lambertian {
    pub fn new(albedo: Texture) -> (l: Lambertian)
        ensures
            l.albedo == albedo,
    {
        Lambertian { albedo }
    }

    /// The direction of a diffuse scatter: the normal moved by a random
    /// point, or the normal itself where that sum is near zero.
    pub fn direction(normal: Vec3, wandered: Vec3) -> (d: Vec3)
        ensures
            d == if is_near_zero(wandered) {
                normal
            } else {
                wandered
            },
    {
        if near_zero(&wandered) {
            normal
        } else {
            wandered
        }
    }

    /// The scatter of a diffuse surface: always a ray, tinted by the albedo.
    pub fn scatter(attenuation: Color, scattered: Ray) -> (out: Option<Scatter>)
        ensures
            out == Some(Scatter { color: attenuation, ray: Some(scattered) }),
    {
        Some(Scatter { color: attenuation, ray: Some(scattered) })
    }
}

impl Metal {
    pub fn new(albedo: Texture, fuzz: Scalar) -> (m: Metal)
        ensures
            m.albedo == albedo,
            m.fuzz == fuzz,
    {
        Metal { albedo, fuzz }
    }

    /// The scatter of a metal: the reflected ray, tinted by the albedo, where
    /// it leaves the surface; nothing where it points into it. `facing` is
    /// the reflected direction times the normal.
    pub fn scatter(facing: Scalar, attenuation: Color, scattered: Ray) -> (out: Option<Scatter>)
        ensures
            out == if (Scalar { bits: 0 }).below(facing) {
                Some(Scatter { color: attenuation, ray: Some(scattered) })
            } else {
                None
            },
    {
        if facing.gt(Scalar::zero()) {
            Some(Scatter { color: attenuation, ray: Some(scattered) })
        } else {
            None
        }
    }
}

impl Dielectric {
    pub fn new(index_of_refraction: Scalar) -> (d: Dielectric)
        ensures
            d.index_of_refraction == index_of_refraction,
    {
        Dielectric { index_of_refraction }
    }

    /// How a ray meets the surface. `facing` is the ray's direction times the
    /// normal: where it is above zero the ray is leaving the medium, and the
    /// outward normal is the normal turned round.
    pub open spec fn crossing_of(facing: Scalar, normal: Vec3) -> Crossing {
        if (Scalar { bits: 0 }).below(facing) {
            Crossing { leaving: true, outward_normal: normal.negated() }
        } else {
            Crossing { leaving: false, outward_normal: normal }
        }
    }

    /// How the ray meets the surface.
    pub fn crossing(facing: Scalar, normal: Vec3) -> (c: Crossing)
        ensures
            c == Self::crossing_of(facing, normal),
    {
        if facing.gt(Scalar::zero()) {
            Crossing { leaving: true, outward_normal: normal.neg() }
        } else {
            Crossing { leaving: false, outward_normal: normal }
        }
    }

    /// `out` is the reflected ray, for some outcome of the call made.
    pub open spec fn reflected<M: Fn(&Ray, &HitRecord) -> Ray>(
        r_in: Ray,
        hit: HitRecord,
        mirror: M,
        out: Bounce,
    ) -> bool {
        !out.refracted && call_ensures(mirror, (&r_in, &hit), out.ray)
    }

    /// `out` is the ray that leaves once refraction is known to be possible
    /// along `direction`, for some outcome of the calls made: the refracted
    /// ray where the draw is above the reflectance, else the reflected one.
    pub open spec fn drawn<
        A: Fn(Vec3, Vec3) -> Ray,
        W: Fn() -> Scalar,
        S: Fn(Scalar, Scalar) -> Scalar,
        M: Fn(&Ray, &HitRecord) -> Ray,
    >(
        &self,
        r_in: Ray,
        hit: HitRecord,
        cosine: Scalar,
        direction: Vec3,
        aim: A,
        draw: W,
        schlick: S,
        mirror: M,
        out: Bounce,
    ) -> bool {
        exists|u: Scalar, reflectance: Scalar|
            #![trigger
                call_ensures(draw, (), u),
                call_ensures(schlick, (cosine, self.index_of_refraction), reflectance)]
            {
                &&& call_ensures(draw, (), u)
                &&& call_ensures(schlick, (cosine, self.index_of_refraction), reflectance)
                &&& if reflectance.below(u) {
                    out.refracted && call_ensures(aim, (hit.pos, direction), out.ray)
                } else {
                    Self::reflected(r_in, hit, mirror, out)
                }
            }
    }

    /// `out` is the ray that leaves the surface, for some outcome of the
    /// calls made. The side of the surface follows from the sign of `facing`;
    /// the ratio and the cosine are those of that side; the direction is
    /// refracted at the outward normal of that side. Where refraction is
    /// possible, a draw above the reflectance picks the refracted ray. In
    /// every other case the ray is reflected.
    pub open spec fn bounce_outcome<
        F: Fn(&Ray, &HitRecord) -> Scalar,
        O: Fn(&Dielectric, Scalar, bool, &Ray) -> Optics,
        D: Fn(Vec3, Vec3, Scalar) -> Scalar,
        B: Fn(Vec3, Vec3, Scalar, Scalar) -> Vec3,
        A: Fn(Vec3, Vec3) -> Ray,
        W: Fn() -> Scalar,
        S: Fn(Scalar, Scalar) -> Scalar,
        M: Fn(&Ray, &HitRecord) -> Ray,
    >(
        &self,
        r_in: Ray,
        hit: HitRecord,
        facing: F,
        optics: O,
        discriminant: D,
        bend: B,
        aim: A,
        draw: W,
        schlick: S,
        mirror: M,
        out: Bounce,
    ) -> bool {
        exists|d: Scalar, o: Optics, refracted: Option<Vec3>|
            #![trigger
                call_ensures(facing, (&r_in, &hit), d),
                call_ensures(optics, (self, d, Self::crossing_of(d, hit.normal).leaving, &r_in), o),
                refract_outcome(
                    r_in.direction,
                    Self::crossing_of(d, hit.normal).outward_normal,
                    o.ni_over_nt,
                    discriminant,
                    bend,
                    refracted,
                )]
            {
                &&& call_ensures(facing, (&r_in, &hit), d)
                &&& call_ensures(
                    optics,
                    (self, d, Self::crossing_of(d, hit.normal).leaving, &r_in),
                    o,
                )
                &&& refract_outcome(
                    r_in.direction,
                    Self::crossing_of(d, hit.normal).outward_normal,
                    o.ni_over_nt,
                    discriminant,
                    bend,
                    refracted,
                )
                &&& match refracted {
                    Some(direction) => self.drawn(
                        r_in,
                        hit,
                        o.cosine,
                        direction,
                        aim,
                        draw,
                        schlick,
                        mirror,
                        out,
                    ),
                    None => Self::reflected(r_in, hit, mirror, out),
                }
            }
    }

    /// The one ray that leaves the surface of the medium: refracted or
    /// reflected.
    ///
    /// `facing(r, h)` is the direction of `r` times the normal at `h`;
    /// `optics(d, f, leaving, r)` is the refraction ratio and the cosine on
    /// that side of the surface; `discriminant` and `bend` are those of
    /// [`refract`]; `aim(p, v)` is the ray from `p` along `v`, normalised;
    /// `draw()` is a number drawn at random from 0 up to 1; `schlick(c, i)`
    /// is the reflectance at cosine `c` for the index `i`; `mirror(r, h)` is
    /// the ray from the hit along the mirror image of `r`.
    pub fn bounce<
        F: Fn(&Ray, &HitRecord) -> Scalar,
        O: Fn(&Dielectric, Scalar, bool, &Ray) -> Optics,
        D: Fn(Vec3, Vec3, Scalar) -> Scalar,
        B: Fn(Vec3, Vec3, Scalar, Scalar) -> Vec3,
        A: Fn(Vec3, Vec3) -> Ray,
        W: Fn() -> Scalar,
        S: Fn(Scalar, Scalar) -> Scalar,
        M: Fn(&Ray, &HitRecord) -> Ray,
    >(
        &self,
        r_in: &Ray,
        hit: &HitRecord,
        facing: &F,
        optics: &O,
        discriminant: &D,
        bend: &B,
        aim: &A,
        draw: &W,
        schlick: &S,
        mirror: &M,
    ) -> (out: Bounce)
        requires
            forall|r: &Ray, h: &HitRecord| call_requires(*facing, (r, h)),
            forall|d: &Dielectric, f: Scalar, l: bool, r: &Ray| call_requires(*optics, (d, f, l, r)),
            forall|v: Vec3, n: Vec3, r: Scalar| call_requires(*discriminant, (v, n, r)),
            forall|v: Vec3, n: Vec3, r: Scalar, d: Scalar| call_requires(*bend, (v, n, r, d)),
            forall|p: Vec3, v: Vec3| call_requires(*aim, (p, v)),
            call_requires(*draw, ()),
            forall|c: Scalar, i: Scalar| call_requires(*schlick, (c, i)),
            forall|r: &Ray, h: &HitRecord| call_requires(*mirror, (r, h)),
        ensures
            self.bounce_outcome(
                *r_in,
                *hit,
                *facing,
                *optics,
                *discriminant,
                *bend,
                *aim,
                *draw,
                *schlick,
                *mirror,
                out,
            ),
    {
        let d = facing(r_in, hit);
        let crossing = Self::crossing(d, hit.normal);
        let o = optics(self, d, crossing.leaving, r_in);
        let refracted = refract(r_in.direction, crossing.outward_normal, o.ni_over_nt, discriminant, bend);
        match refracted {
            Some(direction) => {
                let u = draw();
                let reflectance = schlick(o.cosine, self.index_of_refraction);
                if u.gt(reflectance) {
                    let out = Bounce { ray: aim(hit.pos, direction), refracted: true };
                    assert(self.drawn(*r_in, *hit, o.cosine, direction, *aim, *draw, *schlick, *mirror, out));
                    return out;
                }
                let out = Bounce { ray: mirror(r_in, hit), refracted: false };
                assert(self.drawn(*r_in, *hit, o.cosine, direction, *aim, *draw, *schlick, *mirror, out));
                out
            },
            None => Bounce { ray: mirror(r_in, hit), refracted: false },
        }
    }

    /// `out` is what `scatter` returns, for some outcome of the calls made:
    /// white, and the one ray that `bounce` gives.
    pub open spec fn scatter_outcome<
        F: Fn(&Ray, &HitRecord) -> Scalar,
        O: Fn(&Dielectric, Scalar, bool, &Ray) -> Optics,
        D: Fn(Vec3, Vec3, Scalar) -> Scalar,
        B: Fn(Vec3, Vec3, Scalar, Scalar) -> Vec3,
        A: Fn(Vec3, Vec3) -> Ray,
        W: Fn() -> Scalar,
        S: Fn(Scalar, Scalar) -> Scalar,
        M: Fn(&Ray, &HitRecord) -> Ray,
    >(
        &self,
        r_in: Ray,
        hit: HitRecord,
        facing: F,
        optics: O,
        discriminant: D,
        bend: B,
        aim: A,
        draw: W,
        schlick: S,
        mirror: M,
        out: Option<Scatter>,
    ) -> bool {
        &&& out.is_some()
        &&& out.unwrap().color.is_white()
        &&& out.unwrap().ray.is_some()
        &&& exists|b: Bounce|
            #![trigger
                self.bounce_outcome(
                    r_in,
                    hit,
                    facing,
                    optics,
                    discriminant,
                    bend,
                    aim,
                    draw,
                    schlick,
                    mirror,
                    b,
                )]
            out.unwrap().ray == Some(b.ray) && self.bounce_outcome(
                r_in,
                hit,
                facing,
                optics,
                discriminant,
                bend,
                aim,
                draw,
                schlick,
                mirror,
                b,
            )
    }

    /// The scatter of a medium: white, and always one ray, refracted or
    /// reflected. The closures are those of [`Dielectric::bounce`].
    pub fn scatter<
        F: Fn(&Ray, &HitRecord) -> Scalar,
        O: Fn(&Dielectric, Scalar, bool, &Ray) -> Optics,
        D: Fn(Vec3, Vec3, Scalar) -> Scalar,
        B: Fn(Vec3, Vec3, Scalar, Scalar) -> Vec3,
        A: Fn(Vec3, Vec3) -> Ray,
        W: Fn() -> Scalar,
        S: Fn(Scalar, Scalar) -> Scalar,
        M: Fn(&Ray, &HitRecord) -> Ray,
    >(
        &self,
        r_in: &Ray,
        hit: &HitRecord,
        facing: &F,
        optics: &O,
        discriminant: &D,
        bend: &B,
        aim: &A,
        draw: &W,
        schlick: &S,
        mirror: &M,
    ) -> (out: Option<Scatter>)
        requires
            forall|r: &Ray, h: &HitRecord| call_requires(*facing, (r, h)),
            forall|d: &Dielectric, f: Scalar, l: bool, r: &Ray| call_requires(*optics, (d, f, l, r)),
            forall|v: Vec3, n: Vec3, r: Scalar| call_requires(*discriminant, (v, n, r)),
            forall|v: Vec3, n: Vec3, r: Scalar, d: Scalar| call_requires(*bend, (v, n, r, d)),
            forall|p: Vec3, v: Vec3| call_requires(*aim, (p, v)),
            call_requires(*draw, ()),
            forall|c: Scalar, i: Scalar| call_requires(*schlick, (c, i)),
            forall|r: &Ray, h: &HitRecord| call_requires(*mirror, (r, h)),
        ensures
            self.scatter_outcome(
                *r_in,
                *hit,
                *facing,
                *optics,
                *discriminant,
                *bend,
                *aim,
                *draw,
                *schlick,
                *mirror,
                out,
            ),
    {
        let b = self.bounce(r_in, hit, facing, optics, discriminant, bend, aim, draw, schlick, mirror);
        Some(Scatter { color: Color::white(), ray: Some(b.ray) })
    }
}

impl DiffuseLight {
    pub fn new(albedo: Texture) -> (l: DiffuseLight)
        ensures
            l.albedo == albedo,
    {
        DiffuseLight { albedo }
    }

    /// A light scatters nothing.
    pub fn scatter(&self) -> (out: Option<Scatter>)
        ensures
            out.is_none(),
    {
        None
    }
}

} // verus!
