//! The raymarched primitive: a signed distance field, walked by sphere
//! tracing.

use vstd::prelude::*;
use crate::aabb::Aabb;
use crate::hitable::HitRecord;
use crate::material::Material;
use crate::ray::Ray;
use crate::scalar::Scalar;
use crate::vec3::Vec3;

verus! {

/// The most steps that a march takes.
pub const MAX_MARCHES: u32 = 256;

/// Bit pattern of 0.0001: nearer than this to the surface is a hit.
pub const SDF_EPSILON_BITS: u32 = 0x38d1_b717;

/// A distance field with a material. The radius and the position make the
/// box only, and have nothing to do with the field: where the box does not
/// hold the field, hits outside it are missed.
pub struct TracedSDF<S> {
    sdf: S,
    mat: Material,
    aabb_radius: Scalar,
    aabb_position: Vec3,
}

/// How a march ended.
#[derive(Clone, Copy, Debug, PartialEq, Eq, Structural)]
pub struct March {
    /// The ray came nearer to the surface than the epsilon.
    pub hit: bool,
    /// The ray parameter at which the march stopped.
    pub t: Scalar,
}

impl<S> TracedSDF<S> {
    pub closed spec fn field(&self) -> S {
        self.sdf
    }

    pub closed spec fn material(&self) -> Material {
        self.mat
    }

    pub closed spec fn radius(&self) -> Scalar {
        self.aabb_radius
    }

    pub closed spec fn position(&self) -> Vec3 {
        self.aabb_position
    }

    pub fn new(sdf: S, mat: Material, aabb_radius: Scalar, aabb_position: Vec3) -> (s: Self)
        ensures
            s.field() == sdf,
            s.material() == mat,
            s.radius() == aabb_radius,
            s.position() == aabb_position,
    {
        TracedSDF { sdf, mat, aabb_radius, aabb_position }
    }

    /// The field.
    pub fn sdf(&self) -> (sdf: &S)
        ensures
            *sdf == self.field(),
    {
        &self.sdf
    }

    /// `end` is how a march from `t` with `left` steps to go ends, for some
    /// outcome of the calls made. With no step left it stops where it is. A
    /// distance below the epsilon is a hit. Else the ray moves on by the
    /// distance, and stops without a hit once it is past `t1` or not a
    /// number.
    pub open spec fn march_outcome<D: Fn(&S, &Ray, Scalar) -> Scalar, A: Fn(Scalar, Scalar) -> Scalar>(
        sdf: S,
        ray: Ray,
        t1: Scalar,
        t: Scalar,
        left: nat,
        distance: D,
        advance: A,
        end: March,
    ) -> bool
        decreases left,
    {
        if left == 0 {
            end == (March { hit: false, t })
        } else {
            exists|dist: Scalar| #![trigger call_ensures(distance, (&sdf, &ray, t), dist)]
                {
                    &&& call_ensures(distance, (&sdf, &ray, t), dist)
                    &&& if dist.below(Scalar { bits: SDF_EPSILON_BITS }) {
                        end == (March { hit: true, t })
                    } else {
                        exists|next: Scalar|
                            #![trigger call_ensures(advance, (t, dist), next)]
                            {
                                &&& call_ensures(advance, (t, dist), next)
                                &&& if t1.below(next) || next.nan() {
                                    end == (March { hit: false, t: next })
                                } else {
                                    Self::march_outcome(
                                        sdf,
                                        ray,
                                        t1,
                                        next,
                                        (left - 1) as nat,
                                        distance,
                                        advance,
                                        end,
                                    )
                                }
                            }
                    }
                }
        }
    }

    fn march<D: Fn(&S, &Ray, Scalar) -> Scalar, A: Fn(Scalar, Scalar) -> Scalar>(
        &self,
        ray: &Ray,
        t1: Scalar,
        t: Scalar,
        left: u32,
        distance: &D,
        advance: &A,
    ) -> (end: March)
        requires
            forall|s: &S, r: &Ray, t: Scalar| call_requires(*distance, (s, r, t)),
            forall|t: Scalar, d: Scalar| call_requires(*advance, (t, d)),
        ensures
            Self::march_outcome(self.sdf, *ray, t1, t, left as nat, *distance, *advance, end),
        decreases left,
    {
        if left == 0 {
            return March { hit: false, t };
        }
        let dist = distance(&self.sdf, ray, t);
        if dist.lt(Scalar::from_bits(SDF_EPSILON_BITS)) {
            return March { hit: true, t };
        }
        let next = advance(t, dist);
        if next.gt(t1) || next.is_nan() {
            return March { hit: false, t: next };
        }
        self.march(ray, t1, next, left - 1, distance, advance)
    }

    /// `out` is what `hit` returns, for some outcome of the calls made: after
    /// a march from zero of at most 256 steps that ends in a hit, a record at
    /// the place a little before the march's end, with the normal of the
    /// field there; else nothing.
    pub open spec fn hit_outcome<
        D: Fn(&S, &Ray, Scalar) -> Scalar,
        A: Fn(Scalar, Scalar) -> Scalar,
        B: Fn(Scalar) -> Scalar,
        N: Fn(&S, &Ray, Scalar) -> (Vec3, Vec3),
    >(
        &self,
        ray: Ray,
        t1: Scalar,
        distance: D,
        advance: A,
        back_off: B,
        surface: N,
        out: Option<HitRecord>,
    ) -> bool {
        exists|end: March|
            #![trigger
                Self::march_outcome(
                    self.field(),
                    ray,
                    t1,
                    Scalar { bits: 0 },
                    MAX_MARCHES as nat,
                    distance,
                    advance,
                    end,
                )]
            {
                &&& Self::march_outcome(
                    self.field(),
                    ray,
                    t1,
                    Scalar { bits: 0 },
                    MAX_MARCHES as nat,
                    distance,
                    advance,
                    end,
                )
                &&& if end.hit {
                    exists|t: Scalar, pos: Vec3, normal: Vec3|
                        #![trigger
                            call_ensures(back_off, (end.t,), t),
                            call_ensures(surface, (&self.field(), &ray, t), (pos, normal))]
                        {
                            &&& call_ensures(back_off, (end.t,), t)
                            &&& call_ensures(surface, (&self.field(), &ray, t), (pos, normal))
                            &&& out == Some(
                                HitRecord {
                                    t,
                                    pos,
                                    normal,
                                    mat: &self.material(),
                                    u: Scalar { bits: 0 },
                                    v: Scalar { bits: 0 },
                                },
                            )
                        }
                } else {
                    out.is_none()
                }
            }
    }

    /// The hit of the ray before `t1`, found by sphere tracing.
    ///
    /// `distance(s, r, t)` is the distance of the field `s` at the point of
    /// `r` at `t`; `advance(t, d)` is `t + d`; `back_off(t)` is `t - 0.0001`;
    /// `surface(s, r, t)` is the point of `r` at `t` and the normal of `s`
    /// there.
    pub fn hit<
        'a,
        D: Fn(&S, &Ray, Scalar) -> Scalar,
        A: Fn(Scalar, Scalar) -> Scalar,
        B: Fn(Scalar) -> Scalar,
        N: Fn(&S, &Ray, Scalar) -> (Vec3, Vec3),
    >(
        &'a self,
        ray: &Ray,
        _t0: Scalar,
        t1: Scalar,
        distance: &D,
        advance: &A,
        back_off: &B,
        surface: &N,
    ) -> (out: Option<HitRecord<'a>>)
        requires
            forall|s: &S, r: &Ray, t: Scalar| call_requires(*distance, (s, r, t)),
            forall|t: Scalar, d: Scalar| call_requires(*advance, (t, d)),
            forall|t: Scalar| call_requires(*back_off, (t,)),
            forall|s: &S, r: &Ray, t: Scalar| call_requires(*surface, (s, r, t)),
        ensures
            self.hit_outcome(*ray, t1, *distance, *advance, *back_off, *surface, out),
    {
        let end = self.march(ray, t1, Scalar::zero(), MAX_MARCHES, distance, advance);
        assert(Self::march_outcome(
            self.field(),
            *ray,
            t1,
            Scalar { bits: 0 },
            MAX_MARCHES as nat,
            *distance,
            *advance,
            end,
        ));
        if end.hit {
            let t = back_off(end.t);
            let (pos, normal) = surface(&self.sdf, ray, t);
            Some(
                HitRecord { t, pos, normal, mat: &self.mat, u: Scalar::zero(), v: Scalar::zero() },
            )
        } else {
            None
        }
    }

    /// `out` is what `bounding_box` returns, for some outcome of the call
    /// made: the cube round the position whose half side is the radius
    /// without its sign.
    pub open spec fn box_outcome<C: Fn(Vec3, Scalar) -> Aabb>(&self, cube: C, out: Option<Aabb>) -> bool {
        out.is_some() && call_ensures(
            cube,
            (self.position(), Scalar { bits: self.radius().magnitude() as u32 }),
            out.unwrap(),
        )
    }

    /// The box that the caller chose for the field.
    ///
    /// `cube(c, h)` is the box from `c - (h, h, h)` to `c + (h, h, h)`.
    pub fn bounding_box<C: Fn(Vec3, Scalar) -> Aabb>(&self, cube: &C) -> (out: Option<Aabb>)
        requires
            forall|c: Vec3, h: Scalar| call_requires(*cube, (c, h)),
        ensures
            self.box_outcome(*cube, out),
    {
        Some(cube(self.aabb_position, self.aabb_radius.abs()))
    }
}

} // verus!
