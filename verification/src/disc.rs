//! The disc: a bounded piece of a plane.

use vstd::prelude::*;
use crate::aabb::Aabb;
use crate::hitable::HitRecord;
use crate::material::Material;
use crate::ray::Ray;
use crate::scalar::{Scalar, EPSILON_BITS};
use crate::vec3::Vec3;

verus! {

/// A disc round `position` in the plane whose normal is `normal`.
#[derive(Debug)]
pub struct Disc {
    pub position: Vec3,
    pub normal: Vec3,
    pub radius: Scalar,
    pub mat: Material,
}

/// `t` lies strictly between the two bounds.
pub open spec fn strictly_within(t: Scalar, t_min: Scalar, t_max: Scalar) -> bool {
    t.below(t_max) && t_min.below(t)
}

/// Where a ray meets the plane of a disc.
#[derive(Clone, Copy, Debug)]
pub struct Meeting {
    /// The ray parameter of the meeting.
    pub distance: Scalar,
    /// The point of the meeting.
    pub pos: Vec3,
    /// The square of the point's distance from the disc's centre.
    pub offset_squared: Scalar,
    /// The square of the disc's radius.
    pub radius_squared: Scalar,
}

impl Disc {
    /// The ray is not parallel to the plane: the normal times the direction
    /// is farther from zero than the machine epsilon.
    pub open spec fn crosses(denom: Scalar) -> bool {
        !denom.nan() && denom.magnitude() > EPSILON_BITS
    }

    /// The meeting is a hit: within the radius, and strictly between the
    /// bounds.
    pub open spec fn accepts(m: Meeting, min: Scalar, max: Scalar) -> bool {
        m.offset_squared.below(m.radius_squared) && strictly_within(m.distance, min, max)
    }

    /// `out` is what `hit` returns, for some outcome of the calls made.
    pub open spec fn hit_outcome<D: Fn(&Disc, &Ray) -> Scalar, M: Fn(&Disc, &Ray, Scalar) -> Meeting>(
        &self,
        ray: Ray,
        min: Scalar,
        max: Scalar,
        denominator: D,
        meet: M,
        out: Option<HitRecord>,
    ) -> bool {
        exists|denom: Scalar| #![trigger call_ensures(denominator, (self, &ray), denom)]
            {
                &&& call_ensures(denominator, (self, &ray), denom)
                &&& if Self::crosses(denom) {
                    exists|m: Meeting|
                        #![trigger call_ensures(meet, (self, &ray, denom), m)]
                        {
                            &&& call_ensures(meet, (self, &ray, denom), m)
                            &&& out == if Self::accepts(m, min, max) {
                                Some(
                                    HitRecord {
                                        t: m.distance,
                                        pos: m.pos,
                                        normal: self.normal,
                                        mat: &self.mat,
                                        u: Scalar { bits: 0 },
                                        v: Scalar { bits: 0 },
                                    },
                                )
                            } else {
                                None
                            }
                        }
                } else {
                    out.is_none()
                }
            }
    }

    /// The hit of the ray strictly between `min` and `max`. A ray that runs
    /// along the plane hits nothing.
    ///
    /// `denominator(d, r)` is the normal of `d` times the direction of `r`;
    /// `meet(d, r, n)` is where `r` meets the plane of `d`, given that
    /// product.
    pub fn hit<'a, D: Fn(&Disc, &Ray) -> Scalar, M: Fn(&Disc, &Ray, Scalar) -> Meeting>(
        &'a self,
        ray: &Ray,
        min: Scalar,
        max: Scalar,
        denominator: &D,
        meet: &M,
    ) -> (out: Option<HitRecord<'a>>)
        requires
            forall|d: &Disc, r: &Ray| call_requires(*denominator, (d, r)),
            forall|d: &Disc, r: &Ray, n: Scalar| call_requires(*meet, (d, r, n)),
        ensures
            self.hit_outcome(*ray, min, max, *denominator, *meet, out),
    {
        let denom = denominator(self, ray);
        if denom.abs().gt(Scalar::from_bits(EPSILON_BITS)) {
            let m = meet(self, ray, denom);
            if m.offset_squared.lt(m.radius_squared) && m.distance.lt(max) && m.distance.gt(min) {
                Some(
                    HitRecord {
                        t: m.distance,
                        pos: m.pos,
                        normal: self.normal,
                        mat: &self.mat,
                        u: Scalar::zero(),
                        v: Scalar::zero(),
                    },
                )
            } else {
                None
            }
        } else {
            None
        }
    }

    /// `out` is what `bounding_box` returns, for some outcome of the call
    /// made: the cube round the centre whose half side is the radius.
    pub open spec fn box_outcome<C: Fn(Vec3, Scalar) -> Aabb>(&self, cube: C, out: Option<Aabb>) -> bool {
        out.is_some() && call_ensures(cube, (self.position, self.radius), out.unwrap())
    }

    /// The box round the disc.
    ///
    /// `cube(c, h)` is the box from `c - (h, h, h)` to `c + (h, h, h)`.
    pub fn bounding_box<C: Fn(Vec3, Scalar) -> Aabb>(&self, cube: &C) -> (out: Option<Aabb>)
        requires
            forall|c: Vec3, h: Scalar| call_requires(*cube, (c, h)),
        ensures
            self.box_outcome(*cube, out),
    {
        Some(cube(self.position, self.radius))
    }
}

} // verus!
