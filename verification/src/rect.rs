//! The rectangle in a coordinate plane.

use vstd::prelude::*;
use crate::aabb::Aabb;
use crate::hitable::HitRecord;
use crate::material::Material;
use crate::ray::Ray;
use crate::scalar::{Scalar, ONE_BITS};
use crate::vec3::Vec3;

verus! {

/// One of the three coordinate planes.
#[derive(Clone, Copy, Debug, PartialEq, Eq, Structural)]
pub enum Plane {
    XY,
    YZ,
    XZ,
}

/// A rectangle in the plane where coordinate `k_idx` is `k`, between
/// `a_bound` on axis `a_idx` and `b_bound` on axis `b_idx`.
#[derive(Debug)]
pub struct Rect {
    pub a_bound: (Scalar, Scalar),
    pub b_bound: (Scalar, Scalar),
    pub a_idx: usize,
    pub b_idx: usize,
    pub k_idx: usize,
    pub plane: Plane,
    pub plane_normal: Vec3,
    pub k: Scalar,
    pub mat: Material,
}

/// `a` lies between the two bounds, either included. A NaN does too: no
/// comparison turns it away.
pub open spec fn not_outside(a: Scalar, bound: (Scalar, Scalar)) -> bool {
    !a.below(bound.0) && !bound.1.below(a)
}

impl Rect {
    /// The axes belong to the plane, and the normal is the unit vector along
    /// the plane's fixed axis, one way or the other.
    pub open spec fn wf(&self) -> bool {
        &&& match self.plane {
            Plane::XY => self.a_idx == 0 && self.b_idx == 1 && self.k_idx == 2,
            Plane::YZ => self.a_idx == 1 && self.b_idx == 2 && self.k_idx == 0,
            Plane::XZ => self.a_idx == 0 && self.b_idx == 2 && self.k_idx == 1,
        }
        &&& self.plane_normal.at(self.a_idx as int).magnitude() == 0
        &&& self.plane_normal.at(self.b_idx as int).magnitude() == 0
        &&& self.plane_normal.at(self.k_idx as int).magnitude() == ONE_BITS
    }

    /// The normal points up the plane's fixed axis.
    pub open spec fn faces_up(&self) -> bool {
        !self.plane_normal.x.sign() && !self.plane_normal.y.sign() && !self.plane_normal.z.sign()
    }

    /// Turns the normal round.
    pub fn flip_normals(&mut self)
        ensures
            old(self).wf() ==> final(self).wf(),
            final(self).plane_normal == old(self).plane_normal.negated(),
            final(self).a_idx == old(self).a_idx,
            final(self).b_idx == old(self).b_idx,
            final(self).k_idx == old(self).k_idx,
            final(self).plane_normal.x.magnitude() == old(self).plane_normal.x.magnitude(),
            final(self).plane_normal.y.magnitude() == old(self).plane_normal.y.magnitude(),
            final(self).plane_normal.z.magnitude() == old(self).plane_normal.z.magnitude(),
            final(self).plane_normal.x.sign() == !old(self).plane_normal.x.sign(),
            final(self).plane_normal.y.sign() == !old(self).plane_normal.y.sign(),
            final(self).plane_normal.z.sign() == !old(self).plane_normal.z.sign(),
            final(self).a_bound == old(self).a_bound,
            final(self).b_bound == old(self).b_bound,
            final(self).plane == old(self).plane,
            final(self).k == old(self).k,
            final(self).mat == old(self).mat,
    {
        self.plane_normal = self.plane_normal.neg();
    }

    /// A rectangle in the plane where z is `k`, between bounds on x and y.
    pub fn new_xy(a_bound: (Scalar, Scalar), b_bound: (Scalar, Scalar), k: Scalar, mat: Material) -> (r:
        Self)
        ensures
            r.wf(),
            r.faces_up(),
            r.plane == Plane::XY,
            r.a_bound == a_bound,
            r.b_bound == b_bound,
            r.k == k,
            r.mat == mat,
    {
        Self::new(a_bound, b_bound, Plane::XY, k, mat)
    }

    /// A rectangle in the plane where x is `k`, between bounds on y and z.
    pub fn new_yz(a_bound: (Scalar, Scalar), b_bound: (Scalar, Scalar), k: Scalar, mat: Material) -> (r:
        Self)
        ensures
            r.wf(),
            r.faces_up(),
            r.plane == Plane::YZ,
            r.a_bound == a_bound,
            r.b_bound == b_bound,
            r.k == k,
            r.mat == mat,
    {
        Self::new(a_bound, b_bound, Plane::YZ, k, mat)
    }

    /// A rectangle in the plane where y is `k`, between bounds on x and z.
    pub fn new_xz(a_bound: (Scalar, Scalar), b_bound: (Scalar, Scalar), k: Scalar, mat: Material) -> (r:
        Self)
        ensures
            r.wf(),
            r.faces_up(),
            r.plane == Plane::XZ,
            r.a_bound == a_bound,
            r.b_bound == b_bound,
            r.k == k,
            r.mat == mat,
    {
        Self::new(a_bound, b_bound, Plane::XZ, k, mat)
    }

    fn new(a_bound: (Scalar, Scalar), b_bound: (Scalar, Scalar), plane: Plane, k: Scalar, mat: Material) -> (r:
        Self)
        ensures
            r.wf(),
            r.faces_up(),
            r.plane == plane,
            r.a_bound == a_bound,
            r.b_bound == b_bound,
            r.k == k,
            r.mat == mat,
    {
        let zero = Scalar::zero();
        let one = Scalar::one();
        let (a_idx, b_idx, k_idx, plane_normal): (usize, usize, usize, Vec3) = match plane {
            Plane::XY => (0, 1, 2, Vec3::new(zero, zero, one)),
            Plane::YZ => (1, 2, 0, Vec3::new(one, zero, zero)),
            Plane::XZ => (0, 2, 1, Vec3::new(zero, one, zero)),
        };
        Self { a_bound, b_bound, a_idx, b_idx, k_idx, plane, plane_normal, k, mat }
    }

    /// `out` is what `hit` returns, for some outcome of the calls made. The
    /// ray meets the plane at `t`; below `t0` or above `t1` it hits nothing;
    /// nor where it meets the plane outside the bounds on either axis. Else
    /// the record holds `t`, the point there, the plane's normal, and the
    /// fractions of the way across the two bounds.
    pub open spec fn hit_outcome<
        T: Fn(&Ray, Scalar, usize) -> Scalar,
        P: Fn(&Ray, Scalar, usize) -> Scalar,
        F: Fn(Scalar, Scalar, Scalar) -> Scalar,
    >(
        &self,
        r: Ray,
        t0: Scalar,
        t1: Scalar,
        travel: T,
        along: P,
        fraction: F,
        out: Option<HitRecord>,
    ) -> bool {
        exists|t: Scalar| #![trigger call_ensures(travel, (&r, self.k, self.k_idx), t)]
            {
                &&& call_ensures(travel, (&r, self.k, self.k_idx), t)
                &&& if t.below(t0) || t1.below(t) {
                    out.is_none()
                } else {
                    exists|x: Scalar, y: Scalar, z: Scalar|
                        #![trigger
                            call_ensures(along, (&r, t, 0usize), x),
                            call_ensures(along, (&r, t, 1usize), y),
                            call_ensures(along, (&r, t, 2usize), z)]
                        {
                            &&& call_ensures(along, (&r, t, 0usize), x)
                            &&& call_ensures(along, (&r, t, 1usize), y)
                            &&& call_ensures(along, (&r, t, 2usize), z)
                            &&& self.placed(t, Vec3 { x, y, z }, fraction, out)
                        }
                }
            }
    }

    /// `out` is what `hit` returns once the point where the ray meets the
    /// plane is known.
    pub open spec fn placed<F: Fn(Scalar, Scalar, Scalar) -> Scalar>(
        &self,
        t: Scalar,
        pos: Vec3,
        fraction: F,
        out: Option<HitRecord>,
    ) -> bool {
        let a = pos.at(self.a_idx as int);
        let b = pos.at(self.b_idx as int);
        if not_outside(a, self.a_bound) && not_outside(b, self.b_bound) {
            exists|u: Scalar, v: Scalar|
                #![trigger
                    call_ensures(fraction, (a, self.a_bound.0, self.a_bound.1), u),
                    call_ensures(fraction, (b, self.b_bound.0, self.b_bound.1), v)]
                {
                    &&& call_ensures(fraction, (a, self.a_bound.0, self.a_bound.1), u)
                    &&& call_ensures(fraction, (b, self.b_bound.0, self.b_bound.1), v)
                    &&& out == Some(
                        HitRecord { t, pos, normal: self.plane_normal, mat: &self.mat, u, v },
                    )
                }
        } else {
            out.is_none()
        }
    }

    /// The hit of the ray between `t0` and `t1`.
    ///
    /// `travel(r, c, a)` is the ray parameter at which `r` meets the plane
    /// where coordinate `a` is `c`; `along(r, t, a)` is coordinate `a` of the
    /// point of `r` at `t`; `fraction(x, lo, hi)` is `(x - lo) / (hi - lo)`.
    pub fn hit<
        'a,
        T: Fn(&Ray, Scalar, usize) -> Scalar,
        P: Fn(&Ray, Scalar, usize) -> Scalar,
        F: Fn(Scalar, Scalar, Scalar) -> Scalar,
    >(
        &'a self,
        r: &Ray,
        t0: Scalar,
        t1: Scalar,
        travel: &T,
        along: &P,
        fraction: &F,
    ) -> (out: Option<HitRecord<'a>>)
        requires
            self.wf(),
            forall|r: &Ray, c: Scalar, a: usize| a < 3 ==> call_requires(*travel, (r, c, a)),
            forall|r: &Ray, t: Scalar, a: usize| a < 3 ==> call_requires(*along, (r, t, a)),
            forall|x: Scalar, lo: Scalar, hi: Scalar| call_requires(*fraction, (x, lo, hi)),
        ensures
            self.hit_outcome(*r, t0, t1, *travel, *along, *fraction, out),
    {
        let t = travel(r, self.k, self.k_idx);
        if t.lt(t0) || t.gt(t1) {
            return None;
        }
        let x = along(r, t, 0);
        let y = along(r, t, 1);
        let z = along(r, t, 2);
        let pos = Vec3::new(x, y, z);
        let a = pos.get(self.a_idx);
        if a.lt(self.a_bound.0) || a.gt(self.a_bound.1) {
            return None;
        }
        let b = pos.get(self.b_idx);
        if b.lt(self.b_bound.0) || b.gt(self.b_bound.1) {
            return None;
        }
        let u = fraction(a, self.a_bound.0, self.a_bound.1);
        let v = fraction(b, self.b_bound.0, self.b_bound.1);
        let out = Some(HitRecord { t, pos, normal: self.plane_normal, mat: &self.mat, u, v });
        out
    }

    /// The box from `(a_min, b_min, k_min)` to `(a_max, b_max, k_max)`, each
    /// on its own axis of the plane.
    pub open spec fn box_of(&self, k_min: Scalar, k_max: Scalar) -> Aabb {
        let (a_min, a_max) = self.a_bound;
        let (b_min, b_max) = self.b_bound;
        match self.plane {
            Plane::XY => Aabb {
                min: Vec3 { x: a_min, y: b_min, z: k_min },
                max: Vec3 { x: a_max, y: b_max, z: k_max },
            },
            Plane::YZ => Aabb {
                min: Vec3 { x: k_min, y: a_min, z: b_min },
                max: Vec3 { x: k_max, y: a_max, z: b_max },
            },
            Plane::XZ => Aabb {
                min: Vec3 { x: a_min, y: k_min, z: b_min },
                max: Vec3 { x: a_max, y: k_max, z: b_max },
            },
        }
    }

    /// `out` is what `bounding_box` returns, for some outcome of the call
    /// made.
    pub open spec fn box_outcome<W: Fn(Scalar) -> (Scalar, Scalar)>(&self, pad: W, out: Option<Aabb>) -> bool {
        exists|k_min: Scalar, k_max: Scalar|
            #![trigger call_ensures(pad, (self.k,), (k_min, k_max))]
            call_ensures(pad, (self.k,), (k_min, k_max)) && out == Some(self.box_of(k_min, k_max))
    }

    /// The box round the rectangle, given a little thickness across its
    /// plane.
    ///
    /// `pad(k)` is `k - 0.0001` and `k + 0.0001`.
    pub fn bounding_box<W: Fn(Scalar) -> (Scalar, Scalar)>(&self, pad: &W) -> (out: Option<Aabb>)
        requires
            forall|k: Scalar| call_requires(*pad, (k,)),
        ensures
            self.box_outcome(*pad, out),
    {
        let a_min = self.a_bound.0;
        let a_max = self.a_bound.1;
        let b_min = self.b_bound.0;
        let b_max = self.b_bound.1;
        let (k_min, k_max) = pad(self.k);
        let (min, max) = match self.plane {
            Plane::XY => (Vec3::new(a_min, b_min, k_min), Vec3::new(a_max, b_max, k_max)),
            Plane::YZ => (Vec3::new(k_min, a_min, b_min), Vec3::new(k_max, a_max, b_max)),
            Plane::XZ => (Vec3::new(a_min, k_min, b_min), Vec3::new(a_max, k_max, b_max)),
        };
        Some(Aabb { min, max })
    }
}

} // verus!
