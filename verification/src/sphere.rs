//! The sphere: which root of its quadratic is the hit.

use vstd::prelude::*;
use crate::aabb::Aabb;
use crate::hitable::HitRecord;
use crate::material::Material;
use crate::ray::Ray;
use crate::scalar::Scalar;
use crate::vec3::Vec3;

verus! {

/// A sphere. A radius below zero turns the normals inward.
#[derive(Debug)]
pub struct Sphere {
    pub position: Vec3,
    pub radius: Scalar,
    pub mat: Material,
}

/// What the quadratic of a ray and a sphere gives: the discriminant and the
/// two roots, the nearer first.
#[derive(Clone, Copy, Debug)]
pub struct Roots {
    pub discriminant: Scalar,
    pub root_a: Scalar,
    pub root_b: Scalar,
}

/// The surface of a primitive at a hit.
#[derive(Clone, Copy, Debug)]
pub struct Surface {
    pub pos: Vec3,
    pub normal: Vec3,
    pub u: Scalar,
    pub v: Scalar,
}

/// `t` lies between the two bounds, either included.
pub open spec fn within(t: Scalar, t_min: Scalar, t_max: Scalar) -> bool {
    t_min.at_most(t) && t.at_most(t_max)
}

impl Sphere {
    /// The root at which the ray hits: with a discriminant of at least zero,
    /// the first of the two roots that lies between the bounds, either bound
    /// included.
    pub open spec fn root_of(roots: Roots, t_min: Scalar, t_max: Scalar) -> Option<Scalar> {
        if (Scalar { bits: 0 }).at_most(roots.discriminant) {
            if within(roots.root_a, t_min, t_max) {
                Some(roots.root_a)
            } else if within(roots.root_b, t_min, t_max) {
                Some(roots.root_b)
            } else {
                None
            }
        } else {
            None
        }
    }

    /// The root at which the ray hits, if it hits.
    pub fn root(roots: &Roots, t_min: Scalar, t_max: Scalar) -> (out: Option<Scalar>)
        ensures
            out == Self::root_of(*roots, t_min, t_max),
    {
        if roots.discriminant.ge(Scalar::zero()) {
            if roots.root_a.le(t_max) && roots.root_a.ge(t_min) {
                return Some(roots.root_a);
            }
            if roots.root_b.le(t_max) && roots.root_b.ge(t_min) {
                return Some(roots.root_b);
            }
        }
        None
    }

    /// `out` is what `hit` returns, for some outcome of the calls made: a
    /// record at the root that `root_of` picks, with the surface there and
    /// the sphere's material; nothing where it picks none.
    pub open spec fn hit_outcome<
        Q: Fn(&Sphere, &Ray) -> Roots,
        F: Fn(&Sphere, &Ray, Scalar) -> Surface,
    >(
        &self,
        ray: Ray,
        t_min: Scalar,
        t_max: Scalar,
        solve: Q,
        surface: F,
        out: Option<HitRecord>,
    ) -> bool {
        exists|roots: Roots| #![trigger call_ensures(solve, (self, &ray), roots)]
            {
                &&& call_ensures(solve, (self, &ray), roots)
                &&& match Self::root_of(roots, t_min, t_max) {
                    None => out.is_none(),
                    Some(root) => exists|s: Surface|
                        #![trigger call_ensures(surface, (self, &ray, root), s)]
                        {
                            &&& call_ensures(surface, (self, &ray, root), s)
                            &&& out == Some(
                                HitRecord {
                                    t: root,
                                    pos: s.pos,
                                    normal: s.normal,
                                    mat: &self.mat,
                                    u: s.u,
                                    v: s.v,
                                },
                            )
                        },
                }
            }
    }

    /// The nearest hit of the ray between `t_min` and `t_max`, either included.
    ///
    /// `solve(s, r)` is the discriminant and the two roots of the quadratic of
    /// `r` and `s`; `surface(s, r, t)` is the point of `r` at `t`, the normal
    /// there (the offset from the centre over the radius) and its spherical
    /// coordinates.
    pub fn hit<'a, Q: Fn(&Sphere, &Ray) -> Roots, F: Fn(&Sphere, &Ray, Scalar) -> Surface>(
        &'a self,
        ray: &Ray,
        t_min: Scalar,
        t_max: Scalar,
        solve: &Q,
        surface: &F,
    ) -> (out: Option<HitRecord<'a>>)
        requires
            forall|s: &Sphere, r: &Ray| call_requires(*solve, (s, r)),
            forall|s: &Sphere, r: &Ray, t: Scalar| call_requires(*surface, (s, r, t)),
        ensures
            self.hit_outcome(*ray, t_min, t_max, *solve, *surface, out),
    {
        let roots = solve(self, ray);
        match Self::root(&roots, t_min, t_max) {
            None => None,
            Some(root) => {
                let s = surface(self, ray, root);
                Some(HitRecord { t: root, pos: s.pos, normal: s.normal, mat: &self.mat, u: s.u, v: s.v })
            },
        }
    }

    /// The half side of the sphere's box: the radius without its sign.
    pub fn bounding_radius(&self) -> (r: Scalar)
        ensures
            !r.sign(),
            r.bits == self.radius.magnitude(),
    {
        self.radius.abs()
    }

    /// `out` is what `bounding_box` returns, for some outcome of the call
    /// made: the cube round the centre whose half side is the radius without
    /// its sign.
    pub open spec fn box_outcome<C: Fn(Vec3, Scalar) -> Aabb>(&self, cube: C, out: Option<Aabb>) -> bool {
        out.is_some() && call_ensures(
            cube,
            (self.position, Scalar { bits: self.radius.magnitude() as u32 }),
            out.unwrap(),
        )
    }

    /// The box round the sphere.
    ///
    /// `cube(c, h)` is the box from `c - (h, h, h)` to `c + (h, h, h)`.
    pub fn bounding_box<C: Fn(Vec3, Scalar) -> Aabb>(&self, cube: &C) -> (out: Option<Aabb>)
        requires
            forall|c: Vec3, h: Scalar| call_requires(*cube, (c, h)),
        ensures
            self.box_outcome(*cube, out),
    {
        Some(cube(self.position, self.bounding_radius()))
    }
}

/// A ray that touches a sphere, so that the discriminant is zero and the two
/// roots are one, hits at that root where it lies between the bounds, either
/// bound included.
pub proof fn lemma_tangent_ray_hits(roots: Roots, t_min: Scalar, t_max: Scalar)
    requires
        roots.discriminant.same(Scalar { bits: 0 }),
        roots.root_a == roots.root_b,
        within(roots.root_a, t_min, t_max),
    ensures
        Sphere::root_of(roots, t_min, t_max) == Some(roots.root_a),
{
}

/// Two spheres round one centre whose radii differ in sign only have the
/// same box: whatever `bounding_box` can return for one, it can return for
/// the other.
pub proof fn lemma_box_ignores_sign<C: Fn(Vec3, Scalar) -> Aabb>(
    a: Sphere,
    b: Sphere,
    cube: C,
    out: Option<Aabb>,
)
    requires
        a.position == b.position,
        a.radius.magnitude() == b.radius.magnitude(),
    ensures
        a.box_outcome(cube, out) == b.box_outcome(cube, out),
{
}

} // verus!
