//! Axis-aligned boxes: the union of two, and the slab test against a ray.

use vstd::prelude::*;
use crate::ray::Ray;
use crate::scalar::Scalar;
use crate::vec3::Vec3;

verus! {

/// A box between two corners.
#[derive(Clone, Copy, Debug, PartialEq, Eq, Structural)]
pub struct Aabb {
    pub min: Vec3,
    pub max: Vec3,
}

/// `a` where `a > b`, else `b`: a NaN on either side gives `b`.
pub open spec fn larger(a: Scalar, b: Scalar) -> Scalar {
    if b.below(a) {
        a
    } else {
        b
    }
}

/// `a` where `a < b`, else `b`: a NaN on either side gives `b`.
pub open spec fn smaller(a: Scalar, b: Scalar) -> Scalar {
    if a.below(b) {
        a
    } else {
        b
    }
}

fn ffmax(a: Scalar, b: Scalar) -> (r: Scalar)
    ensures
        r == larger(a, b),
{
    if a.gt(b) {
        a
    } else {
        b
    }
}

fn ffmin(a: Scalar, b: Scalar) -> (r: Scalar)
    ensures
        r == smaller(a, b),
{
    if a.lt(b) {
        a
    } else {
        b
    }
}

/// The box from the componentwise `smaller` of the two minima to the
/// componentwise `larger` of the two maxima.
pub open spec fn union_of(a: Aabb, b: Aabb) -> Aabb {
    Aabb {
        min: Vec3 {
            x: smaller(a.min.x, b.min.x),
            y: smaller(a.min.y, b.min.y),
            z: smaller(a.min.z, b.min.z),
        },
        max: Vec3 {
            x: larger(a.max.x, b.max.x),
            y: larger(a.max.y, b.max.y),
            z: larger(a.max.z, b.max.z),
        },
    }
}

/// The smallest box around two boxes.
pub fn surrounding_box(box0: &Aabb, box1: &Aabb) -> (b: Aabb)
    ensures
        b == union_of(*box0, *box1),
{
    let small = Vec3::new(
        ffmin(box0.min.x, box1.min.x),
        ffmin(box0.min.y, box1.min.y),
        ffmin(box0.min.z, box1.min.z),
    );
    let big = Vec3::new(
        ffmax(box0.max.x, box1.max.x),
        ffmax(box0.max.y, box1.max.y),
        ffmax(box0.max.z, box1.max.z),
    );
    Aabb { min: small, max: big }
}

/// The box around two boxes of numbers is a box of numbers that contains
/// both, and every box that contains both contains it.
pub proof fn lemma_surrounding_box_is_least(a: Aabb, b: Aabb, c: Aabb)
    requires
        a.is_number(),
        b.is_number(),
    ensures
        union_of(a, b).is_number(),
        union_of(a, b).contains(a),
        union_of(a, b).contains(b),
        c.contains(a) && c.contains(b) ==> c.contains(union_of(a, b)),
{
    let u = union_of(a, b);
    assert forall|axis: int| 0 <= axis < 3 implies #[trigger] u.min.at(axis) == smaller(
        a.min.at(axis),
        b.min.at(axis),
    ) && u.max.at(axis) == larger(a.max.at(axis), b.max.at(axis)) by {}
    assert forall|axis: int| 0 <= axis < 3 implies u.min.at(axis).rank() <= #[trigger] a.min.at(
        axis,
    ).rank() && a.max.at(axis).rank() <= u.max.at(axis).rank() by {
        assert(u.min.at(axis) == smaller(a.min.at(axis), b.min.at(axis)));
    }
    assert forall|axis: int| 0 <= axis < 3 implies u.min.at(axis).rank() <= #[trigger] b.min.at(
        axis,
    ).rank() && b.max.at(axis).rank() <= u.max.at(axis).rank() by {
        assert(u.min.at(axis) == smaller(a.min.at(axis), b.min.at(axis)));
    }
    if c.contains(a) && c.contains(b) {
        assert forall|axis: int| 0 <= axis < 3 implies c.min.at(axis).rank() <= #[trigger] u.min.at(
            axis,
        ).rank() && u.max.at(axis).rank() <= c.max.at(axis).rank() by {
            assert(u.min.at(axis) == smaller(a.min.at(axis), b.min.at(axis)));
            assert(u.max.at(axis) == larger(a.max.at(axis), b.max.at(axis)));
            assert(c.min.at(axis).rank() <= a.min.at(axis).rank());
            assert(c.min.at(axis).rank() <= b.min.at(axis).rank());
            assert(a.max.at(axis).rank() <= c.max.at(axis).rank());
            assert(b.max.at(axis).rank() <= c.max.at(axis).rank());
        }
    }
}

/// A box contains itself, and what is contained in a box that it contains.
pub proof fn lemma_contains_is_an_order(a: Aabb, b: Aabb, c: Aabb)
    ensures
        a.contains(a),
        a.contains(b) && b.contains(c) ==> a.contains(c),
        a.is_number() && b.is_number() && a.contains(b) && b.contains(a) ==> a.same(b),
{
    if a.contains(b) && b.contains(c) {
        assert forall|axis: int| 0 <= axis < 3 implies a.min.at(axis).rank() <= #[trigger] c.min.at(
            axis,
        ).rank() && c.max.at(axis).rank() <= a.max.at(axis).rank() by {
            assert(a.min.at(axis).rank() <= b.min.at(axis).rank());
        }
    }
    if a.is_number() && b.is_number() && a.contains(b) && b.contains(a) {
        assert forall|axis: int| 0 <= axis < 3 implies a.min.at(axis).same(
            #[trigger] b.min.at(axis),
        ) && a.max.at(axis).same(b.max.at(axis)) by {
            assert(b.min.at(axis).rank() <= a.min.at(axis).rank());
        }
    }
}

/// Every one of `items` has a box, and a box of numbers.
pub open spec fn all_boxed(items: Seq<usize>, boxes: Seq<Option<Aabb>>) -> bool {
    forall|k: int|
        0 <= k < items.len() ==> (#[trigger] items[k]) < boxes.len() && boxes[items[k] as int].is_some()
            && boxes[items[k] as int].unwrap().is_number()
}

/// `outer` contains the box of every one of `items`.
pub open spec fn encloses_all(outer: Aabb, items: Seq<usize>, boxes: Seq<Option<Aabb>>) -> bool {
    forall|k: int| 0 <= k < items.len() ==> outer.contains(boxes[(#[trigger] items[k]) as int].unwrap())
}

/// `hull` is the smallest box around the boxes of `items`: it contains each
/// of them, and every box that does so contains it.
pub open spec fn is_hull(hull: Aabb, items: Seq<usize>, boxes: Seq<Option<Aabb>>) -> bool {
    &&& hull.is_number()
    &&& encloses_all(hull, items, boxes)
    &&& forall|outer: Aabb| #[trigger] encloses_all(outer, items, boxes) ==> outer.contains(hull)
}

/// The smallest box around some boxes is one box, up to the sign of a zero.
pub proof fn lemma_hull_is_unique(a: Aabb, b: Aabb, items: Seq<usize>, boxes: Seq<Option<Aabb>>)
    requires
        is_hull(a, items, boxes),
        is_hull(b, items, boxes),
    ensures
        a.same(b),
{
    lemma_contains_is_an_order(a, b, a);
}

impl Aabb {
    /// No corner component is a NaN.
    pub open spec fn is_number(self) -> bool {
        self.min.is_number() && self.max.is_number()
    }

    /// On every axis the minimum is at most the maximum.
    pub open spec fn ordered(self) -> bool {
        forall|axis: int|
            0 <= axis < 3 ==> (#[trigger] self.min.at(axis)).rank() <= self.max.at(axis).rank()
    }

    /// `inner` lies within `self`, on every axis, by value.
    pub open spec fn contains(self, inner: Aabb) -> bool {
        forall|axis: int|
            0 <= axis < 3 ==> self.min.at(axis).rank() <= #[trigger] inner.min.at(axis).rank()
                && inner.max.at(axis).rank() <= self.max.at(axis).rank()
    }

    /// The two boxes have corners of equal value.
    pub open spec fn same(self, other: Aabb) -> bool {
        forall|axis: int|
            0 <= axis < 3 ==> self.min.at(axis).same(#[trigger] other.min.at(axis))
                && self.max.at(axis).same(other.max.at(axis))
    }

    /// The interval from `tmin` to `tmax` after the slab of one axis has cut
    /// it, where the ray meets the slab's planes at `near` and `far`.
    pub open spec fn cut(near: Scalar, far: Scalar, tmin: Scalar, tmax: Scalar) -> (Scalar, Scalar) {
        (larger(smaller(near, far), tmin), smaller(larger(near, far), tmax))
    }

    /// `out` is what the slab test answers from `axis` on, for some outcome
    /// of the calls of `travel` that it makes. On each axis the interval is
    /// cut by the slab; the test fails on the first axis that leaves
    /// `tmax <= tmin`, and asks nothing of the axes after it.
    pub open spec fn hit_from<T: Fn(&Ray, Scalar, usize) -> Scalar>(
        self,
        r: Ray,
        travel: T,
        axis: int,
        tmin: Scalar,
        tmax: Scalar,
        out: bool,
    ) -> bool
        decreases 3 - axis,
    {
        if axis < 0 || axis >= 3 {
            out
        } else {
            exists|near: Scalar, far: Scalar|
                #![trigger
                    call_ensures(travel, (&r, self.min.at(axis), axis as usize), near),
                    call_ensures(travel, (&r, self.max.at(axis), axis as usize), far)]
                {
                    &&& call_ensures(travel, (&r, self.min.at(axis), axis as usize), near)
                    &&& call_ensures(travel, (&r, self.max.at(axis), axis as usize), far)
                    &&& if Aabb::cut(near, far, tmin, tmax).1.at_most(
                        Aabb::cut(near, far, tmin, tmax).0,
                    ) {
                        !out
                    } else {
                        self.hit_from(
                            r,
                            travel,
                            axis + 1,
                            Aabb::cut(near, far, tmin, tmax).0,
                            Aabb::cut(near, far, tmin, tmax).1,
                            out,
                        )
                    }
                }
        }
    }

    fn hit_axis<T: Fn(&Ray, Scalar, usize) -> Scalar>(
        &self,
        r: &Ray,
        travel: &T,
        axis: usize,
        tmin: Scalar,
        tmax: Scalar,
    ) -> (out: bool)
        requires
            axis <= 3,
            forall|c: Scalar, a: usize| a < 3 ==> call_requires(*travel, (r, c, a)),
        ensures
            self.hit_from(*r, *travel, axis as int, tmin, tmax, out),
        decreases 3 - axis,
    {
        if axis >= 3 {
            return true;
        }
        let near = travel(r, self.min.get(axis), axis);
        let far = travel(r, self.max.get(axis), axis);
        let t0 = ffmin(near, far);
        let t1 = ffmax(near, far);
        let lo = ffmax(t0, tmin);
        let hi = ffmin(t1, tmax);
        if hi.le(lo) {
            return false;
        }
        let out = self.hit_axis(r, travel, axis + 1, lo, hi);
        out
    }

    /// Whether the ray passes through the box between `tmin` and `tmax`.
    ///
    /// `travel(r, c, a)` is the ray parameter at which `r` meets the plane
    /// where coordinate `a` is `c`: `(c - origin[a]) / direction[a]`.
    pub fn hit<T: Fn(&Ray, Scalar, usize) -> Scalar>(
        &self,
        r: &Ray,
        travel: &T,
        tmin: Scalar,
        tmax: Scalar,
    ) -> (out: bool)
        requires
            forall|c: Scalar, a: usize| a < 3 ==> call_requires(*travel, (r, c, a)),
        ensures
            self.hit_from(*r, *travel, 0, tmin, tmax, out),
    {
        self.hit_axis(r, travel, 0, tmin, tmax)
    }
}

/// `travel` has an answer for the coordinate on the axis.
pub open spec fn travel_answers<T: Fn(&Ray, Scalar, usize) -> Scalar>(
    r: Ray,
    travel: T,
    c: Scalar,
    axis: usize,
) -> bool {
    exists|t: Scalar| #[trigger] call_ensures(travel, (&r, c, axis), t)
}

/// Along the ray, `travel` answers for every coordinate on every axis, with
/// a number.
pub open spec fn travel_is_total<T: Fn(&Ray, Scalar, usize) -> Scalar>(r: Ray, travel: T) -> bool {
    &&& forall|c: Scalar, axis: usize| axis < 3 ==> #[trigger] travel_answers(r, travel, c, axis)
    &&& forall|c: Scalar, axis: usize, t: Scalar|
        axis < 3 && #[trigger] call_ensures(travel, (&r, c, axis), t) ==> !t.nan()
}

/// On `axis`, a greater coordinate is met no sooner.
pub open spec fn travel_rises<T: Fn(&Ray, Scalar, usize) -> Scalar>(r: Ray, travel: T, axis: usize) -> bool {
    forall|c1: Scalar, c2: Scalar, t1: Scalar, t2: Scalar|
        #![trigger call_ensures(travel, (&r, c1, axis), t1), call_ensures(travel, (&r, c2, axis), t2)]
        c1.rank() <= c2.rank() && call_ensures(travel, (&r, c1, axis), t1) && call_ensures(
            travel,
            (&r, c2, axis),
            t2,
        ) ==> t1.rank() <= t2.rank()
}

/// On `axis`, a greater coordinate is met no later.
pub open spec fn travel_falls<T: Fn(&Ray, Scalar, usize) -> Scalar>(r: Ray, travel: T, axis: usize) -> bool {
    forall|c1: Scalar, c2: Scalar, t1: Scalar, t2: Scalar|
        #![trigger call_ensures(travel, (&r, c1, axis), t1), call_ensures(travel, (&r, c2, axis), t2)]
        c1.rank() <= c2.rank() && call_ensures(travel, (&r, c1, axis), t1) && call_ensures(
            travel,
            (&r, c2, axis),
            t2,
        ) ==> t2.rank() <= t1.rank()
}

/// Along the ray, `travel` is total, and on each axis it rises or falls.
pub open spec fn travel_is_monotone<T: Fn(&Ray, Scalar, usize) -> Scalar>(r: Ray, travel: T) -> bool {
    &&& travel_is_total(r, travel)
    &&& forall|axis: usize|
        axis < 3 ==> #[trigger] travel_rises(r, travel, axis) || travel_falls(r, travel, axis)
}

/// Where the slab test can turn the ray away from a box, from some axis on
/// and with some interval, it can turn it away from every ordered box of
/// numbers within that box, with any interval within that interval.
pub proof fn lemma_slab_test_narrows<T: Fn(&Ray, Scalar, usize) -> Scalar>(
    inner: Aabb,
    outer: Aabb,
    r: Ray,
    travel: T,
    axis: int,
    inner_min: Scalar,
    inner_max: Scalar,
    outer_min: Scalar,
    outer_max: Scalar,
)
    requires
        travel_is_monotone(r, travel),
        inner.is_number(),
        outer.is_number(),
        inner.ordered(),
        outer.contains(inner),
        0 <= axis <= 3,
        !inner_min.nan() && !inner_max.nan() && !outer_min.nan() && !outer_max.nan(),
        outer_min.rank() <= inner_min.rank(),
        inner_max.rank() <= outer_max.rank(),
        outer.hit_from(r, travel, axis, outer_min, outer_max, false),
    ensures
        inner.hit_from(r, travel, axis, inner_min, inner_max, false),
    decreases 3 - axis,
{
    if axis < 3 {
        let a = axis as usize;
        let (near_o, far_o) = choose|near: Scalar, far: Scalar|
            #![trigger
                call_ensures(travel, (&r, outer.min.at(axis), axis as usize), near),
                call_ensures(travel, (&r, outer.max.at(axis), axis as usize), far)]
            {
                &&& call_ensures(travel, (&r, outer.min.at(axis), axis as usize), near)
                &&& call_ensures(travel, (&r, outer.max.at(axis), axis as usize), far)
                &&& if Aabb::cut(near, far, outer_min, outer_max).1.at_most(
                    Aabb::cut(near, far, outer_min, outer_max).0,
                ) {
                    true
                } else {
                    outer.hit_from(
                        r,
                        travel,
                        axis + 1,
                        Aabb::cut(near, far, outer_min, outer_max).0,
                        Aabb::cut(near, far, outer_min, outer_max).1,
                        false,
                    )
                }
            };
        assert(travel_answers(r, travel, inner.min.at(axis), a));
        assert(travel_answers(r, travel, inner.max.at(axis), a));
        let near_i = choose|t: Scalar| #[trigger] call_ensures(travel, (&r, inner.min.at(axis), a), t);
        let far_i = choose|t: Scalar| #[trigger] call_ensures(travel, (&r, inner.max.at(axis), a), t);
        assert(call_ensures(travel, (&r, inner.min.at(axis), a), near_i));
        assert(call_ensures(travel, (&r, inner.max.at(axis), a), far_i));
        assert(outer.min.at(axis).rank() <= inner.min.at(axis).rank());
        assert(inner.min.at(axis).rank() <= inner.max.at(axis).rank());
        assert(inner.max.at(axis).rank() <= outer.max.at(axis).rank());
        assert(travel_rises(r, travel, a) || travel_falls(r, travel, a));
        let cut_i = Aabb::cut(near_i, far_i, inner_min, inner_max);
        let cut_o = Aabb::cut(near_o, far_o, outer_min, outer_max);
        assert(!near_o.nan() && !far_o.nan() && !near_i.nan() && !far_i.nan());
        if travel_rises(r, travel, a) {
            assert(near_o.rank() <= near_i.rank());
            assert(near_i.rank() <= far_i.rank());
            assert(far_i.rank() <= far_o.rank());
        } else {
            assert(near_i.rank() <= near_o.rank());
            assert(far_i.rank() <= near_i.rank());
            assert(far_o.rank() <= far_i.rank());
        }
        assert(cut_o.0.rank() <= cut_i.0.rank());
        assert(cut_i.1.rank() <= cut_o.1.rank());
        if !cut_i.1.at_most(cut_i.0) {
            lemma_slab_test_narrows(inner, outer, r, travel, axis + 1, cut_i.0, cut_i.1, cut_o.0, cut_o.1);
        }
    }
}

/// With a monotone `travel`, a ray that the slab test cannot turn away from
/// an ordered box of numbers cannot be turned away from a box of numbers
/// around it.
pub proof fn lemma_slab_test_is_monotone<T: Fn(&Ray, Scalar, usize) -> Scalar>(
    inner: Aabb,
    outer: Aabb,
    r: Ray,
    travel: T,
    tmin: Scalar,
    tmax: Scalar,
)
    requires
        travel_is_monotone(r, travel),
        inner.is_number(),
        outer.is_number(),
        inner.ordered(),
        outer.contains(inner),
        !tmin.nan(),
        !tmax.nan(),
        !inner.hit_from(r, travel, 0, tmin, tmax, false),
    ensures
        !outer.hit_from(r, travel, 0, tmin, tmax, false),
{
    if outer.hit_from(r, travel, 0, tmin, tmax, false) {
        lemma_slab_test_narrows(inner, outer, r, travel, 0, tmin, tmax, tmin, tmax);
    }
}

} // verus!
