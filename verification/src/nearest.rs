//! The hierarchy and the plain scan find hits that are equally near.

use vstd::prelude::*;
use crate::aabb::{all_boxed, lemma_slab_test_is_monotone, travel_is_monotone, Aabb};
use crate::bvh::{
    closer, lemma_grown_is_hull, lemma_sorted_same_items, sorted_on, Shape,
};
use crate::hitable::{all_items, nearer, HitRecord, Hitable, HitableStore};
use crate::ray::Ray;
use crate::scalar::Scalar;

verus! {

/// `out` is something that primitive `item` can answer to the ray.
pub open spec fn answers<H: Hitable>(
    prims: Seq<H>,
    item: usize,
    r: Ray,
    tmin: Scalar,
    tmax: Scalar,
    out: Option<HitRecord>,
) -> bool {
    call_ensures(H::hit, (&prims[item as int], &r, tmin, tmax), out)
}

/// Each primitive answers one thing to the ray, and where it is a hit, its
/// `t` is a number.
pub open spec fn steady<H: Hitable>(prims: Seq<H>, r: Ray, tmin: Scalar, tmax: Scalar) -> bool {
    forall|item: usize, a: Option<HitRecord>, b: Option<HitRecord>|
        #![trigger answers(prims, item, r, tmin, tmax, a), answers(prims, item, r, tmin, tmax, b)]
        item < prims.len() && answers(prims, item, r, tmin, tmax, a) && answers(
            prims,
            item,
            r,
            tmin,
            tmax,
            b,
        ) ==> a == b && (a.is_some() ==> !a.unwrap().t.nan())
}

/// The slab test never turns the ray away from the box of a primitive that
/// the ray hits.
pub open spec fn boxes_are_sound<H: Hitable, T: Fn(&Ray, Scalar, usize) -> Scalar>(
    prims: Seq<H>,
    boxes: Seq<Option<Aabb>>,
    r: Ray,
    travel: T,
    tmin: Scalar,
    tmax: Scalar,
) -> bool {
    forall|item: usize, out: Option<HitRecord>|
        #![trigger answers(prims, item, r, tmin, tmax, out)]
        item < prims.len() && answers(prims, item, r, tmin, tmax, out) && out.is_some()
            ==> !boxes[item as int].unwrap().hit_from(r, travel, 0, tmin, tmax, false)
}

/// Every box has, on every axis, a minimum that is at most its maximum.
pub open spec fn boxes_are_ordered(boxes: Seq<Option<Aabb>>) -> bool {
    forall|i: int| 0 <= i < boxes.len() && boxes[i].is_some() ==> (#[trigger] boxes[i]).unwrap().ordered()
}

/// The slab test never turns the ray away from a box around an ordered box
/// that it lets the ray into.
pub open spec fn test_is_monotone<T: Fn(&Ray, Scalar, usize) -> Scalar>(
    r: Ray,
    travel: T,
    tmin: Scalar,
    tmax: Scalar,
) -> bool {
    forall|inner: Aabb, outer: Aabb|
        #![trigger outer.contains(inner)]
        inner.is_number() && outer.is_number() && inner.ordered() && outer.contains(inner)
            && !inner.hit_from(
            r,
            travel,
            0,
            tmin,
            tmax,
            false,
        ) ==> !outer.hit_from(r, travel, 0, tmin, tmax, false)
}

/// `out` is a nearest hit among `items`: where it is a hit, it is the answer
/// of one of them; and where one of them answers with a hit, `out` is a hit
/// that is no farther.
pub open spec fn is_nearest_among<H: Hitable>(
    out: Option<HitRecord>,
    items: Seq<usize>,
    prims: Seq<H>,
    r: Ray,
    tmin: Scalar,
    tmax: Scalar,
) -> bool {
    &&& out.is_some() ==> !out.unwrap().t.nan() && exists|k: int|
        0 <= k < items.len() && #[trigger] answers(prims, items[k], r, tmin, tmax, out)
    &&& forall|k: int, other: Option<HitRecord>|
        #![trigger answers(prims, items[k], r, tmin, tmax, other)]
        0 <= k < items.len() && answers(prims, items[k], r, tmin, tmax, other) && other.is_some()
            ==> out.is_some() && out.unwrap().t.rank() <= other.unwrap().t.rank()
}

/// Two nearest hits among the same primitives are both hits or both none,
/// and equally far.
pub proof fn lemma_nearest_is_unique<H: Hitable>(
    a: Option<HitRecord>,
    b: Option<HitRecord>,
    items: Seq<usize>,
    prims: Seq<H>,
    r: Ray,
    tmin: Scalar,
    tmax: Scalar,
)
    requires
        is_nearest_among(a, items, prims, r, tmin, tmax),
        is_nearest_among(b, items, prims, r, tmin, tmax),
    ensures
        a.is_some() == b.is_some(),
        a.is_some() ==> a.unwrap().t.same(b.unwrap().t),
{
    if a.is_some() {
        let k = choose|k: int|
            0 <= k < items.len() && #[trigger] answers(prims, items[k], r, tmin, tmax, a);
        assert(b.is_some());
    }
    if b.is_some() {
        let k = choose|k: int|
            0 <= k < items.len() && #[trigger] answers(prims, items[k], r, tmin, tmax, b);
        assert(a.is_some());
    }
}

/// What a scan of the first `n` primitives keeps is a nearest hit among them.
pub proof fn lemma_scan_is_nearest<H: Hitable>(
    prims: Seq<H>,
    r: Ray,
    tmin: Scalar,
    tmax: Scalar,
    n: int,
    out: Option<HitRecord>,
)
    requires
        0 <= n <= prims.len() <= usize::MAX,
        steady(prims, r, tmin, tmax),
        HitableStore::<H>::scan_upto(prims, r, tmin, tmax, n, out),
    ensures
        is_nearest_among(out, all_items(n as nat), prims, r, tmin, tmax),
    decreases n,
{
    let items = all_items(n as nat);
    if n > 0 {
        let (kept, candidate) = choose|kept: Option<HitRecord>, candidate: Option<HitRecord>|
            {
                &&& HitableStore::<H>::scan_upto(prims, r, tmin, tmax, n - 1, kept)
                &&& call_ensures(H::hit, (&prims[n - 1], &r, tmin, tmax), candidate)
                &&& out == #[trigger] nearer(kept, candidate)
            };
        lemma_scan_is_nearest(prims, r, tmin, tmax, n - 1, kept);
        let before = all_items((n - 1) as nat);
        let last = (n - 1) as usize;
        assert(items[n - 1] == last);
        assert(answers(prims, last, r, tmin, tmax, candidate));
        if out.is_some() {
            if out == candidate {
                assert(answers(prims, items[n - 1], r, tmin, tmax, out));
            } else {
                let k = choose|k: int|
                    0 <= k < before.len() && #[trigger] answers(prims, before[k], r, tmin, tmax, kept);
                assert(items[k] == before[k]);
                assert(answers(prims, items[k], r, tmin, tmax, out));
            }
        }
        assert forall|k: int, other: Option<HitRecord>|
            #![trigger answers(prims, items[k], r, tmin, tmax, other)]
            0 <= k < items.len() && answers(prims, items[k], r, tmin, tmax, other)
                && other.is_some() implies out.is_some() && out.unwrap().t.rank()
            <= other.unwrap().t.rank() by {
            if k < n - 1 {
                assert(items[k] == before[k]);
                assert(answers(prims, before[k], r, tmin, tmax, other));
            } else {
                assert(other == candidate);
            }
        }
    }
}

/// What a walk of a tree returns is a nearest hit among the tree's items,
/// where the boxes are sound and the slab test is monotone.
pub proof fn lemma_walk_is_nearest<H: Hitable, T: Fn(&Ray, Scalar, usize) -> Scalar>(
    shape: Shape,
    items: Seq<usize>,
    prims: Seq<H>,
    boxes: Seq<Option<Aabb>>,
    r: Ray,
    travel: T,
    tmin: Scalar,
    tmax: Scalar,
    out: Option<HitRecord>,
)
    requires
        shape.grown_from(items, boxes),
        all_boxed(items, boxes),
        boxes_are_ordered(boxes),
        boxes.len() == prims.len(),
        steady(prims, r, tmin, tmax),
        boxes_are_sound(prims, boxes, r, travel, tmin, tmax),
        test_is_monotone(r, travel, tmin, tmax),
        shape.hit_outcome(prims, r, travel, tmin, tmax, out),
    ensures
        is_nearest_among(out, items, prims, r, tmin, tmax),
    decreases shape,
{
    let entered = choose|entered: bool|
        {
            &&& #[trigger] shape.bounds().hit_from(r, travel, 0, tmin, tmax, entered)
            &&& if !entered {
                out.is_none()
            } else {
                match shape {
                    Shape::Leaf { item, .. } => call_ensures(
                        H::hit,
                        (&prims[item as int], &r, tmin, tmax),
                        out,
                    ),
                    Shape::Branch { left, right, .. } => exists|
                        l: Option<HitRecord>,
                        rr: Option<HitRecord>,
                    |
                        #![trigger closer(l, rr)]
                        {
                            &&& left.hit_outcome(prims, r, travel, tmin, tmax, l)
                            &&& right.hit_outcome(prims, r, travel, tmin, tmax, rr)
                            &&& out == closer(l, rr)
                        },
                }
            }
        };
    lemma_grown_is_hull(shape, items, boxes);
    let hull = shape.bounds();
    if !entered {
        assert forall|k: int, other: Option<HitRecord>|
            #![trigger answers(prims, items[k], r, tmin, tmax, other)]
            0 <= k < items.len() && answers(prims, items[k], r, tmin, tmax, other)
                && other.is_some() implies false by {
            let inner = boxes[items[k] as int].unwrap();
            assert(hull.contains(inner));
            assert(inner.ordered());
            assert(!inner.hit_from(r, travel, 0, tmin, tmax, false));
        }
    } else {
        match shape {
            Shape::Leaf { item, .. } => {
                assert(items[0] == item);
                assert(answers(prims, items[0], r, tmin, tmax, out));
            },
            Shape::Branch { left, right, .. } => {
                let (l, rr) = choose|l: Option<HitRecord>, rr: Option<HitRecord>|
                    {
                        &&& left.hit_outcome(prims, r, travel, tmin, tmax, l)
                        &&& right.hit_outcome(prims, r, travel, tmin, tmax, rr)
                        &&& out == #[trigger] closer(l, rr)
                    };
                let half = items.len() as int / 2;
                let (axis, sorted) = choose|axis: int, sorted: Seq<usize>|
                    {
                        &&& 0 <= axis < 3
                        &&& #[trigger] sorted_on(sorted, items, boxes, axis)
                        &&& left.grown_from(sorted.subrange(0, half), boxes)
                        &&& right.grown_from(sorted.subrange(half, items.len() as int), boxes)
                    };
                lemma_sorted_same_items(sorted, items, boxes, axis);
                let first = sorted.subrange(0, half);
                let second = sorted.subrange(half, items.len() as int);
                assert forall|k: int| 0 <= k < first.len() implies (#[trigger] first[k]) < boxes.len()
                    && boxes[first[k] as int].is_some() && boxes[first[k] as int].unwrap().is_number() by {
                    assert(first[k] == sorted[k]);
                    assert(sorted.contains(sorted[k]));
                    assert(items.contains(sorted[k]));
                }
                assert forall|k: int| 0 <= k < second.len() implies (#[trigger] second[k])
                    < boxes.len() && boxes[second[k] as int].is_some()
                    && boxes[second[k] as int].unwrap().is_number() by {
                    assert(second[k] == sorted[k + half]);
                    assert(sorted.contains(sorted[k + half]));
                    assert(items.contains(sorted[k + half]));
                }
                lemma_walk_is_nearest(*left, first, prims, boxes, r, travel, tmin, tmax, l);
                lemma_walk_is_nearest(*right, second, prims, boxes, r, travel, tmin, tmax, rr);
                if out.is_some() {
                    if out == l {
                        let k = choose|k: int|
                            0 <= k < first.len() && #[trigger] answers(
                                prims,
                                first[k],
                                r,
                                tmin,
                                tmax,
                                l,
                            );
                        assert(first[k] == sorted[k]);
                        assert(sorted.contains(first[k]));
                        assert(items.contains(first[k]));
                        let at = choose|at: int| 0 <= at < items.len() && items[at] == first[k];
                        assert(answers(prims, items[at], r, tmin, tmax, out));
                    } else {
                        let k = choose|k: int|
                            0 <= k < second.len() && #[trigger] answers(
                                prims,
                                second[k],
                                r,
                                tmin,
                                tmax,
                                rr,
                            );
                        assert(second[k] == sorted[k + half]);
                        assert(sorted.contains(second[k]));
                        assert(items.contains(second[k]));
                        let at = choose|at: int| 0 <= at < items.len() && items[at] == second[k];
                        assert(answers(prims, items[at], r, tmin, tmax, out));
                    }
                }
                assert forall|k: int, other: Option<HitRecord>|
                    #![trigger answers(prims, items[k], r, tmin, tmax, other)]
                    0 <= k < items.len() && answers(prims, items[k], r, tmin, tmax, other)
                        && other.is_some() implies out.is_some() && out.unwrap().t.rank()
                    <= other.unwrap().t.rank() by {
                    let x = items[k];
                    assert(items.contains(x));
                    assert(sorted.contains(x));
                    let i = choose|i: int| 0 <= i < sorted.len() && sorted[i] == x;
                    if i < half {
                        assert(first[i] == x);
                        assert(answers(prims, first[i], r, tmin, tmax, other));
                    } else {
                        assert(second[i - half] == x);
                        assert(answers(prims, second[i - half], r, tmin, tmax, other));
                    }
                }
            },
        }
    }
}

/// With a monotone `travel` and an interval between two numbers, the slab
/// test is monotone.
pub proof fn lemma_monotone_travel_suffices<T: Fn(&Ray, Scalar, usize) -> Scalar>(
    r: Ray,
    travel: T,
    tmin: Scalar,
    tmax: Scalar,
)
    requires
        travel_is_monotone(r, travel),
        !tmin.nan(),
        !tmax.nan(),
    ensures
        test_is_monotone(r, travel, tmin, tmax),
{
    assert forall|inner: Aabb, outer: Aabb|
        #![trigger outer.contains(inner)]
        inner.is_number() && outer.is_number() && inner.ordered() && outer.contains(inner)
            && !inner.hit_from(r, travel, 0, tmin, tmax, false) implies !outer.hit_from(
        r,
        travel,
        0,
        tmin,
        tmax,
        false,
    ) by {
        lemma_slab_test_is_monotone(inner, outer, r, travel, tmin, tmax);
    }
}

/// For one store and one ray, the walk of a tree built over the store and
/// the scan of the store return hits that are equally far, or both none,
/// where each primitive answers one thing, the boxes are boxes of numbers
/// and sound, and the slab test is monotone.
pub proof fn lemma_tree_agrees_with_scan<H: Hitable, T: Fn(&Ray, Scalar, usize) -> Scalar>(
    shape: Shape,
    prims: Seq<H>,
    boxes: Seq<Option<Aabb>>,
    r: Ray,
    travel: T,
    tmin: Scalar,
    tmax: Scalar,
    from_tree: Option<HitRecord>,
    from_scan: Option<HitRecord>,
)
    requires
        shape.grown_from(all_items(prims.len()), boxes),
        all_boxed(all_items(prims.len()), boxes),
        boxes_are_ordered(boxes),
        boxes.len() == prims.len(),
        steady(prims, r, tmin, tmax),
        boxes_are_sound(prims, boxes, r, travel, tmin, tmax),
        test_is_monotone(r, travel, tmin, tmax),
        shape.hit_outcome(prims, r, travel, tmin, tmax, from_tree),
        HitableStore::<H>::scan_upto(prims, r, tmin, tmax, prims.len() as int, from_scan),
    ensures
        from_tree.is_some() == from_scan.is_some(),
        from_tree.is_some() ==> from_tree.unwrap().t.same(from_scan.unwrap().t),
{
    let items = all_items(prims.len());
    crate::bvh::lemma_grown_fits(shape, items, boxes);
    lemma_walk_is_nearest(shape, items, prims, boxes, r, travel, tmin, tmax, from_tree);
    lemma_scan_is_nearest(prims, r, tmin, tmax, prims.len() as int, from_scan);
    lemma_nearest_is_unique(from_tree, from_scan, items, prims, r, tmin, tmax);
}

} // verus!
