//! What a ray can hit, and the nearest hit among many.

use vstd::prelude::*;
use crate::aabb::{encloses_all, is_hull, lemma_contains_is_an_order, lemma_surrounding_box_is_least, surrounding_box, union_of, Aabb};
use crate::material::Material;
use crate::ray::Ray;
use crate::scalar::Scalar;
use crate::vec3::Vec3;

verus! {

/// Where a ray met a surface.
#[derive(Clone, Copy, Debug)]
pub struct HitRecord<'material> {
    pub t: Scalar,
    pub pos: Vec3,
    pub normal: Vec3,
    pub mat: &'material Material,
    pub u: Scalar,
    pub v: Scalar,
}

/// Anything that a ray can hit.
pub trait Hitable {
    /// The nearest hit of `r` between `t0` and `t1`, if there is one.
    fn hit(&self, r: &Ray, t0: Scalar, t1: Scalar) -> Option<HitRecord>;

    /// A box around the whole of it, if it has one.
    fn bounding_box(&self) -> Option<Aabb>;
}

/// The primitives of a scene, each known by its index.
pub struct HitableStore<H: Hitable> {
    pub items: Vec<H>,
}

/// The indices of a store of `n` primitives, in order.
pub open spec fn all_items(n: nat) -> Seq<usize> {
    Seq::new(n, |i: int| i as usize)
}

/// Folding on from primitive `i`, with the smallest box around the boxes
/// before it in hand, gives the smallest box around all the boxes.
proof fn lemma_fold_from_is_hull<H: Hitable>(
    prims: Seq<H>,
    boxes: Seq<Option<Aabb>>,
    i: int,
    acc: Aabb,
    folded: Option<Aabb>,
)
    requires
        prims.len() <= usize::MAX,
        boxes.len() == prims.len(),
        forall|i: int, b: Option<Aabb>|
            0 <= i < prims.len() && #[trigger] call_ensures(H::bounding_box, (&prims[i],), b) ==> b
                == boxes[i] && b.is_some() && b.unwrap().is_number(),
        1 <= i <= prims.len(),
        is_hull(acc, all_items(i as nat), boxes),
        HitableStore::<H>::fold_from(prims, i, acc, folded),
    ensures
        folded.is_some(),
        is_hull(folded.unwrap(), all_items(prims.len()), boxes),
    decreases prims.len() - i,
{
    if i < prims.len() {
        let b = choose|b: Option<Aabb>|
            {
                &&& #[trigger] call_ensures(H::bounding_box, (&prims[i],), b)
                &&& match b {
                    None => folded.is_none(),
                    Some(next) => HitableStore::<H>::fold_from(
                        prims,
                        i + 1,
                        union_of(acc, next),
                        folded,
                    ),
                }
            };
        let next = b.unwrap();
        let grown = union_of(acc, next);
        let before = all_items(i as nat);
        let after = all_items((i + 1) as nat);
        lemma_surrounding_box_is_least(acc, next, acc);
        assert forall|k: int| 0 <= k < after.len() implies grown.contains(
            boxes[(#[trigger] after[k]) as int].unwrap(),
        ) by {
            if k < i {
                assert(before[k] == after[k]);
                lemma_contains_is_an_order(grown, acc, boxes[before[k] as int].unwrap());
            }
        }
        assert forall|outer: Aabb| #[trigger] encloses_all(outer, after, boxes) implies outer.contains(
            grown,
        ) by {
            assert forall|k: int| 0 <= k < before.len() implies outer.contains(
                boxes[(#[trigger] before[k]) as int].unwrap(),
            ) by {
                assert(before[k] == after[k]);
            }
            assert(encloses_all(outer, before, boxes));
            assert(after[i] == i);
            assert(outer.contains(boxes[after[i] as int].unwrap()));
            lemma_surrounding_box_is_least(acc, next, outer);
        }
        lemma_fold_from_is_hull::<H>(prims, boxes, i + 1, grown, folded);
    }
}

/// Where every primitive reports one box, a box of numbers, folding the
/// boxes of a store that is not empty gives the smallest box around them all.
pub proof fn lemma_fold_is_hull<H: Hitable>(
    prims: Seq<H>,
    boxes: Seq<Option<Aabb>>,
    folded: Option<Aabb>,
)
    requires
        1 <= prims.len() <= usize::MAX,
        boxes.len() == prims.len(),
        forall|i: int, b: Option<Aabb>|
            0 <= i < prims.len() && #[trigger] call_ensures(H::bounding_box, (&prims[i],), b) ==> b
                == boxes[i] && b.is_some() && b.unwrap().is_number(),
        HitableStore::<H>::box_outcome(prims, folded),
    ensures
        folded.is_some(),
        is_hull(folded.unwrap(), all_items(prims.len()), boxes),
{
    let b = choose|b: Option<Aabb>|
        {
            &&& #[trigger] call_ensures(H::bounding_box, (&prims[0],), b)
            &&& match b {
                None => folded.is_none(),
                Some(first) => HitableStore::<H>::fold_from(prims, 1, first, folded),
            }
        };
    let first = b.unwrap();
    let one = all_items(1);
    lemma_contains_is_an_order(first, first, first);
    assert(one[0] == 0);
    assert forall|outer: Aabb| #[trigger] encloses_all(outer, one, boxes) implies outer.contains(
        first,
    ) by {
        assert(outer.contains(boxes[one[0] as int].unwrap()));
    }
    lemma_fold_from_is_hull::<H>(prims, boxes, 1, first, folded);
}

/// A fold that gives a box has asked every primitive, and each gave one.
pub proof fn lemma_fold_asks_all<H: Hitable>(prims: Seq<H>, folded: Option<Aabb>, k: int)
    requires
        HitableStore::<H>::box_outcome(prims, folded),
        folded.is_some(),
        0 <= k < prims.len(),
    ensures
        exists|b: Option<Aabb>| #[trigger] call_ensures(H::bounding_box, (&prims[k],), b) && b.is_some(),
{
    let b = choose|b: Option<Aabb>|
        {
            &&& #[trigger] call_ensures(H::bounding_box, (&prims[0],), b)
            &&& match b {
                None => folded.is_none(),
                Some(first) => HitableStore::<H>::fold_from(prims, 1, first, folded),
            }
        };
    if k > 0 {
        lemma_fold_from_asks::<H>(prims, 1, b.unwrap(), folded, k);
    }
}

proof fn lemma_fold_from_asks<H: Hitable>(
    prims: Seq<H>,
    i: int,
    acc: Aabb,
    folded: Option<Aabb>,
    k: int,
)
    requires
        HitableStore::<H>::fold_from(prims, i, acc, folded),
        folded.is_some(),
        1 <= i <= k < prims.len(),
    ensures
        exists|b: Option<Aabb>| #[trigger] call_ensures(H::bounding_box, (&prims[k],), b) && b.is_some(),
    decreases prims.len() - i,
{
    let b = choose|b: Option<Aabb>|
        {
            &&& #[trigger] call_ensures(H::bounding_box, (&prims[i],), b)
            &&& match b {
                None => folded.is_none(),
                Some(next) => HitableStore::<H>::fold_from(prims, i + 1, union_of(acc, next), folded),
            }
        };
    if i < k {
        lemma_fold_from_asks::<H>(prims, i + 1, union_of(acc, b.unwrap()), folded, k);
    }
}

/// The hit that a scan keeps when `candidate` comes after `kept`: the
/// candidate where nothing was kept or where it is strictly nearer.
pub open spec fn nearer<'m>(kept: Option<HitRecord<'m>>, candidate: Option<HitRecord<'m>>) -> Option<
    HitRecord<'m>,
> {
    match candidate {
        None => kept,
        Some(c) => match kept {
            None => candidate,
            Some(k) => if c.t.below(k.t) {
                candidate
            } else {
                kept
            },
        },
    }
}

/// The hit that a scan keeps when `candidate` comes after `kept`.
pub fn keep_nearer<'m>(kept: Option<HitRecord<'m>>, candidate: Option<HitRecord<'m>>) -> (out: Option<
    HitRecord<'m>,
>)
    ensures
        out == nearer(kept, candidate),
{
    match candidate {
        None => kept,
        Some(c) => match kept {
            None => candidate,
            Some(k) => if c.t.lt(k.t) {
                candidate
            } else {
                kept
            },
        },
    }
}

impl<H: Hitable> HitableStore<H> {
    pub open spec fn view(&self) -> Seq<H> {
        self.items@
    }

    /// `out` is what a scan of the first `n` primitives keeps, for some
    /// outcome of each one's `hit`.
    pub open spec fn scan_upto(
        items: Seq<H>,
        r: Ray,
        tmin: Scalar,
        tmax: Scalar,
        n: int,
        out: Option<HitRecord>,
    ) -> bool
        decreases n,
    {
        if n <= 0 || n > items.len() {
            out.is_none()
        } else {
            exists|kept: Option<HitRecord>, candidate: Option<HitRecord>|
                #![trigger nearer(kept, candidate)]
                {
                    &&& Self::scan_upto(items, r, tmin, tmax, n - 1, kept)
                    &&& call_ensures(H::hit, (&items[n - 1], &r, tmin, tmax), candidate)
                    &&& out == nearer(kept, candidate)
                }
        }
    }

    /// `out` is what folding the boxes from primitive `i` on into `acc`
    /// gives, for some outcome of each one's `bounding_box`: nothing as soon
    /// as one has no box.
    pub open spec fn fold_from(items: Seq<H>, i: int, acc: Aabb, out: Option<Aabb>) -> bool
        decreases items.len() - i,
    {
        if i < 0 || i >= items.len() {
            out == Some(acc)
        } else {
            exists|b: Option<Aabb>|
                #![trigger call_ensures(H::bounding_box, (&items[i],), b)]
                {
                    &&& call_ensures(H::bounding_box, (&items[i],), b)
                    &&& match b {
                        None => out.is_none(),
                        Some(next) => Self::fold_from(items, i + 1, union_of(acc, next), out),
                    }
                }
        }
    }

    /// `out` is the box around all the primitives, for some outcome of each
    /// one's `bounding_box`: nothing for an empty store.
    pub open spec fn box_outcome(items: Seq<H>, out: Option<Aabb>) -> bool {
        if items.len() < 1 {
            out.is_none()
        } else {
            exists|b: Option<Aabb>|
                #![trigger call_ensures(H::bounding_box, (&items[0],), b)]
                {
                    &&& call_ensures(H::bounding_box, (&items[0],), b)
                    &&& match b {
                        None => out.is_none(),
                        Some(first) => Self::fold_from(items, 1, first, out),
                    }
                }
        }
    }

    pub fn new() -> (s: Self)
        ensures
            s@.len() == 0,
    {
        HitableStore { items: Vec::new() }
    }

    pub fn push(&mut self, hitable: H)
        ensures
            final(self)@ == old(self)@.push(hitable),
    {
        self.items.push(hitable)
    }

    pub fn len(&self) -> (n: usize)
        ensures
            n == self@.len(),
    {
        self.items.len()
    }
}

impl<H: Hitable> Hitable for HitableStore<H> {
    /// The nearest hit among all the primitives, each asked in turn: of two
    /// equally near ones, the one asked first.
    fn hit(&self, r: &Ray, tmin: Scalar, tmax: Scalar) -> (out: Option<HitRecord>)
        ensures
            Self::scan_upto(self@, *r, tmin, tmax, self@.len() as int, out),
    {
        let mut hit: Option<HitRecord> = None;
        let mut i: usize = 0;
        while i < self.items.len()
            invariant
                i <= self.items.len(),
                Self::scan_upto(self@, *r, tmin, tmax, i as int, hit),
            decreases self.items.len() - i,
        {
            let candidate = self.items[i].hit(r, tmin, tmax);
            hit = keep_nearer(hit, candidate);
            i += 1;
        }
        hit
    }

    /// The box around all the primitives; nothing where there is none or one
    /// of them has no box.
    fn bounding_box(&self) -> (out: Option<Aabb>)
        ensures
            Self::box_outcome(self@, out),
    {
        if self.items.len() < 1 {
            return None;
        }
        let first = self.items[0].bounding_box();
        match first {
            None => None,
            Some(b) => self.fold_boxes(1, b),
        }
    }
}

impl<H: Hitable> HitableStore<H> {
    fn fold_boxes(&self, i: usize, acc: Aabb) -> (out: Option<Aabb>)
        ensures
            Self::fold_from(self@, i as int, acc, out),
        decreases self@.len() - i,
    {
        if i >= self.items.len() {
            return Some(acc);
        }
        match self.items[i].bounding_box() {
            None => None,
            Some(b) => {
                let next = surrounding_box(&acc, &b);
                self.fold_boxes(i + 1, next)
            },
        }
    }
}

} // verus!
