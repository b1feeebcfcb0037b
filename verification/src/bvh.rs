//! The bounding-volume hierarchy: a binary tree of boxes over the primitives
//! of a store, built by median splits and walked for the nearest hit.

use vstd::prelude::*;
use crate::aabb::{all_boxed, encloses_all, is_hull, surrounding_box, union_of, Aabb};
use crate::hitable::{all_items, HitRecord, Hitable, HitableStore};
use crate::ray::Ray;
use crate::scalar::Scalar;
use crate::utils::{lex_sorted, random_below, sort_pairs};

verus! {

/// The rank of the minimum of a primitive's box on an axis.
pub open spec fn min_rank(boxes: Seq<Option<Aabb>>, item: usize, axis: int) -> i64 {
    boxes[item as int].unwrap().min.at(axis).rank() as i64
}

/// Each of `items` with the rank of its box's minimum on `axis` before it and
/// its place among `items` behind it.
pub open spec fn keyed(items: Seq<usize>, boxes: Seq<Option<Aabb>>, axis: int) -> Seq<(i64, usize)> {
    Seq::new(items.len(), |k: int| (min_rank(boxes, items[k], axis), k as usize))
}

/// `order` holds the pairs of `keyed` in ascending order, and `sorted` the
/// items in that order.
pub open spec fn arranged(
    order: Seq<(i64, usize)>,
    sorted: Seq<usize>,
    items: Seq<usize>,
    boxes: Seq<Option<Aabb>>,
    axis: int,
) -> bool {
    &&& items.len() <= usize::MAX
    &&& order.to_multiset() == keyed(items, boxes, axis).to_multiset()
    &&& lex_sorted(order)
    &&& sorted.len() == items.len()
    &&& forall|i: int| 0 <= i < sorted.len() ==> #[trigger] sorted[i] == items[order[i].1 as int]
}

/// `sorted` is `items` in the order of their boxes' minima on `axis`, items of
/// equal minimum in the order they had.
pub open spec fn sorted_on(
    sorted: Seq<usize>,
    items: Seq<usize>,
    boxes: Seq<Option<Aabb>>,
    axis: int,
) -> bool {
    exists|order: Seq<(i64, usize)>| arranged(order, sorted, items, boxes, axis)
}

/// The tree that a hierarchy is: its mathematical model.
pub enum Shape {
    /// One primitive of the store, with the box it reported.
    Leaf { item: usize, aabb: Aabb },
    /// Two subtrees under the box around both.
    Branch { aabb: Aabb, left: Box<Shape>, right: Box<Shape> },
}

/// The nearer of the hits of two subtrees: the left one where it is
/// strictly nearer or the right subtree has none, else the right one.
pub open spec fn closer<'m>(left: Option<HitRecord<'m>>, right: Option<HitRecord<'m>>) -> Option<
    HitRecord<'m>,
> {
    match left {
        Some(l) => match right {
            Some(r) => if l.t.below(r.t) {
                left
            } else {
                right
            },
            None => left,
        },
        None => right,
    }
}

impl Shape {
    /// The box at the root.
    pub open spec fn bounds(self) -> Aabb {
        match self {
            Shape::Leaf { aabb, .. } => aabb,
            Shape::Branch { aabb, .. } => aabb,
        }
    }

    /// The primitives at the leaves, from left to right.
    pub open spec fn items(self) -> Seq<usize>
        decreases self,
    {
        match self {
            Shape::Leaf { item, .. } => seq![item],
            Shape::Branch { left, right, .. } => left.items() + right.items(),
        }
    }

    /// The number of leaves.
    pub open spec fn leaves(self) -> nat
        decreases self,
    {
        match self {
            Shape::Leaf { .. } => 1,
            Shape::Branch { left, right, .. } => left.leaves() + right.leaves(),
        }
    }

    /// Every leaf names a primitive below `n`.
    pub open spec fn within(self, n: int) -> bool
        decreases self,
    {
        match self {
            Shape::Leaf { item, .. } => item < n,
            Shape::Branch { left, right, .. } => left.within(n) && right.within(n),
        }
    }

    /// The tree is one that building over `items` can give, for some choice
    /// of an axis at each branch: a single item is a leaf with its box; more
    /// are sorted on the axis and split at the middle, the first half going
    /// left, and the branch's box is the union of its children's.
    pub open spec fn grown_from(self, items: Seq<usize>, boxes: Seq<Option<Aabb>>) -> bool
        decreases self,
    {
        match self {
            Shape::Leaf { item, aabb } => {
                &&& items.len() == 1
                &&& item == items[0]
                &&& item < boxes.len()
                &&& boxes[item as int] == Some(aabb)
            },
            Shape::Branch { aabb, left, right } => {
                &&& items.len() >= 2
                &&& aabb == union_of(left.bounds(), right.bounds())
                &&& exists|axis: int, sorted: Seq<usize>|
                    #![trigger sorted_on(sorted, items, boxes, axis)]
                    {
                        &&& 0 <= axis < 3
                        &&& sorted_on(sorted, items, boxes, axis)
                        &&& left.grown_from(sorted.subrange(0, items.len() as int / 2), boxes)
                        &&& right.grown_from(
                            sorted.subrange(items.len() as int / 2, items.len() as int),
                            boxes,
                        )
                    }
            },
        }
    }

    /// `out` is what a walk of the tree returns for the ray, for some outcome
    /// of the calls it makes. A node whose box the ray misses is skipped with
    /// all below it; a leaf hands the ray to its primitive; a branch asks both
    /// subtrees and keeps the `closer` hit.
    pub open spec fn hit_outcome<H: Hitable, T: Fn(&Ray, Scalar, usize) -> Scalar>(
        self,
        prims: Seq<H>,
        r: Ray,
        travel: T,
        tmin: Scalar,
        tmax: Scalar,
        out: Option<HitRecord>,
    ) -> bool
        decreases self,
    {
        exists|entered: bool|
            #![trigger self.bounds().hit_from(r, travel, 0, tmin, tmax, entered)]
            {
                &&& self.bounds().hit_from(r, travel, 0, tmin, tmax, entered)
                &&& if !entered {
                    out.is_none()
                } else {
                    match self {
                        Shape::Leaf { item, .. } => call_ensures(
                            H::hit,
                            (&prims[item as int], &r, tmin, tmax),
                            out,
                        ),
                        Shape::Branch { left, right, .. } => exists|
                            l: Option<HitRecord>,
                            rr: Option<HitRecord>,
                        |
                            #![trigger closer(l, rr)]
                            {
                                &&& left.hit_outcome(prims, r, travel, tmin, tmax, l)
                                &&& right.hit_outcome(prims, r, travel, tmin, tmax, rr)
                                &&& out == closer(l, rr)
                            },
                    }
                }
            }
    }
}

/// Sorting keeps the items: as many come out as went in, and the same ones.
pub proof fn lemma_sorted_same_items(
    sorted: Seq<usize>,
    items: Seq<usize>,
    boxes: Seq<Option<Aabb>>,
    axis: int,
)
    requires
        sorted_on(sorted, items, boxes, axis),
    ensures
        sorted.len() == items.len(),
        forall|x: usize|
            #![trigger sorted.contains(x)]
            #![trigger items.contains(x)]
            sorted.contains(x) <==> items.contains(x),
{
    let order = choose|order: Seq<(i64, usize)>| arranged(order, sorted, items, boxes, axis);
    let all = keyed(items, boxes, axis);
    vstd::seq_lib::to_multiset_len(order);
    vstd::seq_lib::to_multiset_len(all);
    assert forall|x: usize| sorted.contains(x) implies items.contains(x) by {
        let i = choose|i: int| 0 <= i < sorted.len() && sorted[i] == x;
        let pair = order[i];
        assert(order.contains(pair));
        vstd::seq_lib::to_multiset_contains(order, pair);
        vstd::seq_lib::to_multiset_contains(all, pair);
        let at = choose|at: int| 0 <= at < all.len() && all[at] == pair;
        assert(all[at].1 == at);
        assert(items[order[i].1 as int] == x);
    }
    assert forall|x: usize| items.contains(x) implies sorted.contains(x) by {
        let k = choose|k: int| 0 <= k < items.len() && items[k] == x;
        let pair = all[k];
        assert(all.contains(pair));
        vstd::seq_lib::to_multiset_contains(order, pair);
        vstd::seq_lib::to_multiset_contains(all, pair);
        let i = choose|i: int| 0 <= i < order.len() && order[i] == pair;
        assert(sorted[i] == items[order[i].1 as int]);
        assert(sorted[i] == x);
    }
}

/// A tree grown from items has as many leaves as there are items, and its
/// leaves hold those items and no others.
pub proof fn lemma_grown_counts(shape: Shape, items: Seq<usize>, boxes: Seq<Option<Aabb>>)
    requires
        shape.grown_from(items, boxes),
    ensures
        shape.leaves() == items.len(),
        shape.items().len() == items.len(),
        forall|x: usize|
            #![trigger shape.items().contains(x)]
            #![trigger items.contains(x)]
            shape.items().contains(x) <==> items.contains(x),
    decreases shape,
{
    match shape {
        Shape::Leaf { item, .. } => {
            assert(shape.items()[0] == item);
            assert forall|x: usize| items.contains(x) implies shape.items().contains(x) by {
                assert(x == items[0]);
            }
        },
        Shape::Branch { left, right, .. } => {
            let half = items.len() as int / 2;
            let (axis, sorted) = choose|axis: int, sorted: Seq<usize>|
                {
                    &&& 0 <= axis < 3
                    &&& #[trigger] sorted_on(sorted, items, boxes, axis)
                    &&& left.grown_from(sorted.subrange(0, half), boxes)
                    &&& right.grown_from(sorted.subrange(half, items.len() as int), boxes)
                };
            lemma_sorted_same_items(sorted, items, boxes, axis);
            let first = sorted.subrange(0, half);
            let second = sorted.subrange(half, items.len() as int);
            lemma_grown_counts(*left, first, boxes);
            lemma_grown_counts(*right, second, boxes);
            assert(sorted =~= first + second);
            assert forall|x: usize| shape.items().contains(x) <==> items.contains(x) by {
                vstd::seq_lib::lemma_seq_concat_contains_all_elements(left.items(), right.items(), x);
                vstd::seq_lib::lemma_seq_concat_contains_all_elements(first, second, x);
            }
        },
    }
}

/// A tree whose leaves hold only items below `n` lies within `n`.
pub proof fn lemma_items_within(shape: Shape, n: int)
    requires
        forall|x: usize| shape.items().contains(x) ==> x < n,
    ensures
        shape.within(n),
    decreases shape,
{
    match shape {
        Shape::Leaf { item, .. } => {
            assert(shape.items()[0] == item);
            assert(shape.items().contains(item));
        },
        Shape::Branch { left, right, .. } => {
            assert forall|x: usize| left.items().contains(x) implies x < n by {
                vstd::seq_lib::lemma_seq_concat_contains_all_elements(left.items(), right.items(), x);
                assert(shape.items().contains(x));
            }
            assert forall|x: usize| right.items().contains(x) implies x < n by {
                vstd::seq_lib::lemma_seq_concat_contains_all_elements(left.items(), right.items(), x);
                assert(shape.items().contains(x));
            }
            lemma_items_within(*left, n);
            lemma_items_within(*right, n);
        },
    }
}

/// The box at the root of a tree grown from items whose boxes are boxes of
/// numbers is the smallest box around those boxes.
pub proof fn lemma_grown_is_hull(shape: Shape, items: Seq<usize>, boxes: Seq<Option<Aabb>>)
    requires
        shape.grown_from(items, boxes),
        all_boxed(items, boxes),
    ensures
        is_hull(shape.bounds(), items, boxes),
    decreases shape,
{
    match shape {
        Shape::Leaf { item, aabb } => {
            let b = aabb;
            assert(items[0] == item);
            crate::aabb::lemma_contains_is_an_order(b, b, b);
            assert forall|outer: Aabb| #[trigger]
                encloses_all(outer, items, boxes) implies outer.contains(b) by {
                assert(outer.contains(boxes[items[0] as int].unwrap()));
            }
        },
        Shape::Branch { aabb, left, right } => {
            let half = items.len() as int / 2;
            let (axis, sorted) = choose|axis: int, sorted: Seq<usize>|
                {
                    &&& 0 <= axis < 3
                    &&& #[trigger] sorted_on(sorted, items, boxes, axis)
                    &&& left.grown_from(sorted.subrange(0, half), boxes)
                    &&& right.grown_from(sorted.subrange(half, items.len() as int), boxes)
                };
            lemma_sorted_same_items(sorted, items, boxes, axis);
            let first = sorted.subrange(0, half);
            let second = sorted.subrange(half, items.len() as int);
            assert forall|k: int| 0 <= k < sorted.len() implies items.contains(#[trigger] sorted[k]) by {
                assert(sorted.contains(sorted[k]));
            }
            assert(all_boxed(first, boxes)) by {
                assert forall|k: int| 0 <= k < first.len() implies (#[trigger] first[k]) < boxes.len()
                    && boxes[first[k] as int].is_some() && boxes[first[k] as int].unwrap().is_number() by {
                    assert(first[k] == sorted[k]);
                    assert(items.contains(sorted[k]));
                }
            }
            assert(all_boxed(second, boxes)) by {
                assert forall|k: int| 0 <= k < second.len() implies (#[trigger] second[k])
                    < boxes.len() && boxes[second[k] as int].is_some()
                    && boxes[second[k] as int].unwrap().is_number() by {
                    assert(second[k] == sorted[k + half]);
                    assert(items.contains(sorted[k + half]));
                }
            }
            lemma_grown_is_hull(*left, first, boxes);
            lemma_grown_is_hull(*right, second, boxes);
            let lb = left.bounds();
            let rb = right.bounds();
            crate::aabb::lemma_surrounding_box_is_least(lb, rb, aabb);
            assert forall|k: int| 0 <= k < items.len() implies aabb.contains(
                boxes[(#[trigger] items[k]) as int].unwrap(),
            ) by {
                let x = items[k];
                assert(items.contains(x));
                assert(sorted.contains(x));
                let i = choose|i: int| 0 <= i < sorted.len() && sorted[i] == x;
                if i < half {
                    assert(first[i] == x);
                    crate::aabb::lemma_contains_is_an_order(aabb, lb, boxes[x as int].unwrap());
                } else {
                    assert(second[i - half] == x);
                    crate::aabb::lemma_contains_is_an_order(aabb, rb, boxes[x as int].unwrap());
                }
            }
            assert forall|outer: Aabb| #[trigger]
                encloses_all(outer, items, boxes) implies outer.contains(aabb) by {
                assert forall|k: int| 0 <= k < first.len() implies outer.contains(
                    boxes[(#[trigger] first[k]) as int].unwrap(),
                ) by {
                    let x = first[k];
                    assert(x == sorted[k]);
                    assert(items.contains(x));
                    let at = choose|at: int| 0 <= at < items.len() && items[at] == x;
                    assert(outer.contains(boxes[items[at] as int].unwrap()));
                }
                assert forall|k: int| 0 <= k < second.len() implies outer.contains(
                    boxes[(#[trigger] second[k]) as int].unwrap(),
                ) by {
                    let x = second[k];
                    assert(x == sorted[k + half]);
                    assert(items.contains(x));
                    let at = choose|at: int| 0 <= at < items.len() && items[at] == x;
                    assert(outer.contains(boxes[items[at] as int].unwrap()));
                }
                assert(encloses_all(outer, first, boxes));
                assert(encloses_all(outer, second, boxes));
                crate::aabb::lemma_surrounding_box_is_least(lb, rb, outer);
            }
        },
    }
}

/// A tree built over a store whose primitives each report one box, a box of
/// numbers, has as many leaves as the store has primitives, each primitive at
/// one of them, and at its root a box of the same value as the one that
/// folding the store's boxes gives.
pub proof fn lemma_tree_covers_store<H: Hitable>(
    shape: Shape,
    prims: Seq<H>,
    boxes: Seq<Option<Aabb>>,
    folded: Option<Aabb>,
)
    requires
        shape.grown_from(all_items(prims.len()), boxes),
        boxes.len() == prims.len(),
        forall|i: int, b: Option<Aabb>|
            0 <= i < prims.len() && #[trigger] call_ensures(H::bounding_box, (&prims[i],), b) ==> b
                == boxes[i] && b.is_some() && b.unwrap().is_number(),
        HitableStore::<H>::box_outcome(prims, folded),
    ensures
        shape.leaves() == prims.len(),
        forall|x: usize| x < prims.len() ==> #[trigger] shape.items().contains(x),
        folded.is_some(),
        shape.bounds().same(folded.unwrap()),
{
    let n = prims.len();
    let items = all_items(n);
    lemma_grown_counts(shape, items, boxes);
    lemma_grown_fits(shape, items, boxes);
    assert forall|x: usize| x < n implies #[trigger] shape.items().contains(x) by {
        assert(items[x as int] == x);
        assert(items.contains(x));
    }
    crate::hitable::lemma_fold_is_hull::<H>(prims, boxes, folded);
    assert(all_boxed(items, boxes)) by {
        assert forall|k: int| 0 <= k < items.len() implies (#[trigger] items[k]) < boxes.len()
            && boxes[items[k] as int].is_some() && boxes[items[k] as int].unwrap().is_number() by {
            assert(items[k] == k);
            crate::hitable::lemma_fold_asks_all::<H>(prims, folded, k);
        }
    }
    lemma_grown_is_hull(shape, items, boxes);
    crate::aabb::lemma_hull_is_unique(shape.bounds(), folded.unwrap(), items, boxes);
}

/// Only as many items as a machine can count grow into a tree.
pub proof fn lemma_grown_fits(shape: Shape, items: Seq<usize>, boxes: Seq<Option<Aabb>>)
    requires
        shape.grown_from(items, boxes),
    ensures
        1 <= items.len() <= usize::MAX,
{
    match shape {
        Shape::Leaf { .. } => {},
        Shape::Branch { left, right, .. } => {
            let half = items.len() as int / 2;
            let (axis, sorted) = choose|axis: int, sorted: Seq<usize>|
                {
                    &&& 0 <= axis < 3
                    &&& #[trigger] sorted_on(sorted, items, boxes, axis)
                    &&& left.grown_from(sorted.subrange(0, half), boxes)
                    &&& right.grown_from(sorted.subrange(half, items.len() as int), boxes)
                };
            let order = choose|order: Seq<(i64, usize)>| arranged(order, sorted, items, boxes, axis);
        },
    }
}

/// The place of a node in its tree.
#[derive(Copy, Clone, Debug)]
pub struct NodeId {
    index: usize,
}

struct BvhNode {
    left: Option<NodeId>,
    right: Option<NodeId>,
    aabb: Aabb,
    hitable: Option<usize>,
}

/// The tree below node `id` of an arena. The children of a node stand before
/// it, so the recursion ends.
spec fn shape_at(nodes: Seq<BvhNode>, id: int) -> Shape
    decreases id,
{
    if 0 <= id < nodes.len() {
        let node = nodes[id];
        match (node.hitable, node.left, node.right) {
            (None, Some(l), Some(r)) => if l.index < id && r.index < id {
                Shape::Branch {
                    aabb: node.aabb,
                    left: Box::new(shape_at(nodes, l.index as int)),
                    right: Box::new(shape_at(nodes, r.index as int)),
                }
            } else {
                Shape::Leaf { item: 0, aabb: node.aabb }
            },
            (Some(item), _, _) => Shape::Leaf { item, aabb: node.aabb },
            _ => Shape::Leaf { item: 0, aabb: node.aabb },
        }
    } else {
        arbitrary()
    }
}

/// Node `id` and all below it are well formed: a leaf has a primitive and no
/// children, a branch has a box and two children that stand before it.
spec fn wf_at(nodes: Seq<BvhNode>, id: int) -> bool
    decreases id,
{
    &&& 0 <= id < nodes.len()
    &&& match nodes[id].hitable {
        Some(_) => nodes[id].left.is_none() && nodes[id].right.is_none(),
        None => {
            &&& nodes[id].left.is_some()
            &&& nodes[id].right.is_some()
            &&& nodes[id].left.unwrap().index < id
            &&& nodes[id].right.unwrap().index < id
            &&& wf_at(nodes, nodes[id].left.unwrap().index as int)
            &&& wf_at(nodes, nodes[id].right.unwrap().index as int)
        },
    }
}

/// An arena that grows keeps the trees it held.
proof fn lemma_arena_grows(before: Seq<BvhNode>, after: Seq<BvhNode>, id: int)
    requires
        before.len() <= after.len(),
        forall|i: int| 0 <= i < before.len() ==> before[i] == after[i],
        0 <= id < before.len(),
    ensures
        shape_at(before, id) == shape_at(after, id),
        wf_at(before, id) == wf_at(after, id),
    decreases id,
{
    let node = before[id];
    if node.hitable.is_none() && node.left.is_some() && node.right.is_some() {
        let l = node.left.unwrap().index as int;
        let r = node.right.unwrap().index as int;
        if l < id && r < id {
            lemma_arena_grows(before, after, l);
            lemma_arena_grows(before, after, r);
        }
    }
}

/// The items from `lo` up to but without `hi`.
fn part_of(items: &Vec<usize>, lo: usize, hi: usize) -> (part: Vec<usize>)
    requires
        lo <= hi <= items.len(),
    ensures
        part@ == items@.subrange(lo as int, hi as int),
{
    let mut part: Vec<usize> = Vec::new();
    let mut i: usize = lo;
    while i < hi
        invariant
            lo <= i <= hi <= items.len(),
            part@ == items@.subrange(lo as int, i as int),
        decreases hi - i,
    {
        part.push(items[i]);
        i += 1;
        assert(part@ == items@.subrange(lo as int, i as int));
    }
    part
}

/// The items in the order of their boxes' minima on `axis`, items of equal
/// minimum in the order they had.
fn sort_items(boxes: &Vec<Option<Aabb>>, items: &Vec<usize>, axis: usize) -> (sorted: Vec<usize>)
    requires
        axis < 3,
        forall|k: int| 0 <= k < items.len() ==> items[k] < boxes.len() && boxes[items[k] as int].is_some(),
    ensures
        sorted_on(sorted@, items@, boxes@, axis as int),
        sorted.len() == items.len(),
        forall|k: int|
            0 <= k < sorted.len() ==> sorted[k] < boxes.len() && boxes[sorted[k] as int].is_some(),
{
    let mut order: Vec<(i64, usize)> = Vec::new();
    let mut k: usize = 0;
    while k < items.len()
        invariant
            axis < 3,
            k <= items.len(),
            forall|k: int|
                0 <= k < items.len() ==> items[k] < boxes.len() && boxes[items[k] as int].is_some(),
            order@ == keyed(items@, boxes@, axis as int).subrange(0, k as int),
        decreases items.len() - k,
    {
        let key = boxes[items[k]].unwrap().min.get(axis).order_key();
        order.push((key, k));
        k += 1;
        assert(order@ == keyed(items@, boxes@, axis as int).subrange(0, k as int));
    }
    assert(order@ == keyed(items@, boxes@, axis as int));
    sort_pairs(&mut order);
    proof {
        let all = keyed(items@, boxes@, axis as int);
        vstd::seq_lib::to_multiset_len(order@);
        vstd::seq_lib::to_multiset_len(all);
        assert forall|j: int| 0 <= j < order.len() implies (#[trigger] order[j]).1 < items.len() by {
            let pair = order@[j];
            assert(order@.contains(pair));
            vstd::seq_lib::to_multiset_contains(order@, pair);
            vstd::seq_lib::to_multiset_contains(all, pair);
            let at = choose|at: int| 0 <= at < all.len() && all[at] == pair;
            assert(all[at].1 == at);
        }
    }
    let mut sorted: Vec<usize> = Vec::new();
    let mut i: usize = 0;
    while i < order.len()
        invariant
            i <= order.len(),
            order.len() == items.len(),
            sorted.len() == i,
            forall|j: int| 0 <= j < order.len() ==> (#[trigger] order[j]).1 < items.len(),
            forall|j: int| 0 <= j < i ==> #[trigger] sorted[j] == items[order[j].1 as int],
        decreases order.len() - i,
    {
        let place = order[i].1;
        sorted.push(items[place]);
        i += 1;
    }
    assert(arranged(order@, sorted@, items@, boxes@, axis as int));
    sorted
}

/// The line of text that tells the two counts of a tree.
pub uninterp spec fn counts_line(hitables: usize, nodes: usize) -> Seq<char>;

/// `format!` of std, with the two counts in their places. The contract gives
/// the text a name: it depends on the two counts alone.
#[verifier::external_body]
fn counts_text(hitables: usize, nodes: usize) -> (text: String)
    ensures
        text@ == counts_line(hitables, nodes),
{
    format!("BVH with {:?} hitables and {:?} nodes", hitables, nodes)
}

/// A bounding-volume hierarchy over the primitives of a store.
pub struct BvhTree<'a, H: Hitable> {
    nodes: Vec<BvhNode>,
    root: NodeId,
    prims: &'a HitableStore<H>,
}

impl<'a, H: Hitable> BvhTree<'a, H> {
    #[verifier::type_invariant]
    spec fn inv(self) -> bool {
        &&& wf_at(self.nodes@, self.root.index as int)
        &&& shape_at(self.nodes@, self.root.index as int).within(self.prims@.len() as int)
        &&& shape_at(self.nodes@, self.root.index as int).leaves() <= usize::MAX
        &&& self.nodes@.len() == 2 * shape_at(self.nodes@, self.root.index as int).leaves() - 1
    }

    /// A tree can be built over the primitives: there is at least one, each
    /// has a box, and where there are two or more, the minimum of each box is
    /// a number.
    pub open spec fn buildable(prims: Seq<H>) -> bool {
        &&& prims.len() >= 1
        &&& forall|i: int, b: Option<Aabb>|
            0 <= i < prims.len() && #[trigger] call_ensures(H::bounding_box, (&prims[i],), b)
                ==> b.is_some() && (prims.len() >= 2 ==> b.unwrap().min.is_number())
    }

    /// `boxes` holds, for each primitive, an outcome of its `bounding_box`.
    pub open spec fn reported(prims: Seq<H>, boxes: Seq<Option<Aabb>>) -> bool {
        &&& boxes.len() == prims.len()
        &&& forall|i: int|
            0 <= i < prims.len() ==> call_ensures(H::bounding_box, (&prims[i],), #[trigger] boxes[i])
    }

    /// The tree is one that building over all the primitives can give, with
    /// the box that each of them reported.
    pub open spec fn built_over(shape: Shape, prims: Seq<H>) -> bool {
        exists|boxes: Seq<Option<Aabb>>|
            #![trigger Self::reported(prims, boxes)]
            Self::reported(prims, boxes) && shape.grown_from(all_items(prims.len()), boxes)
    }

    /// A tree over the primitives of `l`. Each primitive is asked for its box
    /// once. At every branch an axis is drawn at random, the primitives are
    /// sorted by their boxes' minima on it and split at the middle.
    pub fn new(l: &'a HitableStore<H>) -> (tree: BvhTree<'a, H>)
        requires
            Self::buildable(l@),
        ensures
            tree.prims() == l@,
            Self::built_over(tree@, l@),
            tree@.leaves() == l@.len(),
            forall|x: usize| x < l@.len() <==> #[trigger] tree@.items().contains(x),
    {
        let mut boxes: Vec<Option<Aabb>> = Vec::new();
        let mut items: Vec<usize> = Vec::new();
        let mut i: usize = 0;
        while i < l.items.len()
            invariant
                i <= l.items.len(),
                boxes.len() == i,
                items@ == all_items(i as nat),
                Self::buildable(l@),
                forall|k: int|
                    0 <= k < i ==> call_ensures(H::bounding_box, (&l@[k],), #[trigger] boxes[k]),
            decreases l.items.len() - i,
        {
            let b = l.items[i].bounding_box();
            boxes.push(b);
            items.push(i);
            i += 1;
            assert(items@ =~= all_items(i as nat));
        }
        assert(Self::reported(l@, boxes@));
        let mut nodes: Vec<BvhNode> = Vec::new();
        let root = Self::build(&mut nodes, &boxes, &items);
        proof {
            let shape = shape_at(nodes@, root.index as int);
            lemma_grown_counts(shape, items@, boxes@);
            assert forall|x: usize| x < l@.len() implies #[trigger] shape.items().contains(x) by {
                assert(items@[x as int] == x);
                assert(items@.contains(x));
            }
            assert forall|x: usize| shape.items().contains(x) implies x < l@.len() by {
                assert(items@.contains(x));
                let k = choose|k: int| 0 <= k < items@.len() && items@[k] == x;
                assert(items@[k] == k);
            }
            lemma_items_within(shape, l@.len() as int);
        }
        BvhTree { nodes, root, prims: l }
    }

    fn new_leaf(nodes: &mut Vec<BvhNode>, boxes: &Vec<Option<Aabb>>, item: usize) -> (id: NodeId)
        requires
            item < boxes.len(),
            boxes[item as int].is_some(),
        ensures
            final(nodes)@ == old(nodes)@.push(final(nodes)@.last()),
            id.index == old(nodes)@.len(),
            wf_at(final(nodes)@, id.index as int),
            shape_at(final(nodes)@, id.index as int) == (Shape::Leaf {
                item,
                aabb: boxes[item as int].unwrap(),
            }),
    {
        let next_index = nodes.len();
        nodes.push(BvhNode { left: None, right: None, aabb: boxes[item].unwrap(), hitable: Some(item) });
        NodeId { index: next_index }
    }

    fn new_node(nodes: &mut Vec<BvhNode>, aabb: Aabb, left: NodeId, right: NodeId) -> (id: NodeId)
        requires
            wf_at(old(nodes)@, left.index as int),
            wf_at(old(nodes)@, right.index as int),
        ensures
            final(nodes)@ == old(nodes)@.push(final(nodes)@.last()),
            id.index == old(nodes)@.len(),
            wf_at(final(nodes)@, id.index as int),
            shape_at(final(nodes)@, id.index as int) == (Shape::Branch {
                aabb,
                left: Box::new(shape_at(old(nodes)@, left.index as int)),
                right: Box::new(shape_at(old(nodes)@, right.index as int)),
            }),
    {
        let next_index = nodes.len();
        nodes.push(BvhNode { left: Some(left), right: Some(right), aabb, hitable: None });
        proof {
            lemma_arena_grows(old(nodes)@, nodes@, left.index as int);
            lemma_arena_grows(old(nodes)@, nodes@, right.index as int);
        }
        NodeId { index: next_index }
    }

    fn build(nodes: &mut Vec<BvhNode>, boxes: &Vec<Option<Aabb>>, items: &Vec<usize>) -> (id: NodeId)
        requires
            items.len() >= 1,
            forall|k: int|
                0 <= k < items.len() ==> items[k] < boxes.len() && boxes[items[k] as int].is_some(),
        ensures
            old(nodes)@.len() <= final(nodes)@.len(),
            forall|i: int| 0 <= i < old(nodes)@.len() ==> old(nodes)@[i] == final(nodes)@[i],
            final(nodes)@.len() == old(nodes)@.len() + 2 * items.len() - 1,
            id.index == final(nodes)@.len() - 1,
            wf_at(final(nodes)@, id.index as int),
            shape_at(final(nodes)@, id.index as int).grown_from(items@, boxes@),
        decreases items.len(),
    {
        if items.len() == 1 {
            return Self::new_leaf(nodes, boxes, items[0]);
        }
        let axis = random_below(3);
        let sorted = sort_items(boxes, items, axis);
        let half_len = items.len() / 2;
        let left: NodeId;
        let right: NodeId;
        if items.len() == 2 {
            left = Self::new_leaf(nodes, boxes, sorted[0]);
            let ghost mid = nodes@;
            right = Self::new_leaf(nodes, boxes, sorted[1]);
            proof {
                lemma_arena_grows(mid, nodes@, left.index as int);
            }
        } else {
            let left_items = part_of(&sorted, 0, half_len);
            let right_items = part_of(&sorted, half_len, items.len());
            left = Self::build(nodes, boxes, &left_items);
            let ghost mid = nodes@;
            right = Self::build(nodes, boxes, &right_items);
            proof {
                lemma_arena_grows(mid, nodes@, left.index as int);
            }
        }
        let ghost below = nodes@;
        let ghost left_shape = shape_at(below, left.index as int);
        let ghost right_shape = shape_at(below, right.index as int);
        assert(left_shape.grown_from(sorted@.subrange(0, half_len as int), boxes@));
        assert(right_shape.grown_from(sorted@.subrange(half_len as int, items.len() as int), boxes@));
        let left_box = nodes[left.index].aabb;
        let right_box = nodes[right.index].aabb;
        let id = Self::new_node(nodes, surrounding_box(&left_box, &right_box), left, right);
        assert(sorted_on(sorted@, items@, boxes@, axis as int));
        id
    }

    /// The tree as a mathematical value.
    pub closed spec fn view(&self) -> Shape {
        shape_at(self.nodes@, self.root.index as int)
    }

    /// The primitives that the tree was built over.
    pub closed spec fn prims(&self) -> Seq<H> {
        self.prims@
    }

    fn hit_node<T: Fn(&Ray, Scalar, usize) -> Scalar>(
        &self,
        id: NodeId,
        r: &Ray,
        travel: &T,
        tmin: Scalar,
        tmax: Scalar,
    ) -> (out: Option<HitRecord<'a>>)
        requires
            wf_at(self.nodes@, id.index as int),
            shape_at(self.nodes@, id.index as int).within(self.prims@.len() as int),
            forall|c: Scalar, a: usize| a < 3 ==> call_requires(*travel, (r, c, a)),
        ensures
            shape_at(self.nodes@, id.index as int).hit_outcome(
                self.prims@,
                *r,
                *travel,
                tmin,
                tmax,
                out,
            ),
        decreases id.index,
    {
        let node = &self.nodes[id.index];
        let ghost shape = shape_at(self.nodes@, id.index as int);
        let entered = node.aabb.hit(r, travel, tmin, tmax);
        assert(shape.bounds().hit_from(*r, *travel, 0, tmin, tmax, entered));
        if !entered {
            return None;
        }
        match node.hitable {
            Some(item) => {
                let out = self.prims.items[item].hit(r, tmin, tmax);
                out
            },
            None => {
                let hit_left = self.hit_node(node.left.unwrap(), r, travel, tmin, tmax);
                let hit_right = self.hit_node(node.right.unwrap(), r, travel, tmin, tmax);
                let out = match hit_left {
                    Some(left) => match hit_right {
                        Some(right) => if left.t.lt(right.t) {
                            hit_left
                        } else {
                            hit_right
                        },
                        None => hit_left,
                    },
                    None => hit_right,
                };
                assert(out == closer(hit_left, hit_right));
                out
            },
        }
    }

    /// The nearest hit of the ray between `tmin` and `tmax` among the
    /// primitives of the tree.
    ///
    /// `travel(r, c, a)` is the ray parameter at which `r` meets the plane
    /// where coordinate `a` is `c`.
    pub fn hit<T: Fn(&Ray, Scalar, usize) -> Scalar>(
        &self,
        r: &Ray,
        travel: &T,
        tmin: Scalar,
        tmax: Scalar,
    ) -> (out: Option<HitRecord<'a>>)
        requires
            forall|c: Scalar, a: usize| a < 3 ==> call_requires(*travel, (r, c, a)),
        ensures
            self@.hit_outcome(self.prims(), *r, *travel, tmin, tmax, out),
    {
        proof {
            use_type_invariant(self);
        }
        self.hit_node(self.root, r, travel, tmin, tmax)
    }

    /// The box around the whole tree.
    pub fn bounding_box(&self) -> (out: Option<Aabb>)
        ensures
            out == Some(self@.bounds()),
    {
        proof {
            use_type_invariant(self);
        }
        Some(self.nodes[self.root.index].aabb)
    }

    fn count_under(&self, id: NodeId) -> (n: usize)
        requires
            wf_at(self.nodes@, id.index as int),
            shape_at(self.nodes@, id.index as int).leaves() <= usize::MAX,
        ensures
            n == shape_at(self.nodes@, id.index as int).leaves(),
        decreases id.index,
    {
        let node = &self.nodes[id.index];
        match node.hitable {
            Some(_) => 1,
            None => {
                let count_left = self.count_under(node.left.unwrap());
                let count_right = self.count_under(node.right.unwrap());
                count_left + count_right
            },
        }
    }

    /// The number of primitives at the leaves.
    pub fn number_hittables(&self) -> (n: usize)
        ensures
            n == self@.leaves(),
    {
        proof {
            use_type_invariant(self);
        }
        self.count_under(self.root)
    }

    /// The tree in a line of text: how many primitives and how many nodes.
    pub fn to_string(&self) -> (text: String)
        ensures
            text@ == counts_line(self@.leaves() as usize, (2 * self@.leaves() - 1) as usize),
    {
        counts_text(self.number_hittables(), self.number_nodes())
    }

    /// The number of nodes, leaves and branches together.
    pub fn number_nodes(&self) -> (n: usize)
        ensures
            n == 2 * self@.leaves() - 1,
    {
        proof {
            use_type_invariant(self);
        }
        self.nodes.len()
    }
}

} // verus!
