//! Chance, order and a few tests on vectors.

use vstd::prelude::*;
use crate::scalar::{Scalar, EPSILON_BITS};
use crate::vec3::Vec3;

verus! {

/// `Rng::gen_range` of rand, on the generator that `thread_rng` hands out and
/// the range from 0 up to but without `bound`. It panics on an empty range;
/// the contract states that what comes back lies in the range.
#[verifier::external_body]
pub(crate) fn random_below(bound: usize) -> (r: usize)
    requires
        bound > 0,
    ensures
        r < bound,
{
    rand::Rng::gen_range(&mut rand::thread_rng(), 0..bound)
}

/// Pairs in ascending order: by the first component, then by the second.
pub open spec fn lex_sorted(pairs: Seq<(i64, usize)>) -> bool {
    forall|i: int, j: int|
        0 <= i < j < pairs.len() ==> (#[trigger] pairs[i]).0 < (#[trigger] pairs[j]).0 || (pairs[i].0
            == pairs[j].0 && pairs[i].1 <= pairs[j].1)
}

/// `sort` of std's slices, on pairs of integers, which std orders by the
/// first component and then by the second. The contract states that the
/// same pairs come back, in ascending order.
#[verifier::external_body]
pub(crate) fn sort_pairs(pairs: &mut Vec<(i64, usize)>)
    ensures
        final(pairs)@.to_multiset() == old(pairs)@.to_multiset(),
        lex_sorted(final(pairs)@),
{
    pairs.sort();
}

/// `out` is what `refract` returns, for some outcome of the calls made: the
/// bent direction where the discriminant is above zero, else nothing.
pub open spec fn refract_outcome<D: Fn(Vec3, Vec3, Scalar) -> Scalar, B: Fn(Vec3, Vec3, Scalar, Scalar) -> Vec3>(
    v: Vec3,
    n: Vec3,
    ni_over_nt: Scalar,
    discriminant: D,
    bend: B,
    out: Option<Vec3>,
) -> bool {
    exists|d: Scalar| #![trigger call_ensures(discriminant, (v, n, ni_over_nt), d)]
        {
            &&& call_ensures(discriminant, (v, n, ni_over_nt), d)
            &&& if (Scalar { bits: 0 }).below(d) {
                out.is_some() && call_ensures(bend, (v, n, ni_over_nt, d), out.unwrap())
            } else {
                out.is_none()
            }
        }
}

/// The direction of `v` once refracted at a surface of normal `n`, or
/// nothing where the light is reflected whole.
///
/// `discriminant(v, n, r)` is `1 - r * r * (1 - (v * n) * (v * n))` for the
/// normalised `v`; `bend(v, n, r, d)` is `r * (v - (v * n) * n)` less the
/// root of `d` times `n`.
pub fn refract<D: Fn(Vec3, Vec3, Scalar) -> Scalar, B: Fn(Vec3, Vec3, Scalar, Scalar) -> Vec3>(
    v: Vec3,
    n: Vec3,
    ni_over_nt: Scalar,
    discriminant: &D,
    bend: &B,
) -> (out: Option<Vec3>)
    requires
        forall|v: Vec3, n: Vec3, r: Scalar| call_requires(*discriminant, (v, n, r)),
        forall|v: Vec3, n: Vec3, r: Scalar, d: Scalar| call_requires(*bend, (v, n, r, d)),
    ensures
        refract_outcome(v, n, ni_over_nt, *discriminant, *bend, out),
{
    let d = discriminant(v, n, ni_over_nt);
    if d.gt(Scalar::zero()) {
        Some(bend(v, n, ni_over_nt, d))
    } else {
        None
    }
}

/// Every component is nearer to zero than the machine epsilon.
pub open spec fn is_near_zero(v: Vec3) -> bool {
    &&& !v.x.nan() && v.x.magnitude() < EPSILON_BITS
    &&& !v.y.nan() && v.y.magnitude() < EPSILON_BITS
    &&& !v.z.nan() && v.z.magnitude() < EPSILON_BITS
}

/// Whether every component is nearer to zero than the machine epsilon.
pub fn near_zero(vec: &Vec3) -> (r: bool)
    ensures
        r == is_near_zero(*vec),
{
    let eps = Scalar::from_bits(EPSILON_BITS);
    vec.x.abs().lt(eps) && vec.y.abs().lt(eps) && vec.z.abs().lt(eps)
}

} // verus!
