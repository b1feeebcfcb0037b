use vstd::prelude::*;
use crate::scalar::{Scalar, HALF_BITS};

verus! {

/// Bit pattern of 0.00001, the least easing.
pub const EASING_MIN_BITS: u32 = 0x3727_c5ac;

/// Bit pattern of 1 - 0.00001, the most easing.
pub const EASING_MAX_BITS: u32 = 0x3f7f_ff58;

/// The easing held between the least and the most.
pub open spec fn eased(a: Scalar) -> Scalar {
    (Scalar { bits: EASING_MIN_BITS }).max_of((Scalar { bits: EASING_MAX_BITS }).min_of(a))
}

/// `out` is what `exponential_easing` returns, for some outcome of the call
/// made: with an easing below one half the emphasis, else the de-emphasis,
/// either of `x` and the easing held between the least and the most.
pub open spec fn easing_outcome<E: Fn(Scalar, Scalar) -> Scalar, D: Fn(Scalar, Scalar) -> Scalar>(
    x: Scalar,
    a: Scalar,
    emphasis: E,
    de_emphasis: D,
    out: Scalar,
) -> bool {
    if eased(a).below(Scalar { bits: HALF_BITS }) {
        call_ensures(emphasis, (x, eased(a)), out)
    } else {
        call_ensures(de_emphasis, (x, eased(a)), out)
    }
}

/// The exponential easing curve at `x`: an emphasis for an easing below one
/// half, a de-emphasis from there on.
///
/// `emphasis(x, a)` is `x` to the power of `2 a`; `de_emphasis(x, a)` is `x`
/// to the power of `1 / (1 - 2 (a - 0.5))`.
pub fn exponential_easing<E: Fn(Scalar, Scalar) -> Scalar, D: Fn(Scalar, Scalar) -> Scalar>(
    x: Scalar,
    a: Scalar,
    emphasis: &E,
    de_emphasis: &D,
) -> (out: Scalar)
    requires
        forall|x: Scalar, a: Scalar| call_requires(*emphasis, (x, a)),
        forall|x: Scalar, a: Scalar| call_requires(*de_emphasis, (x, a)),
    ensures
        easing_outcome(x, a, *emphasis, *de_emphasis, out),
{
    let min_param_a = Scalar::from_bits(EASING_MIN_BITS);
    let max_param_a = Scalar::from_bits(EASING_MAX_BITS);
    let a = min_param_a.max(max_param_a.min(a));
    if a.lt(Scalar::from_bits(HALF_BITS)) {
        emphasis(x, a)
    } else {
        de_emphasis(x, a)
    }
}

} // verus!
