//! Binary32 numbers as bit patterns, with the order that IEEE 754 gives them.

use vstd::prelude::*;
use vstd::arithmetic::power2::{lemma2_to64, lemma2_to64_rest, lemma_pow2_strictly_increases, lemma_pow2_unfold, pow2};

verus! {

/// 2 to the power of `k`.
fn power_of_two(k: u32) -> (p: u64)
    requires
        k <= 40,
    ensures
        p == pow2(k as nat),
        1 <= p <= 0x100_0000_0000,
{
    let mut p: u64 = 1;
    let mut i: u32 = 0;
    proof {
        lemma2_to64();
        lemma2_to64_rest();
    }
    while i < k
        invariant
            i <= k <= 40,
            p == pow2(i as nat),
            1 <= p,
            pow2(40) == 0x100_0000_0000,
            i < 40 ==> p <= 0x80_0000_0000,
            p <= 0x100_0000_0000,
        decreases k - i,
    {
        proof {
            lemma2_to64_rest();
            lemma_pow2_unfold((i + 1) as nat);
            if i + 1 < 39 {
                lemma_pow2_strictly_increases((i + 1) as nat, 39);
            }
        }
        p = p * 2;
        i += 1;
    }
    p
}

/// Bit pattern of positive infinity; every larger magnitude is a NaN.
pub const INFINITY_BITS: u32 = 0x7f80_0000;

/// Bit pattern whose only set bit is the sign.
pub const SIGN_BIT: u32 = 0x8000_0000;

/// Bit pattern of 1.
pub const ONE_BITS: u32 = 0x3f80_0000;

/// Bit pattern of one half.
pub const HALF_BITS: u32 = 0x3f00_0000;

/// Bit pattern of the machine epsilon, 2^-23.
pub const EPSILON_BITS: u32 = 0x3400_0000;

/// Bit pattern of the largest finite value.
pub const MAX_BITS: u32 = 0x7f7f_ffff;

/// A binary32 value, held as the bit pattern that `to_bits` gives.
///
/// `==` on this type compares bit patterns; [`Scalar::same`] compares values.
#[derive(Clone, Copy, Debug, PartialEq, Eq, Structural)]
pub struct Scalar {
    pub bits: u32,
}

impl Scalar {
    /// The bits without the sign.
    pub open spec fn magnitude(self) -> int {
        if self.bits >= SIGN_BIT {
            self.bits - SIGN_BIT
        } else {
            self.bits as int
        }
    }

    /// The sign bit is set.
    pub open spec fn sign(self) -> bool {
        self.bits >= SIGN_BIT
    }

    /// The value is not a number.
    pub open spec fn nan(self) -> bool {
        self.magnitude() > INFINITY_BITS
    }

    /// An integer that orders the numbers as their values do: both zeros
    /// have rank 0, and of two numbers the smaller has the smaller rank.
    pub open spec fn rank(self) -> int {
        if self.sign() {
            -self.magnitude()
        } else {
            self.magnitude()
        }
    }

    /// `self < other` as IEEE 754 decides it: false when either is a NaN.
    pub open spec fn below(self, other: Scalar) -> bool {
        !self.nan() && !other.nan() && self.rank() < other.rank()
    }

    /// `self <= other` as IEEE 754 decides it: false when either is a NaN.
    pub open spec fn at_most(self, other: Scalar) -> bool {
        !self.nan() && !other.nan() && self.rank() <= other.rank()
    }

    /// The two are numbers of equal value (the two zeros are equal).
    pub open spec fn same(self, other: Scalar) -> bool {
        !self.nan() && !other.nan() && self.rank() == other.rank()
    }

    pub fn from_bits(bits: u32) -> (s: Scalar)
        ensures
            s.bits == bits,
    {
        Scalar { bits }
    }

    pub fn to_bits(self) -> (bits: u32)
        ensures
            bits == self.bits,
    {
        self.bits
    }

    pub fn zero() -> (s: Scalar)
        ensures
            s.bits == 0,
    {
        Scalar { bits: 0 }
    }

    pub fn one() -> (s: Scalar)
        ensures
            s.bits == ONE_BITS,
    {
        Scalar { bits: ONE_BITS }
    }

    pub fn is_nan(self) -> (r: bool)
        ensures
            r == self.nan(),
    {
        self.abs().bits > INFINITY_BITS
    }

    /// The rank as a machine integer.
    pub fn order_key(self) -> (k: i64)
        ensures
            k == self.rank(),
            -(SIGN_BIT as int) < k < SIGN_BIT as int,
    {
        let m: u32 = self.abs().bits;
        if self.bits >= SIGN_BIT {
            -(m as i64)
        } else {
            m as i64
        }
    }

    /// `self < other`.
    pub fn lt(self, other: Scalar) -> (r: bool)
        ensures
            r == self.below(other),
    {
        !self.is_nan() && !other.is_nan() && self.order_key() < other.order_key()
    }

    /// `self <= other`.
    pub fn le(self, other: Scalar) -> (r: bool)
        ensures
            r == self.at_most(other),
    {
        !self.is_nan() && !other.is_nan() && self.order_key() <= other.order_key()
    }

    /// The two are numbers of equal value.
    pub fn eq_value(self, other: Scalar) -> (r: bool)
        ensures
            r == self.same(other),
    {
        !self.is_nan() && !other.is_nan() && self.order_key() == other.order_key()
    }

    /// `self > other`.
    pub fn gt(self, other: Scalar) -> (r: bool)
        ensures
            r == other.below(self),
    {
        other.lt(self)
    }

    /// `self >= other`.
    pub fn ge(self, other: Scalar) -> (r: bool)
        ensures
            r == other.at_most(self),
    {
        other.le(self)
    }

    /// The value with the sign cleared; a NaN stays a NaN.
    pub fn abs(self) -> (r: Scalar)
        ensures
            !r.sign(),
            r.magnitude() == self.magnitude(),
            r.bits == self.magnitude(),
    {
        if self.bits >= SIGN_BIT {
            Scalar { bits: self.bits - SIGN_BIT }
        } else {
            self
        }
    }

    /// The value with the sign flipped.
    pub open spec fn negated(self) -> Scalar {
        if self.sign() {
            Scalar { bits: (self.bits - SIGN_BIT) as u32 }
        } else {
            Scalar { bits: (self.bits + SIGN_BIT) as u32 }
        }
    }

    /// The value with the sign flipped; a NaN stays a NaN.
    pub fn neg(self) -> (r: Scalar)
        ensures
            r == self.negated(),
            r.sign() == !self.sign(),
            r.magnitude() == self.magnitude(),
            r.rank() == -self.rank(),
    {
        if self.bits >= SIGN_BIT {
            Scalar { bits: self.bits - SIGN_BIT }
        } else {
            Scalar { bits: self.bits + SIGN_BIT }
        }
    }

    /// The smaller of two values, a NaN giving way to a number; of two equal
    /// values (the two zeros), `self`.
    pub open spec fn min_of(self, other: Scalar) -> Scalar {
        if self.nan() {
            other
        } else if other.nan() || self.rank() <= other.rank() {
            self
        } else {
            other
        }
    }

    /// The larger of two values, a NaN giving way to a number; of two equal
    /// values (the two zeros), `self`.
    pub open spec fn max_of(self, other: Scalar) -> Scalar {
        if self.nan() {
            other
        } else if other.nan() || self.rank() >= other.rank() {
            self
        } else {
            other
        }
    }

    /// The smaller of two values, a NaN giving way to a number.
    pub fn min(self, other: Scalar) -> (r: Scalar)
        ensures
            r == self.min_of(other),
    {
        if self.is_nan() {
            other
        } else if other.is_nan() || self.order_key() <= other.order_key() {
            self
        } else {
            other
        }
    }

    /// The larger of two values, a NaN giving way to a number.
    pub fn max(self, other: Scalar) -> (r: Scalar)
        ensures
            r == self.max_of(other),
    {
        if self.is_nan() {
            other
        } else if other.is_nan() || self.order_key() >= other.order_key() {
            self
        } else {
            other
        }
    }

    /// The value held to the interval from 0 to 1, a NaN becoming 1.
    pub open spec fn unit_of(self) -> Scalar {
        self.min_of(Scalar { bits: ONE_BITS }).max_of(Scalar { bits: 0 })
    }

    /// The exponent field: the magnitude's bits above the lowest 23.
    pub open spec fn exponent(self) -> int {
        self.magnitude() / 0x80_0000
    }

    /// The significand of a normal number: the lowest 23 bits under a
    /// leading one.
    pub open spec fn significand(self) -> int {
        0x80_0000 + self.magnitude() % 0x80_0000
    }

    /// The whole part of the value, cut off towards zero; 0 for a NaN and for
    /// what lies below 1. The value is the significand times 2 to the power
    /// of the exponent field less 150.
    pub open spec fn whole(self) -> int {
        if self.nan() || self.sign() || self.exponent() < 127 {
            0
        } else if self.exponent() >= 150 {
            self.significand() * pow2((self.exponent() - 150) as nat)
        } else {
            self.significand() / (pow2((150 - self.exponent()) as nat) as int)
        }
    }

    /// The whole part, held to at most `max`.
    pub open spec fn clipped(self, max: int) -> int {
        if self.whole() <= max {
            self.whole()
        } else {
            max
        }
    }

    /// The value as a byte: cut off towards zero, then held to the range of
    /// a byte, a NaN giving 0.
    pub open spec fn byte_of(self) -> int {
        self.clipped(255)
    }

    fn whole_up_to(self, max: u64) -> (r: u64)
        ensures
            r == self.clipped(max as int),
    {
        if self.is_nan() || self.bits >= SIGN_BIT {
            return 0;
        }
        let e: u32 = self.bits / 0x80_0000;
        let sig: u64 = (0x80_0000 + self.bits % 0x80_0000) as u64;
        if e < 127 {
            0
        } else if e >= 150 {
            let shift: u32 = e - 150;
            if shift > 40 {
                proof {
                    lemma2_to64_rest();
                    if shift > 41 {
                        lemma_pow2_strictly_increases(41, shift as nat);
                    }
                    let p = pow2(shift as nat) as int;
                    assert(sig * p >= 0x80_0000 * 0x200_0000_0000) by (nonlinear_arith)
                        requires
                            sig >= 0x80_0000,
                            p >= 0x200_0000_0000,
                    ;
                }
                max
            } else {
                let p = power_of_two(shift);
                assert(sig * p <= 0xff_ffff * 0x100_0000_0000) by (nonlinear_arith)
                    requires
                        0 <= sig <= 0xff_ffff,
                        0 <= p <= 0x100_0000_0000,
                ;
                let product: u64 = sig * p;
                if product <= max {
                    product
                } else {
                    max
                }
            }
        } else {
            let p = power_of_two(150 - e);
            let quotient: u64 = sig / p;
            if quotient <= max {
                quotient
            } else {
                max
            }
        }
    }

    /// The value as a byte: cut off towards zero, then held to the range of
    /// a byte, a NaN giving 0.
    pub fn to_u8(self) -> (b: u8)
        ensures
            b == self.byte_of(),
    {
        self.whole_up_to(255) as u8
    }

    /// The value as a 32-bit count: cut off towards zero, then held to the
    /// range of the type, a NaN giving 0.
    pub fn to_u32(self) -> (n: u32)
        ensures
            n == self.clipped(u32::MAX as int),
    {
        self.whole_up_to(0xffff_ffff) as u32
    }

    /// The value as an index: cut off towards zero, then held to the range
    /// of the type, a NaN giving 0.
    pub fn to_usize(self) -> (n: usize)
        ensures
            n == self.clipped(usize::MAX as int),
    {
        self.whole_up_to(usize::MAX as u64) as usize
    }

    /// The value held to the interval from 0 to 1: `self.min(1).max(0)`.
    /// A NaN becomes 1.
    pub fn clamp_unit(self) -> (r: Scalar)
        ensures
            r == self.unit_of(),
    {
        self.min(Scalar::one()).max(Scalar::zero())
    }
}

/// The whole part of a number from 1 on and below 2 to the power of 23 is
/// the greatest whole number that is not above it: the number is its
/// significand over a power of two, and the whole part, times that power, is
/// at most the significand, which is less than the whole part and one, times
/// that power.
pub proof fn lemma_whole_is_floor(s: Scalar)
    requires
        !s.nan(),
        !s.sign(),
        127 <= s.exponent() < 150,
    ensures
        s.whole() * pow2((150 - s.exponent()) as nat) <= s.significand(),
        s.significand() < (s.whole() + 1) * pow2((150 - s.exponent()) as nat),
        1 <= s.whole() < 0x80_0000,
{
    let d = pow2((150 - s.exponent()) as nat) as int;
    let sig = s.significand();
    lemma2_to64();
    if 150 - s.exponent() < 23 {
        lemma_pow2_strictly_increases((150 - s.exponent()) as nat, 23);
    }
    if 150 - s.exponent() > 1 {
        lemma_pow2_strictly_increases(1, (150 - s.exponent()) as nat);
    }
    vstd::arithmetic::div_mod::lemma_fundamental_div_mod(sig, d);
    vstd::arithmetic::div_mod::lemma_mod_bound(sig, d);
    let q = sig / d;
    assert(q * d == d * q) by (nonlinear_arith);
    assert((q + 1) * d == d * q + d) by (nonlinear_arith);
    assert(q >= 1) by (nonlinear_arith)
        requires
            sig == d * q + sig % d,
            0 <= sig % d < d,
            sig >= 0x80_0000,
            0 < d <= 0x80_0000,
    ;
    assert(q < 0x80_0000) by (nonlinear_arith)
        requires
            sig == d * q + sig % d,
            0 <= sig % d < d,
            sig < 0x100_0000,
            2 <= d,
    ;
}

/// Clamping gives a number between 0 and 1, and leaves such a number as it is.
pub proof fn lemma_clamp_unit(s: Scalar)
    ensures
        !s.unit_of().nan(),
        0 <= s.unit_of().rank() <= ONE_BITS,
        s.nan() ==> s.unit_of().bits == ONE_BITS,
        !s.nan() && s.rank() >= ONE_BITS ==> s.unit_of().bits == ONE_BITS,
        !s.nan() && s.rank() < 0 ==> s.unit_of().bits == 0,
        !s.nan() && 0 <= s.rank() <= ONE_BITS ==> s.unit_of() == s,
{
}

} // verus!
