//! Single-precision readings as IEEE 754 binary32 bit patterns.
//!
//! Every engineering value in this crate is a [`Binary32`]. Its meaning is an
//! exact integer count of *units*: one unit is the smallest positive subnormal,
//! so every finite pattern stands for a whole number of units. Arithmetic is
//! specified as the exact result rounded to the nearest pattern, ties to even,
//! and is carried out on integers.

use vstd::arithmetic::power2::*;
use vstd::prelude::*;

pub mod arithmetic;
pub mod convert;
pub mod laws;
mod rounding;


verus! {

/// Number of patterns per binade: the weight of the lowest exponent bit.
pub const BINADE: u32 = 0x0080_0000;

/// Pattern of positive infinity; every finite magnitude is below it.
pub const INFINITY_BITS: u32 = 0x7f80_0000;

/// Weight of the sign bit.
pub const SIGN_BIT: u32 = 0x8000_0000;

/// One binary32 value, held as its bit pattern.
///
/// `==` compares patterns, so a value equals itself even when it is not a
/// number, and the two zeros differ.
#[derive(Debug, Clone, Copy, PartialEq, Eq, Structural)]
pub struct Binary32 {
    /// The 32-bit interchange encoding: sign, 8 exponent bits, 23 fraction bits.
    pub bits: u32,
}

/// Units counted by the non-negative pattern `k`.
///
/// Defined for every `k`; at [`INFINITY_BITS`] it is the first power of two that
/// is too large to be finite, which is where rounding overflows.
pub open spec fn magnitude(k: int) -> int {
    if k < BINADE {
        k
    } else {
        (BINADE + k % (BINADE as int)) * pow2((k / (BINADE as int) - 1) as nat)
    }
}

/// `k` is the pattern nearest to the exact quantity `n / d` units, ties to even.
///
/// The quantity lies between the midpoints to both neighbours, and on a midpoint
/// only when `k` is even. Infinity has no neighbour above.
pub open spec fn is_nearest(n: int, d: int, k: int) -> bool {
    &&& 0 <= k <= INFINITY_BITS
    &&& k > 0 ==> 2 * n >= d * (magnitude(k - 1) + magnitude(k))
    &&& k > 0 && 2 * n == d * (magnitude(k - 1) + magnitude(k)) ==> k % 2 == 0
    &&& k < INFINITY_BITS ==> 2 * n <= d * (magnitude(k) + magnitude(k + 1))
    &&& k < INFINITY_BITS && 2 * n == d * (magnitude(k) + magnitude(k + 1)) ==> k % 2 == 0
}

/// The pattern nearest to `n / d` units, ties to even.
pub open spec fn nearest(n: int, d: int) -> int {
    choose|k: int| is_nearest(n, d, k)
}

/// A normal or boundary pattern written as exponent step `u` and significand `q`.
pub proof fn lemma_magnitude_parts(u: int, q: int)
    requires
        u >= 0,
        0 <= q <= 2 * BINADE,
        u > 0 ==> q >= BINADE,
    ensures
        magnitude(u * BINADE + q) == q * pow2(u as nat),
{
    let k = u * BINADE + q;
    lemma2_to64();
    if q < BINADE {
        assert(u == 0);
        assert(k == q);
        assert(q * pow2(0) == q) by (nonlinear_arith)
            requires
                pow2(0) == 1,
        ;
    } else if q < 2 * BINADE {
        assert(k / (BINADE as int) == u + 1 && k % (BINADE as int) == q - BINADE);
    } else {
        assert(k / (BINADE as int) == u + 2 && k % (BINADE as int) == 0);
        lemma_pow2_unfold((u + 1) as nat);
        assert(BINADE * pow2((u + 1) as nat) == q * pow2(u as nat)) by (nonlinear_arith)
            requires
                q == 2 * BINADE,
                pow2((u + 1) as nat) == 2 * pow2(u as nat),
        ;
    }
}

/// Magnitudes grow strictly with the pattern.
pub proof fn lemma_magnitude_step(k: int)
    requires
        0 <= k,
    ensures
        magnitude(k) < magnitude(k + 1),
{
    if k < BINADE {
        lemma_magnitude_parts(0, k);
        lemma_magnitude_parts(0, k + 1);
        lemma2_to64();
    } else {
        let u = k / (BINADE as int) - 1;
        let q = BINADE + k % (BINADE as int);
        assert(k == u * BINADE + q);
        lemma_magnitude_parts(u, q);
        lemma_magnitude_parts(u, q + 1);
        lemma_pow2_pos(u as nat);
        assert((q + 1) * pow2(u as nat) > q * pow2(u as nat)) by (nonlinear_arith)
            requires
                pow2(u as nat) > 0,
        ;
    }
}

/// A larger pattern stands for a larger magnitude.
pub proof fn lemma_magnitude_monotonic(j: int, k: int)
    requires
        0 <= j < k,
    ensures
        magnitude(j) < magnitude(k),
    decreases k - j,
{
    lemma_magnitude_step(k - 1);
    if j < k - 1 {
        lemma_magnitude_monotonic(j, k - 1);
    }
}

/// No two patterns are nearest to the same quantity.
pub proof fn lemma_nearest_unique(n: int, d: int, j: int, k: int)
    requires
        d > 0,
        is_nearest(n, d, j),
        is_nearest(n, d, k),
    ensures
        j == k,
{
    lemma_nearest_not_below(n, d, j, k);
    lemma_nearest_not_below(n, d, k, j);
}

proof fn lemma_nearest_not_below(n: int, d: int, j: int, k: int)
    requires
        d > 0,
        is_nearest(n, d, j),
        is_nearest(n, d, k),
    ensures
        k <= j,
{
    if j + 1 < k {
        lemma_magnitude_monotonic(j, k - 1);
        lemma_magnitude_monotonic(j + 1, k);
        assert(d * (magnitude(j) + magnitude(j + 1)) < d * (magnitude(k - 1) + magnitude(k)))
            by (nonlinear_arith)
            requires
                d > 0,
                magnitude(j) < magnitude(k - 1),
                magnitude(j + 1) < magnitude(k),
        ;
    }
}

/// A pattern known to be nearest is the one [`nearest`] names.
pub proof fn lemma_nearest_is(n: int, d: int, k: int)
    requires
        d > 0,
        is_nearest(n, d, k),
    ensures
        nearest(n, d) == k,
{
    lemma_nearest_unique(n, d, nearest(n, d), k);
}

/// Pattern of 0.
pub const ZERO_BITS: u32 = 0;

/// Pattern of 1.
pub const ONE_BITS: u32 = 0x3f80_0000;

/// Pattern of 2^-23, the distance from 1 to the next larger value.
pub const EPSILON_BITS: u32 = 0x3400_0000;

/// Pattern of the value every undefined operation returns.
pub const NOT_A_NUMBER_BITS: u32 = 0x7fc0_0000;

/// Units in the value one.
pub open spec fn one_in_units() -> int {
    pow2(149) as int
}

impl Binary32 {
    /// Pattern without its sign.
    pub open spec fn abs_bits(self) -> int {
        if self.bits < SIGN_BIT {
            self.bits as int
        } else {
            self.bits - SIGN_BIT
        }
    }

    /// Sign bit, also of a zero.
    pub open spec fn negative(self) -> bool {
        self.bits >= SIGN_BIT
    }

    /// Not a number.
    pub open spec fn nan(self) -> bool {
        self.abs_bits() > INFINITY_BITS
    }

    /// Either infinity.
    pub open spec fn infinite(self) -> bool {
        self.abs_bits() == INFINITY_BITS
    }

    /// A number other than the infinities.
    pub open spec fn finite(self) -> bool {
        self.abs_bits() < INFINITY_BITS
    }

    /// Either zero.
    pub open spec fn zero(self) -> bool {
        self.abs_bits() == 0
    }

    /// Exact value of a finite pattern, in units. The infinities count as the
    /// magnitude just beyond the finite ones, so units order every number.
    pub open spec fn units(self) -> int {
        if self.negative() {
            -magnitude(self.abs_bits())
        } else {
            magnitude(self.abs_bits())
        }
    }

    /// Pattern with sign `negative` and magnitude pattern `k`.
    pub open spec fn signed(negative: bool, k: int) -> Binary32 {
        Binary32 {
            bits: (if negative {
                k + SIGN_BIT
            } else {
                k
            }) as u32,
        }
    }

    /// The value every undefined operation returns.
    pub open spec fn undefined() -> Binary32 {
        Binary32 { bits: NOT_A_NUMBER_BITS }
    }

    /// Numeric order: false whenever a side is not a number.
    pub open spec fn below(self, other: Binary32) -> bool {
        !self.nan() && !other.nan() && self.units() < other.units()
    }

    /// Numeric order or equality: false whenever a side is not a number.
    pub open spec fn at_most(self, other: Binary32) -> bool {
        !self.nan() && !other.nan() && self.units() <= other.units()
    }

    /// The value with this bit pattern.
    pub fn from_bits(bits: u32) -> (value: Binary32)
        ensures
            value == (Binary32 { bits }),
    {
        Binary32 { bits }
    }

    pub(crate) fn abs(self) -> (k: u32)
        ensures
            k == self.abs_bits(),
    {
        if self.bits < SIGN_BIT {
            self.bits
        } else {
            self.bits - SIGN_BIT
        }
    }

    pub(crate) fn with_sign(negative: bool, k: u32) -> (value: Binary32)
        requires
            k < SIGN_BIT,
        ensures
            value == Binary32::signed(negative, k as int),
    {
        Binary32 {
            bits: if negative {
                k + SIGN_BIT
            } else {
                k
            },
        }
    }

    /// Whether the value is not a number.
    pub fn is_nan(self) -> (answer: bool)
        ensures
            answer == self.nan(),
    {
        self.abs() > INFINITY_BITS
    }

    /// Whether the value is a number other than the infinities.
    pub fn is_finite(self) -> (answer: bool)
        ensures
            answer == self.finite(),
    {
        self.abs() < INFINITY_BITS
    }

    /// Whether `self < other` numerically.
    pub fn lt(self, other: Binary32) -> (answer: bool)
        ensures
            answer == self.below(other),
    {
        if self.is_nan() || other.is_nan() {
            return false;
        }
        proof {
            lemma_units_order(self, other);
        }
        self.order_key() < other.order_key()
    }

    /// Whether `self <= other` numerically.
    pub fn le(self, other: Binary32) -> (answer: bool)
        ensures
            answer == self.at_most(other),
    {
        if self.is_nan() || other.is_nan() {
            return false;
        }
        proof {
            lemma_units_order(self, other);
        }
        self.order_key() <= other.order_key()
    }

    /// Signed pattern: ordered as the numbers are.
    spec fn key(self) -> int {
        if self.negative() {
            -self.abs_bits()
        } else {
            self.abs_bits()
        }
    }

    fn order_key(self) -> (key: i64)
        ensures
            key == self.key(),
    {
        if self.bits < SIGN_BIT {
            self.bits as i64
        } else {
            -((self.bits - SIGN_BIT) as i64)
        }
    }

    /// The same magnitude with the opposite sign.
    pub fn negated(self) -> (value: Binary32)
        ensures
            value == Binary32::signed(!self.negative(), self.abs_bits()),
    {
        Binary32::with_sign(self.bits < SIGN_BIT, self.abs())
    }

    /// The magnitude, with the sign cleared.
    pub fn absolute(self) -> (value: Binary32)
        ensures
            value == Binary32::signed(false, self.abs_bits()),
    {
        Binary32::with_sign(false, self.abs())
    }
}

/// Units carry the sign bit, and their absolute value is the magnitude.
pub proof fn lemma_units_signs(a: Binary32)
    ensures
        a.negative() ==> a.units() == -magnitude(a.abs_bits()),
        !a.negative() ==> a.units() == magnitude(a.abs_bits()),
        magnitude(a.abs_bits()) >= 0,
        magnitude(a.abs_bits()) == 0 <==> a.zero(),
{
    if a.abs_bits() > 0 {
        lemma_magnitude_monotonic(0, a.abs_bits());
    }
}

/// Units order numbers exactly as their signed patterns do.
proof fn lemma_units_order(a: Binary32, b: Binary32)
    ensures
        a.units() < b.units() <==> a.key() < b.key(),
        a.units() == b.units() <==> a.key() == b.key(),
{
    let ka = a.abs_bits();
    let kb = b.abs_bits();
    if ka > 0 {
        lemma_magnitude_monotonic(0, ka);
    }
    if kb > 0 {
        lemma_magnitude_monotonic(0, kb);
    }
    if ka < kb {
        lemma_magnitude_monotonic(ka, kb);
    }
    if kb < ka {
        lemma_magnitude_monotonic(kb, ka);
    }
}

} // verus!
