//! Sum, difference, product and quotient of binary32 values.

use crate::binary32;
use crate::binary32::rounding;
use crate::binary32::rounding::{power_of_two, round_to_nearest};
use crate::binary32::{Binary32, BINADE, INFINITY_BITS, NOT_A_NUMBER_BITS, SIGN_BIT};
use vstd::arithmetic::power2::*;
use vstd::prelude::*;

verus! {

/// Absolute value of an integer.
pub open spec fn absolute_of(v: int) -> int {
    if v < 0 {
        -v
    } else {
        v
    }
}

/// IEEE sum: exact, then rounded to nearest, ties to even.
pub open spec fn sum(a: Binary32, b: Binary32) -> Binary32 {
    if a.nan() || b.nan() || a.infinite() && b.infinite() && a.negative() != b.negative() {
        Binary32::undefined()
    } else if a.infinite() {
        a
    } else if b.infinite() {
        b
    } else if a.units() + b.units() == 0 {
        Binary32::signed(a.negative() && b.negative(), 0)
    } else {
        Binary32::signed(
            a.units() + b.units() < 0,
            binary32::nearest(absolute_of(a.units() + b.units()), 1),
        )
    }
}

/// IEEE difference: the sum with the second operand negated.
pub open spec fn difference(a: Binary32, b: Binary32) -> Binary32 {
    sum(a, Binary32::signed(!b.negative(), b.abs_bits()))
}

/// IEEE product: exact, then rounded to nearest, ties to even.
pub open spec fn product(a: Binary32, b: Binary32) -> Binary32 {
    let negative = a.negative() != b.negative();
    if a.nan() || b.nan() || a.infinite() && b.zero() || a.zero() && b.infinite() {
        Binary32::undefined()
    } else if a.infinite() || b.infinite() {
        Binary32::signed(negative, INFINITY_BITS as int)
    } else {
        Binary32::signed(
            negative,
            binary32::nearest(
                absolute_of(a.units()) * absolute_of(b.units()),
                binary32::one_in_units(),
            ),
        )
    }
}

/// IEEE quotient: exact, then rounded to nearest, ties to even.
pub open spec fn quotient(a: Binary32, b: Binary32) -> Binary32 {
    let negative = a.negative() != b.negative();
    if a.nan() || b.nan() || a.infinite() && b.infinite() || a.zero() && b.zero() {
        Binary32::undefined()
    } else if a.infinite() || b.zero() {
        Binary32::signed(negative, INFINITY_BITS as int)
    } else if b.infinite() || a.zero() {
        Binary32::signed(negative, 0)
    } else {
        Binary32::signed(
            negative,
            binary32::nearest(
                absolute_of(a.units()) * binary32::one_in_units(),
                absolute_of(b.units()),
            ),
        )
    }
}

/// Splits a finite magnitude pattern into significand and exponent.
pub(crate) fn split(k: u32) -> (parts: (u64, u32))
    requires
        k < INFINITY_BITS,
    ensures
        binary32::magnitude(k as int) == parts.0 * pow2(parts.1 as nat),
        parts.0 < 2 * BINADE,
        parts.1 <= 253,
        parts.1 > 0 ==> parts.0 >= BINADE,
        parts.0 == 0 <==> k == 0,
{
    proof {
        lemma2_to64();
    }
    if k < BINADE {
        proof {
            assert(k * pow2(0) == k) by (nonlinear_arith)
                requires
                    pow2(0) == 1,
            ;
        }
        (k as u64, 0)
    } else {
        let x: u32 = k / BINADE - 1;
        ((BINADE + k % BINADE) as u64, x)
    }
}

/// Larger minus or plus smaller, where the first exponent is not the smaller.
///
/// `(ma, xa)` and `(mb, xb)` are split magnitudes; the result is the pattern
/// nearest to `ma * 2^xa + mb * 2^xb`, or to the difference when `subtract`.
fn combine(ma: u64, xa: u32, mb: u64, xb: u32, subtract: bool) -> (k: u32)
    requires
        ma < 2 * BINADE,
        mb < 2 * BINADE,
        xa <= 253,
        xb <= xa,
        xa > 0 ==> ma >= BINADE,
        subtract ==> ma * pow2(xa as nat) >= mb * pow2(xb as nat),
    ensures
        subtract ==> k == binary32::nearest(ma * pow2(xa as nat) - mb * pow2(xb as nat), 1),
        !subtract ==> k == binary32::nearest(ma * pow2(xa as nat) + mb * pow2(xb as nat), 1),
        k <= INFINITY_BITS,
{
    let ghost a = ma * pow2(xa as nat);
    let ghost b = mb * pow2(xb as nat);
    let ghost n: int = if subtract { a - b } else { a + b };
    let gap: u32 = xa - xb;
    proof {
        lemma2_to64();
        lemma2_to64_rest();
    }
    if gap >= 40 && mb > 0 {
        proof {
            lemma_pow2_pos(xb as nat);
            lemma_pow2_adds(24, xb as nat);
            assert(0 < b < pow2(24) * pow2(xb as nat)) by (nonlinear_arith)
                requires
                    b == mb * pow2(xb as nat),
                    0 < mb < pow2(24),
                    pow2(xb as nat) > 0,
            ;
            if xb + 24 < xa - 16 {
                lemma_pow2_strictly_increases((xb + 24) as nat, (xa - 16) as nat);
            }
            rounding::lemma_distant_sum_brackets(ma as int, xa as nat, b, !subtract);
        }
        let m: u64 = if subtract {
            ma * 0x1_0000 - 1
        } else {
            ma * 0x1_0000
        };
        return round_to_nearest(m, xa as i32 - 16, true, Ghost(n), Ghost(1int));
    }
    if mb == 0 {
        proof {
            assert(b == 0) by (nonlinear_arith)
                requires
                    b == 0 * pow2(xb as nat),
            ;
            rounding::lemma_scaled_brackets(n, ma as int, xa as nat, 0);
        }
        return round_to_nearest(ma, xa as i32, false, Ghost(n), Ghost(1int));
    }
    let step: u64 = power_of_two(gap);
    proof {
        lemma_pow2_adds(gap as nat, xb as nat);
        if gap < 39 {
            lemma_pow2_strictly_increases(gap as nat, 39);
        }
        assert(ma * step <= 0xff_ffff * 0x80_0000_0000) by (nonlinear_arith)
            requires
                ma <= 0xff_ffff,
                0 < step <= 0x80_0000_0000,
        ;
        let y = pow2(xb as nat) as int;
        lemma_pow2_pos(xb as nat);
        assert(a == (ma * step) * y) by (nonlinear_arith)
            requires
                a == ma * pow2(xa as nat),
                pow2(xa as nat) == step * y,
        ;
        assert((ma * step) * y + mb * y == (ma * step + mb) * y) by (nonlinear_arith);
        assert((ma * step) * y - mb * y == (ma * step - mb) * y) by (nonlinear_arith);
        if subtract {
            assert(ma * step >= mb) by (nonlinear_arith)
                requires
                    (ma * step) * y >= mb * y,
                    y > 0,
            ;
        }
    }
    let m: u64 = if subtract {
        ma * step - mb
    } else {
        ma * step + mb
    };
    proof {
        rounding::lemma_scaled_brackets(n, m as int, xb as nat, 0);
    }
    round_to_nearest(m, xb as i32, false, Ghost(n), Ghost(1int))
}

impl Binary32 {
    /// `self + other`.
    pub fn plus(self, other: Binary32) -> (value: Binary32)
        ensures
            value == sum(self, other),
    {
        let neg_a: bool = self.bits >= SIGN_BIT;
        let neg_b: bool = other.bits >= SIGN_BIT;
        let ka: u32 = self.abs();
        let kb: u32 = other.abs();
        if ka > INFINITY_BITS || kb > INFINITY_BITS || (ka == INFINITY_BITS && kb == INFINITY_BITS
            && neg_a != neg_b) {
            return Binary32 { bits: NOT_A_NUMBER_BITS };
        }
        if ka == INFINITY_BITS {
            return self;
        }
        if kb == INFINITY_BITS {
            return other;
        }
        proof {
            binary32::lemma_units_signs(self);
            binary32::lemma_units_signs(other);
            if ka < kb {
                binary32::lemma_magnitude_monotonic(ka as int, kb as int);
            }
            if kb < ka {
                binary32::lemma_magnitude_monotonic(kb as int, ka as int);
            }
        }
        let (ma, xa) = split(ka);
        let (mb, xb) = split(kb);
        if neg_a == neg_b {
            if ka == 0 && kb == 0 {
                return Binary32::with_sign(neg_a, 0);
            }
            let k: u32 = if xa >= xb {
                combine(ma, xa, mb, xb, false)
            } else {
                combine(mb, xb, ma, xa, false)
            };
            Binary32::with_sign(neg_a, k)
        } else if ka == kb {
            Binary32::with_sign(false, 0)
        } else if ka > kb {
            proof {
                lemma_split_order(ka, ma, xa, kb, mb, xb);
            }
            Binary32::with_sign(neg_a, combine(ma, xa, mb, xb, true))
        } else {
            proof {
                lemma_split_order(kb, mb, xb, ka, ma, xa);
            }
            Binary32::with_sign(neg_b, combine(mb, xb, ma, xa, true))
        }
    }

    /// `self - other`.
    pub fn minus(self, other: Binary32) -> (value: Binary32)
        ensures
            value == difference(self, other),
    {
        self.plus(other.negated())
    }

    /// `self * other`.
    pub fn times(self, other: Binary32) -> (value: Binary32)
        ensures
            value == product(self, other),
    {
        let negative: bool = (self.bits >= SIGN_BIT) != (other.bits >= SIGN_BIT);
        let ka: u32 = self.abs();
        let kb: u32 = other.abs();
        if ka > INFINITY_BITS || kb > INFINITY_BITS || (ka == INFINITY_BITS && kb == 0) || (ka == 0
            && kb == INFINITY_BITS) {
            return Binary32 { bits: NOT_A_NUMBER_BITS };
        }
        if ka == INFINITY_BITS || kb == INFINITY_BITS {
            return Binary32::with_sign(negative, INFINITY_BITS);
        }
        let (ma, xa) = split(ka);
        let (mb, xb) = split(kb);
        let ghost n = absolute_of(self.units()) * absolute_of(other.units());
        proof {
            binary32::lemma_units_signs(self);
            binary32::lemma_units_signs(other);
            lemma2_to64();
            lemma_pow2_pos(149);
            assert(ma * mb <= 0xff_ffff * 0xff_ffff) by (nonlinear_arith)
                requires
                    0 <= ma <= 0xff_ffff,
                    0 <= mb <= 0xff_ffff,
            ;
            lemma_pow2_adds(xa as nat, xb as nat);
            let a = pow2(xa as nat) as int;
            let b = pow2(xb as nat) as int;
            assert((ma * a) * (mb * b) == (ma * mb) * (a * b)) by (nonlinear_arith);
            rounding::lemma_scaled_brackets(n, ma * mb, (xa + xb) as nat, 149);
        }
        let k: u32 = round_to_nearest(
            ma * mb,
            xa as i32 + xb as i32 - 149,
            false,
            Ghost(n),
            Ghost(binary32::one_in_units()),
        );
        Binary32::with_sign(negative, k)
    }

    /// `self / other`.
    pub fn divided_by(self, other: Binary32) -> (value: Binary32)
        ensures
            value == quotient(self, other),
    {
        let negative: bool = (self.bits >= SIGN_BIT) != (other.bits >= SIGN_BIT);
        let ka: u32 = self.abs();
        let kb: u32 = other.abs();
        if ka > INFINITY_BITS || kb > INFINITY_BITS || (ka == INFINITY_BITS && kb == INFINITY_BITS)
            || (ka == 0 && kb == 0) {
            return Binary32 { bits: NOT_A_NUMBER_BITS };
        }
        if ka == INFINITY_BITS || kb == 0 {
            return Binary32::with_sign(negative, INFINITY_BITS);
        }
        if kb == INFINITY_BITS || ka == 0 {
            return Binary32::with_sign(negative, 0);
        }
        let (ma, xa) = split(ka);
        let (mb, xb) = split(kb);
        Binary32::with_sign(negative, divide(ma, xa, mb, xb, Ghost(self), Ghost(other)))
    }
}

/// Pattern nearest to `a / b` for split finite nonzero magnitudes.
fn divide(ma: u64, xa: u32, mb: u64, xb: u32, Ghost(a): Ghost<Binary32>, Ghost(b): Ghost<
    Binary32,
>) -> (k: u32)
    requires
        0 < ma < 2 * BINADE,
        0 < mb < 2 * BINADE,
        xa <= 253,
        xb <= 253,
        binary32::magnitude(a.abs_bits()) == ma * pow2(xa as nat),
        binary32::magnitude(b.abs_bits()) == mb * pow2(xb as nat),
    ensures
        k == binary32::nearest(
            absolute_of(a.units()) * binary32::one_in_units(),
            absolute_of(b.units()),
        ),
        k <= INFINITY_BITS,
{
    let ghost n = absolute_of(a.units()) * binary32::one_in_units();
    let ghost d = absolute_of(b.units());
    // Shift the dividend up until its top bit is in place, so that the
    // quotient keeps well over 24 significant bits.
    let mut t: u32 = 0;
    let mut wide: u64 = ma;
    proof {
        lemma2_to64();
    }
    while wide < BINADE as u64
        invariant
            0 < ma,
            0 < wide < 2 * BINADE,
            t <= 23,
            wide == ma * pow2(t as nat),
            wide >= pow2(t as nat),
        decreases 2 * BINADE - wide,
    {
        proof {
            lemma_pow2_unfold((t + 1) as nat);
            assert(2 * wide == ma * pow2((t + 1) as nat)) by (nonlinear_arith)
                requires
                    wide == ma * pow2(t as nat),
                    pow2((t + 1) as nat) == 2 * pow2(t as nat),
            ;
            if t == 23 {
                lemma2_to64();
            }
        }
        wide = wide * 2;
        t = t + 1;
    }
    let top: u64 = wide * 0x80_0000_0000;
    let q: u64 = top / mb;
    let inexact: bool = top % mb != 0;
    let ghost shift = (t + 39) as nat;
    proof {
        lemma2_to64();
        lemma2_to64_rest();
        lemma_pow2_adds(t as nat, 39);
        assert(top == ma * pow2(shift)) by (nonlinear_arith)
            requires
                top == wide * pow2(39),
                wide == ma * pow2(t as nat),
                pow2(shift) == pow2(t as nat) * pow2(39),
        ;
        vstd::arithmetic::div_mod::lemma_fundamental_div_mod(top as int, mb as int);
        let r = top as int % mb as int;
        assert(q * mb + r == top) by (nonlinear_arith)
            requires
                top as int == mb as int * (top as int / mb as int) + r,
                q as int == top as int / mb as int,
        ;
        assert((q + 1) * mb == q * mb + mb) by (nonlinear_arith);
        assert(q >= 0x200_0000) by (nonlinear_arith)
            requires
                q * mb + r == top,
                r < mb,
                mb < 0x100_0000,
                top >= 0x80_0000 * 0x80_0000_0000,
        ;
        assert(q <= top) by (nonlinear_arith)
            requires
                q * mb + r == top,
                r >= 0,
                mb >= 1,
        ;
        let x = pow2(xa as nat) as int;
        lemma_pow2_pos(xa as nat);
        lemma_pow2_pos(xb as nat);
        lemma_pow2_adds(xa as nat, 149);
        binary32::lemma_units_signs(a);
        binary32::lemma_units_signs(b);
        assert((ma * x) * pow2(149) == ma * (x * pow2(149))) by (nonlinear_arith);
        assert(d > 0) by (nonlinear_arith)
            requires
                d == mb * pow2(xb as nat),
                mb > 0,
                pow2(xb as nat) > 0,
        ;
        rounding::lemma_quotient_brackets(
            n,
            d,
            ma as int,
            mb as int,
            (xa + 149) as nat,
            xb as nat,
            shift,
            q as int,
        );
    }
    let e: i32 = xa as i32 + 149 - (t as i32 + 39) - xb as i32;
    round_to_nearest(q, e, inexact, Ghost(n), Ghost(d))
}

/// A larger pattern has an exponent that is not smaller, and a larger value.
proof fn lemma_split_order(ka: u32, ma: u64, xa: u32, kb: u32, mb: u64, xb: u32)
    requires
        kb < ka < INFINITY_BITS,
        binary32::magnitude(ka as int) == ma * pow2(xa as nat),
        binary32::magnitude(kb as int) == mb * pow2(xb as nat),
        ma < 2 * BINADE,
        mb < 2 * BINADE,
        xb > 0 ==> mb >= BINADE,
    ensures
        xb <= xa,
        ma * pow2(xa as nat) > mb * pow2(xb as nat),
{
    binary32::lemma_magnitude_monotonic(kb as int, ka as int);
    if xa < xb {
        lemma_pow2_unfold(xb as nat);
        if xa < xb - 1 {
            lemma_pow2_strictly_increases(xa as nat, (xb - 1) as nat);
        }
        lemma_pow2_pos(xa as nat);
        assert(ma * pow2(xa as nat) <= mb * pow2(xb as nat)) by (nonlinear_arith)
            requires
                0 <= ma < 2 * BINADE,
                mb >= BINADE,
                pow2(xb as nat) >= 2 * pow2(xa as nat),
                pow2(xa as nat) > 0,
        ;
    }
}

} // verus!
