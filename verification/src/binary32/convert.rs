//! Conversions between binary32 values, machine integers and text.

use crate::binary32;
use crate::binary32::arithmetic::split;
use crate::binary32::rounding;
use crate::binary32::rounding::{power_of_two, round_to_nearest};
use crate::binary32::{Binary32, BINADE, INFINITY_BITS, SIGN_BIT};
use crate::text;
use crate::text::push_decimal;
use vstd::arithmetic::power2::*;
use vstd::prelude::*;

verus! {

/// The value nearest to an unsigned integer, ties to even.
pub open spec fn of_integer(n: u32) -> Binary32 {
    Binary32::signed(false, binary32::nearest(n * binary32::one_in_units(), 1))
}

/// Value with the fraction cut off, limited to the range of `u32`.
/// Zero when the value is negative or not a number.
pub open spec fn truncated(a: Binary32) -> u32 {
    if a.nan() || a.units() <= 0 {
        0
    } else if a.units() / binary32::one_in_units() > u32::MAX {
        u32::MAX
    } else {
        (a.units() / binary32::one_in_units()) as u32
    }
}

/// Value limited to the range from `low` to `high`; not a number stays as it is.
pub open spec fn clamp(a: Binary32, low: Binary32, high: Binary32) -> Binary32 {
    if a.below(low) {
        low
    } else if high.below(a) {
        high
    } else {
        a
    }
}

/// `n / d` rounded to the nearest integer, ties to even.
pub open spec fn nearest_integer(n: int, d: int) -> int {
    let q = n / d;
    let r = n % d;
    if 2 * r > d || 2 * r == d && q % 2 == 1 {
        q + 1
    } else {
        q
    }
}

/// Decimal text without a fraction of a value that is not negative.
pub open spec fn whole_text(a: Binary32) -> Seq<char> {
    if a.infinite() {
        "inf"@
    } else {
        text::decimal(nearest_integer(a.units(), binary32::one_in_units()) as nat)
    }
}

impl Binary32 {
    /// The value nearest to `n`.
    pub fn from_integer(n: u32) -> (value: Binary32)
        ensures
            value == of_integer(n),
    {
        let ghost units = n * binary32::one_in_units();
        proof {
            lemma2_to64();
            rounding::lemma_scaled_brackets(units, n as int, 149, 0);
        }
        let k: u32 = round_to_nearest(n as u64, 149, false, Ghost(units), Ghost(1int));
        Binary32::with_sign(false, k)
    }

    /// The integer part, limited to the range of `u32`.
    pub fn truncate(self) -> (n: u32)
        ensures
            n == truncated(self),
    {
        proof {
            binary32::lemma_units_signs(self);
            lemma_pow2_pos(149);
        }
        if self.is_nan() || self.bits >= SIGN_BIT {
            return 0;
        }
        if self.bits == INFINITY_BITS {
            proof {
                lemma_large(INFINITY_BITS as int, BINADE as int, 254);
            }
            return u32::MAX;
        }
        let (m, x) = split(self.bits);
        proof {
            lemma2_to64();
        }
        if x >= 149 {
            if x > 180 {
                proof {
                    lemma_large(self.bits as int, m as int, x as int);
                }
                return u32::MAX;
            }
            let up: u32 = x - 149;
            let p: u64 = power_of_two(up);
            proof {
                lemma_pow2_adds(149, up as nat);
                if up < 31 {
                    lemma_pow2_strictly_increases(up as nat, 31);
                }
                assert(m * p <= 0xff_ffff * 0x8000_0000) by (nonlinear_arith)
                    requires
                        0 <= m <= 0xff_ffff,
                        0 < p <= 0x8000_0000,
                ;
                let one = pow2(149) as int;
                assert(m * (one * p) == one * (m * p)) by (nonlinear_arith);
                vstd::arithmetic::div_mod::lemma_div_multiples_vanish((m * p) as int, one);
                if self.bits > 0 {
                    binary32::lemma_magnitude_monotonic(0, self.bits as int);
                }
            }
            let n: u64 = m * p;
            if n > u32::MAX as u64 {
                u32::MAX
            } else {
                n as u32
            }
        } else {
            let down: u32 = 149 - x;
            proof {
                lemma_pow2_adds(down as nat, x as nat);
                lemma_pow2_pos(x as nat);
                lemma_pow2_pos(down as nat);
                vstd::arithmetic::div_mod::lemma_div_denominator(
                    m * pow2(x as nat),
                    pow2(x as nat) as int,
                    pow2(down as nat) as int,
                );
                vstd::arithmetic::mul::lemma_mul_is_commutative(
                    pow2(x as nat) as int,
                    pow2(down as nat) as int,
                );
                vstd::arithmetic::mul::lemma_mul_is_commutative(m as int, pow2(x as nat) as int);
                vstd::arithmetic::div_mod::lemma_div_multiples_vanish(
                    m as int,
                    pow2(x as nat) as int,
                );
                assert(self.units() / binary32::one_in_units() == m as int / pow2(
                    down as nat,
                ) as int);
            }
            if down > 24 {
                proof {
                    lemma_pow2_strictly_increases(24, down as nat);
                    vstd::arithmetic::div_mod::lemma_basic_div(m as int, pow2(down as nat) as int);
                }
                return 0;
            }
            let p: u64 = power_of_two(down);
            let n: u64 = m / p;
            proof {
                assert(n <= m) by (nonlinear_arith)
                    requires
                        n == m / p,
                        p > 0,
                ;
            }
            n as u32
        }
    }

    /// The value limited to the range from `low` to `high`.
    pub fn clamped(self, low: Binary32, high: Binary32) -> (value: Binary32)
        requires
            low.at_most(high),
        ensures
            value == clamp(self, low, high),
    {
        if self.lt(low) {
            low
        } else if high.lt(self) {
            high
        } else {
            self
        }
    }
}

/// Patterns from binade step 181 on exceed the range of `u32`.
proof fn lemma_large(k: int, m: int, x: int)
    requires
        BINADE <= m,
        181 <= x,
        binary32::magnitude(k) == m * pow2(x as nat),
    ensures
        binary32::magnitude(k) / binary32::one_in_units() > u32::MAX,
        binary32::magnitude(k) > 0,
{
    lemma2_to64();
    let up = (x - 149) as nat;
    lemma_pow2_adds(149, up);
    lemma_pow2_pos(149);
    if up > 32 {
        lemma_pow2_strictly_increases(32, up);
    }
    let one = pow2(149) as int;
    let p = pow2(up) as int;
    assert(m * (one * p) == one * (m * p)) by (nonlinear_arith);
    vstd::arithmetic::div_mod::lemma_div_multiples_vanish(m * p, one);
    assert(m * p > u32::MAX) by (nonlinear_arith)
        requires
            m >= 1,
            p > u32::MAX,
    ;
    assert(one * (m * p) > 0) by (nonlinear_arith)
        requires
            one > 0,
            m * p > 0,
    ;
}

/// `m * 2^up`, for the significand and exponent of a finite value.
fn widened(m: u64, up: u32) -> (value: u128)
    requires
        m < 2 * BINADE,
        up <= 104,
    ensures
        value == m * pow2(up as nat),
{
    let mut value: u128 = m as u128;
    let mut i: u32 = 0;
    proof {
        lemma2_to64();
        lemma2_to64_rest();
        assert(m * pow2(0) == m) by (nonlinear_arith)
            requires
                pow2(0) == 1,
        ;
    }
    while i < up
        invariant
            m < 2 * BINADE,
            i <= up <= 104,
            value == m * pow2(i as nat),
        decreases up - i,
    {
        proof {
            lemma2_to64();
            lemma2_to64_rest();
            lemma_pow2_adds(24, i as nat);
            lemma_pow2_adds(64, 63);
            if i + 24 < 127 {
                lemma_pow2_strictly_increases((i + 24) as nat, 127);
            }
            lemma_pow2_pos(i as nat);
            assert(m * pow2(i as nat) < pow2(24) * pow2(i as nat)) by (nonlinear_arith)
                requires
                    m < pow2(24),
                    pow2(i as nat) > 0,
            ;
            lemma_pow2_unfold((i + 1) as nat);
            assert(2 * (m * pow2(i as nat)) == m * pow2((i + 1) as nat)) by (nonlinear_arith)
                requires
                    pow2((i + 1) as nat) == 2 * pow2(i as nat),
            ;
            assert(pow2(127) == 0x8000_0000_0000_0000_0000_0000_0000_0000) by (nonlinear_arith)
                requires
                    pow2(127) == pow2(64) * pow2(63),
                    pow2(64) == 0x1_0000_0000_0000_0000,
                    pow2(63) == 0x8000_0000_0000_0000,
            ;
        }
        value = value * 2;
        i = i + 1;
    }
    value
}

/// Rounding is the same for a fraction cancelled by a common factor.
proof fn lemma_cancelled(m: int, p: int, f: int)
    requires
        m >= 0,
        p > 0,
        f > 0,
    ensures
        nearest_integer(m * f, p * f) == nearest_integer(m, p),
{
    vstd::arithmetic::div_mod::lemma_fundamental_div_mod(m, p);
    let q = m / p;
    let r = m % p;
    assert(m * f == q * (p * f) + r * f) by (nonlinear_arith)
        requires
            m == p * q + r,
    ;
    assert(0 <= r * f < p * f) by (nonlinear_arith)
        requires
            0 <= r < p,
            f > 0,
    ;
    vstd::arithmetic::div_mod::lemma_fundamental_div_mod_converse(m * f, p * f, q, r * f);
    assert(2 * (r * f) == (2 * r) * f) by (nonlinear_arith);
    rounding::lemma_unscale(2 * r, p, f);
    rounding::lemma_unscale(p, 2 * r, f);
}

impl Binary32 {
    /// Appends the decimal text of the value rounded to a whole number.
    pub(crate) fn push_whole(self, out: &mut String)
        requires
            !self.nan(),
            !self.negative(),
        ensures
            final(out)@ == old(out)@ + whole_text(self),
    {
        if self.bits == INFINITY_BITS {
            text::push_text(out, "inf");
            return ;
        }
        let (m, x) = split(self.bits);
        let ghost one = binary32::one_in_units();
        proof {
            lemma2_to64();
            lemma_pow2_pos(149);
            lemma_pow2_pos(x as nat);
        }
        if x >= 149 {
            let n: u128 = widened(m, x - 149);
            proof {
                lemma_pow2_adds(149, (x - 149) as nat);
                let p = pow2((x - 149) as nat) as int;
                assert(m * (one * p) == (m * p) * one) by (nonlinear_arith);
                lemma_cancelled(n as int, 1, one);
                assert(1 * one == one);
            }
            push_decimal(out, n);
            return ;
        }
        let down: u32 = 149 - x;
        proof {
            lemma_pow2_adds(down as nat, x as nat);
            lemma_pow2_pos(down as nat);
            lemma_cancelled(m as int, pow2(down as nat) as int, pow2(x as nat) as int);
        }
        if down > 25 {
            proof {
                lemma_pow2_strictly_increases(25, down as nat);
                vstd::arithmetic::div_mod::lemma_basic_div(m as int, pow2(down as nat) as int);
                vstd::arithmetic::div_mod::lemma_small_mod(m as nat, pow2(down as nat));
            }
            push_decimal(out, 0);
            return ;
        }
        let p: u64 = power_of_two(down);
        let q: u64 = m / p;
        let r: u64 = m % p;
        proof {
            if down < 25 {
                lemma_pow2_strictly_increases(down as nat, 25);
            }
            assert(q <= m) by (nonlinear_arith)
                requires
                    q == m / p,
                    p > 0,
            ;
        }
        let n: u64 = if 2 * r > p || (2 * r == p && q % 2 == 1) {
            q + 1
        } else {
            q
        };
        push_decimal(out, n as u128);
    }
}

} // verus!
