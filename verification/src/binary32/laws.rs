//! What holds of binary32 arithmetic as a whole.

use crate::binary32;
use crate::binary32::arithmetic;
use crate::binary32::convert;
use crate::binary32::{Binary32, BINADE, INFINITY_BITS, ONE_BITS};
use vstd::arithmetic::power2::*;
use vstd::prelude::*;

verus! {

/// Every quantity has a nearest pattern.
pub proof fn lemma_nearest_exists(n: int, d: int)
    requires
        n >= 0,
        d > 0,
    ensures
        binary32::is_nearest(n, d, binary32::nearest(n, d)),
{
    lemma_nearest_exists_from(n, d, 0);
}

proof fn lemma_nearest_exists_from(n: int, d: int, k: int)
    requires
        n >= 0,
        d > 0,
        0 <= k <= INFINITY_BITS,
        k > 0 ==> 2 * n > d * (binary32::magnitude(k - 1) + binary32::magnitude(k)),
    ensures
        exists|j: int| binary32::is_nearest(n, d, j),
    decreases INFINITY_BITS - k,
{
    let above = d * (binary32::magnitude(k) + binary32::magnitude(k + 1));
    if k == INFINITY_BITS || 2 * n < above || 2 * n == above && k % 2 == 0 {
        assert(binary32::is_nearest(n, d, k));
    } else if 2 * n == above {
        binary32::lemma_magnitude_step(k);
        binary32::lemma_magnitude_step(k + 1);
        assert(above < d * (binary32::magnitude(k + 1) + binary32::magnitude(k + 2)))
            by (nonlinear_arith)
            requires
                d > 0,
                above == d * (binary32::magnitude(k) + binary32::magnitude(k + 1)),
                binary32::magnitude(k) < binary32::magnitude(k + 1),
                binary32::magnitude(k + 1) < binary32::magnitude(k + 2),
        ;
        assert(binary32::is_nearest(n, d, k + 1));
    } else {
        lemma_nearest_exists_from(n, d, k + 1);
    }
}

/// A quantity that a pattern stands for exactly rounds to that pattern.
pub proof fn lemma_exact(n: int, d: int, k: int)
    requires
        d > 0,
        0 <= k < INFINITY_BITS,
        n == d * binary32::magnitude(k),
    ensures
        binary32::nearest(n, d) == k,
{
    binary32::lemma_magnitude_step(k);
    let m = binary32::magnitude(k);
    let up = binary32::magnitude(k + 1);
    assert(2 * (d * m) < d * (m + up)) by (nonlinear_arith)
        requires
            d > 0,
            m < up,
    ;
    if k > 0 {
        binary32::lemma_magnitude_step(k - 1);
        let down = binary32::magnitude(k - 1);
        assert(2 * (d * m) > d * (down + m)) by (nonlinear_arith)
            requires
                d > 0,
                down < m,
        ;
    }
    binary32::lemma_nearest_is(n, d, k);
}

/// Adding or subtracting finite values never gives "not a number".
pub proof fn lemma_difference_is_number(a: Binary32, b: Binary32)
    requires
        a.finite(),
        b.finite(),
    ensures
        !arithmetic::sum(a, b).nan(),
        !arithmetic::difference(a, b).nan(),
{
    let c = Binary32::signed(!b.negative(), b.abs_bits());
    if a.units() + b.units() != 0 {
        lemma_nearest_exists(arithmetic::absolute_of(a.units() + b.units()), 1);
    }
    if a.units() + c.units() != 0 {
        lemma_nearest_exists(arithmetic::absolute_of(a.units() + c.units()), 1);
    }
}

/// Dividing a number by a finite nonzero value gives a number.
pub proof fn lemma_quotient_is_number(a: Binary32, b: Binary32)
    requires
        !a.nan(),
        b.finite(),
        !b.zero(),
    ensures
        !arithmetic::quotient(a, b).nan(),
{
    binary32::lemma_units_signs(a);
    binary32::lemma_units_signs(b);
    if a.finite() && !a.zero() {
        lemma_pow2_pos(149);
        let n = arithmetic::absolute_of(a.units()) * binary32::one_in_units();
        assert(n >= 0) by (nonlinear_arith)
            requires
                n == arithmetic::absolute_of(a.units()) * binary32::one_in_units(),
                arithmetic::absolute_of(a.units()) >= 0,
                binary32::one_in_units() > 0,
        ;
        lemma_nearest_exists(n, arithmetic::absolute_of(b.units()));
    }
}

/// A number clamped between two numbers lies between them.
pub proof fn lemma_clamp_bounds(a: Binary32, low: Binary32, high: Binary32)
    requires
        !a.nan(),
        low.at_most(high),
    ensures
        low.at_most(convert::clamp(a, low, high)),
        convert::clamp(a, low, high).at_most(high),
{
}

/// A finite nonzero value divided by itself is exactly one.
pub proof fn lemma_self_quotient(a: Binary32)
    requires
        a.finite(),
        !a.zero(),
    ensures
        arithmetic::quotient(a, a) == (Binary32 { bits: ONE_BITS }),
{
    binary32::lemma_units_signs(a);
    let u = arithmetic::absolute_of(a.units());
    lemma2_to64();
    lemma_whole(ONE_BITS as int, BINADE as int, 126, 1, 23);
    assert(u * binary32::one_in_units() == u * binary32::magnitude(ONE_BITS as int));
    lemma_exact(u * binary32::one_in_units(), u, ONE_BITS as int);
}

/// Value of a pattern: significand `m` at exponent step `x` is the whole number
/// `w` times one, where `m` is `w * 2^t`.
pub proof fn lemma_whole(k: int, m: int, x: nat, w: int, t: nat)
    requires
        BINADE <= m < 2 * BINADE,
        k == x * BINADE + m,
        m == w * pow2(t),
        x + t == 149,
    ensures
        binary32::magnitude(k) == w * binary32::one_in_units(),
{
    binary32::lemma_magnitude_parts(x as int, m);
    lemma_pow2_adds(t, x);
    assert(w * pow2(t) * pow2(x) == w * (pow2(t) * pow2(x))) by (nonlinear_arith);
}

/// Every 24-bit significand at an exponent in range is represented exactly.
pub proof fn lemma_representable(m: int, x: nat)
    requires
        0 <= m < 2 * BINADE,
        x <= 253,
    ensures
        exists|k: int|
            0 <= k < INFINITY_BITS && #[trigger] binary32::magnitude(k) == m * pow2(x),
    decreases x,
{
    if x == 0 || m >= BINADE {
        binary32::lemma_magnitude_parts(x as int, m);
        assert(binary32::magnitude(x * BINADE + m) == m * pow2(x));
    } else {
        lemma_pow2_unfold(x);
        lemma_representable(2 * m, (x - 1) as nat);
        assert(m * pow2(x) == (2 * m) * pow2((x - 1) as nat)) by (nonlinear_arith)
            requires
                pow2(x) == 2 * pow2((x - 1) as nat),
        ;
    }
}

/// Rounding does not cross a representable value from below: a quantity that is
/// at most the value of a pattern is rounded to that pattern or a smaller one.
pub proof fn lemma_rounds_at_most(n: int, d: int, k: int, bound: int)
    requires
        d > 0,
        binary32::is_nearest(n, d, k),
        bound >= 0,
        n <= d * binary32::magnitude(bound),
    ensures
        k <= bound,
{
    if k > bound {
        binary32::lemma_magnitude_monotonic(bound, k);
        if bound < k - 1 {
            binary32::lemma_magnitude_monotonic(bound, k - 1);
        }
        let m = binary32::magnitude(bound);
        let s = binary32::magnitude(k - 1) + binary32::magnitude(k);
        assert(d * s > 2 * (d * m)) by (nonlinear_arith)
            requires
                d > 0,
                s > 2 * m,
        ;
    }
}

/// Nor from above: a quantity that is at least the value of a pattern is rounded
/// to that pattern or a larger one.
pub proof fn lemma_rounds_at_least(n: int, d: int, k: int, bound: int)
    requires
        d > 0,
        binary32::is_nearest(n, d, k),
        bound <= INFINITY_BITS,
        n >= d * binary32::magnitude(bound),
    ensures
        k >= bound,
{
    if k < bound {
        binary32::lemma_magnitude_monotonic(k, bound);
        if k + 1 < bound {
            binary32::lemma_magnitude_monotonic(k + 1, bound);
        }
        let m = binary32::magnitude(bound);
        let s = binary32::magnitude(k) + binary32::magnitude(k + 1);
        assert(d * s < 2 * (d * m)) by (nonlinear_arith)
            requires
                d > 0,
                s < 2 * m,
        ;
    }
}

/// A share of at most one never makes a value larger.
pub proof fn lemma_share_does_not_exceed(a: Binary32, share: Binary32)
    requires
        a.finite(),
        0 <= a.units(),
        share.finite(),
        0 <= share.units() <= binary32::one_in_units(),
    ensures
        arithmetic::product(a, share).finite(),
        arithmetic::product(a, share).units() <= a.units(),
{
    let one = binary32::one_in_units();
    let n = a.units() * share.units();
    binary32::lemma_units_signs(a);
    lemma_pow2_pos(149);
    lemma_nearest_exists(n, one);
    let k = binary32::nearest(n, one);
    assert(0 <= n <= one * a.units()) by (nonlinear_arith)
        requires
            n == a.units() * share.units(),
            0 <= a.units(),
            0 <= share.units() <= one,
    ;
    if a.negative() {
        assert(a.abs_bits() == 0);
    }
    assert(binary32::magnitude(a.abs_bits()) == a.units());
    lemma_rounds_at_most(n, one, k, a.abs_bits());
    if k < a.abs_bits() {
        binary32::lemma_magnitude_monotonic(k, a.abs_bits());
    }
    if k > 0 {
        binary32::lemma_magnitude_monotonic(0, k);
    }
}

/// A significand `m` at exponent step `x` is the nearest to the share `n / d`
/// of one if the share lies within half a place of it.
pub proof fn lemma_share(k: int, m: int, x: nat, t: nat, n: int, d: int)
    requires
        BINADE < m < 2 * BINADE - 1,
        k == x * BINADE + m,
        k < INFINITY_BITS,
        x + t == 149,
        d > 0,
        2 * n * pow2(t) > d * (2 * m - 1),
        2 * n * pow2(t) < d * (2 * m + 1),
    ensures
        binary32::is_nearest(n * binary32::one_in_units(), d, k),
{
    binary32::lemma_magnitude_parts(x as int, m);
    binary32::lemma_magnitude_parts(x as int, m - 1);
    binary32::lemma_magnitude_parts(x as int, m + 1);
    lemma_pow2_adds(t, x);
    lemma_pow2_pos(x);
    let p = pow2(x) as int;
    let h = pow2(t) as int;
    assert(2 * (n * (h * p)) > d * ((m - 1) * p + m * p)) by (nonlinear_arith)
        requires
            p > 0,
            2 * n * h > d * (2 * m - 1),
    ;
    assert(2 * (n * (h * p)) < d * (m * p + (m + 1) * p)) by (nonlinear_arith)
        requires
            p > 0,
            2 * n * h < d * (2 * m + 1),
    ;
}

/// An integer of up to 2^27 is represented with an error of at most four.
pub proof fn lemma_integer_error(n: u32)
    requires
        n <= 0x800_0000,
    ensures
        convert::of_integer(n).finite(),
        !convert::of_integer(n).negative(),
        0 <= convert::of_integer(n).units() <= (n + 4) * binary32::one_in_units(),
{
    let one = binary32::one_in_units();
    let top: int = 0x4d00_0000;
    lemma2_to64();
    lemma_pow2_pos(149);
    lemma_pow2_adds(3, 149);
    binary32::lemma_magnitude_parts(153, BINADE as int);
    lemma_pow2_adds(23, 153);
    lemma_pow2_adds(27, 149);
    assert(binary32::magnitude(top) == 0x800_0000 * one);
    let q = n * one;
    lemma_nearest_exists(q, 1);
    let k = binary32::nearest(q, 1);
    assert(0 <= q <= 0x800_0000 * one) by (nonlinear_arith)
        requires
            q == n * one,
            one > 0,
            0 <= n <= 0x800_0000,
    ;
    lemma_rounds_at_most(q, 1, k, top);
    if k > 0 {
        binary32::lemma_magnitude_monotonic(0, k);
        lemma_step_size(k - 1, 152);
        assert((n + 4) * one == n * one + 4 * one) by (nonlinear_arith);
    } else {
        assert((n + 4) * one >= 0) by (nonlinear_arith)
            requires
                one > 0,
                n >= 0,
        ;
    }
}

/// Two neighbouring patterns are at most `2^x` units apart up to the exponent
/// step `x`.
pub proof fn lemma_step_size(k: int, x: nat)
    requires
        0 <= k < (x + 2) * BINADE,
    ensures
        binary32::magnitude(k + 1) - binary32::magnitude(k) <= pow2(x),
{
    lemma2_to64();
    lemma_pow2_pos(x);
    if k < BINADE {
        binary32::lemma_magnitude_parts(0, k);
        binary32::lemma_magnitude_parts(0, k + 1);
    } else {
        let u = k / (BINADE as int) - 1;
        let q = BINADE + k % (BINADE as int);
        assert(k == u * BINADE + q);
        assert(u <= x);
        binary32::lemma_magnitude_parts(u, q);
        binary32::lemma_magnitude_parts(u, q + 1);
        if u < x {
            lemma_pow2_strictly_increases(u as nat, x);
        }
        let p = pow2(u as nat) as int;
        assert((q + 1) * p - q * p == p) by (nonlinear_arith);
    }
}

/// Integers of up to 24 bits are represented exactly.
pub proof fn lemma_integer_exact(n: u32)
    requires
        n < 0x100_0000,
    ensures
        convert::of_integer(n).finite(),
        !convert::of_integer(n).negative(),
        convert::of_integer(n).units() == n * binary32::one_in_units(),
{
    let one = binary32::one_in_units();
    lemma_representable(n as int, 149);
    let k = choose|k: int|
        0 <= k < INFINITY_BITS && binary32::magnitude(k) == n * pow2(149);
    lemma_exact(n * one, 1, k);
}

/// Rounding depends on a quantity, not on the fraction that writes it.
pub proof fn lemma_nearest_scaled(n: int, d: int, c: int, k: int)
    requires
        c > 0,
        binary32::is_nearest(n * c, d * c, k),
    ensures
        binary32::is_nearest(n, d, k),
{
    let below = binary32::magnitude(k - 1) + binary32::magnitude(k);
    let above = binary32::magnitude(k) + binary32::magnitude(k + 1);
    lemma_scaled_order(n, d, c, below);
    lemma_scaled_order(n, d, c, above);
}

proof fn lemma_scaled_order(n: int, d: int, c: int, s: int)
    by (nonlinear_arith)
    requires
        c > 0,
    ensures
        2 * (n * c) >= (d * c) * s <==> 2 * n >= d * s,
        2 * (n * c) <= (d * c) * s <==> 2 * n <= d * s,
        2 * (n * c) == (d * c) * s <==> 2 * n == d * s,
{
}

/// Adding either zero to a finite nonzero value gives the value.
pub proof fn lemma_sum_with_zero(a: Binary32, zero: Binary32)
    requires
        a.finite(),
        !a.zero(),
        zero.zero(),
    ensures
        arithmetic::sum(a, zero) == a,
{
    binary32::lemma_units_signs(a);
    binary32::lemma_units_signs(zero);
    let n = arithmetic::absolute_of(a.units());
    lemma_exact(n, 1, a.abs_bits());
}

/// A sum rounds once: where the exact sum is the value of a pattern, it is that
/// pattern.
pub proof fn lemma_exact_sum(a: Binary32, b: Binary32, k: int)
    requires
        a.finite(),
        b.finite(),
        0 < k < INFINITY_BITS,
        a.units() + b.units() == binary32::magnitude(k),
    ensures
        arithmetic::sum(a, b) == Binary32::signed(false, k),
{
    binary32::lemma_magnitude_monotonic(0, k);
    lemma_exact(a.units() + b.units(), 1, k);
}

/// Products do not depend on the order of their factors.
pub proof fn lemma_product_commutes(a: Binary32, b: Binary32)
    ensures
        arithmetic::product(a, b) == arithmetic::product(b, a),
{
    vstd::arithmetic::mul::lemma_mul_is_commutative(
        arithmetic::absolute_of(a.units()),
        arithmetic::absolute_of(b.units()),
    );
}

/// Arithmetic on finite values is exact and then rounded once, to the nearest
/// value; the sign is that of the exact result.
pub proof fn lemma_arithmetic_rounds_once(a: Binary32, b: Binary32)
    requires
        a.finite(),
        b.finite(),
    ensures
        ({
            let sum = arithmetic::sum(a, b);
            let difference = arithmetic::difference(a, b);
            let product = arithmetic::product(a, b);
            let quotient = arithmetic::quotient(a, b);
            let one = binary32::one_in_units();
            let plus = a.units() + b.units();
            let minus = a.units() - b.units();
            &&& binary32::is_nearest(arithmetic::absolute_of(plus), 1, sum.abs_bits())
            &&& plus < 0 ==> sum.negative()
            &&& plus > 0 ==> !sum.negative()
            &&& binary32::is_nearest(arithmetic::absolute_of(minus), 1, difference.abs_bits())
            &&& minus < 0 ==> difference.negative()
            &&& minus > 0 ==> !difference.negative()
            &&& binary32::is_nearest(
                arithmetic::absolute_of(a.units()) * arithmetic::absolute_of(b.units()),
                one,
                product.abs_bits(),
            )
            &&& product.negative() == (a.negative() != b.negative())
            &&& !b.zero() ==> binary32::is_nearest(
                arithmetic::absolute_of(a.units()) * one,
                arithmetic::absolute_of(b.units()),
                quotient.abs_bits(),
            )
            &&& !b.zero() ==> quotient.negative() == (a.negative() != b.negative())
            &&& b.zero() && !a.zero() ==> quotient.infinite()
            &&& b.zero() && a.zero() ==> quotient.nan()
        }),
{
    let one = binary32::one_in_units();
    lemma_pow2_pos(149);
    binary32::lemma_units_signs(a);
    binary32::lemma_units_signs(b);
    binary32::lemma_units_signs(Binary32::signed(!b.negative(), b.abs_bits()));
    let plus = arithmetic::absolute_of(a.units() + b.units());
    let minus = arithmetic::absolute_of(a.units() - b.units());
    let times = arithmetic::absolute_of(a.units()) * arithmetic::absolute_of(b.units());
    let over = arithmetic::absolute_of(a.units()) * one;
    assert(times >= 0) by (nonlinear_arith)
        requires
            times == arithmetic::absolute_of(a.units()) * arithmetic::absolute_of(b.units()),
            arithmetic::absolute_of(a.units()) >= 0,
            arithmetic::absolute_of(b.units()) >= 0,
    ;
    assert(over >= 0) by (nonlinear_arith)
        requires
            over == arithmetic::absolute_of(a.units()) * one,
            arithmetic::absolute_of(a.units()) >= 0,
            one > 0,
    ;
    lemma_nearest_exists(plus, 1);
    lemma_nearest_exists(minus, 1);
    lemma_nearest_exists(times, one);
    if !b.zero() {
        lemma_nearest_exists(over, arithmetic::absolute_of(b.units()));
        if a.zero() {
            assert(over == 0) by (nonlinear_arith)
                requires
                    over == 0 * one,
            ;
            assert(binary32::magnitude(1) == 1);
        }
    }
}

/// Cutting the fraction off: the whole ones of a value that is not negative, as
/// far as they fit, and zero for what is no positive number.
pub proof fn lemma_truncation(a: Binary32)
    ensures
        ({
            let one = binary32::one_in_units();
            let whole = convert::truncated(a);
            &&& a.nan() || a.units() <= 0 ==> whole == 0
            &&& !a.nan() && 0 <= a.units() < (u32::MAX + 1) * one ==> whole * one <= a.units()
                < (whole + 1) * one
            &&& !a.nan() && a.units() >= (u32::MAX + 1) * one ==> whole == u32::MAX
        }),
{
    let one = binary32::one_in_units();
    lemma_pow2_pos(149);
    let u = a.units();
    vstd::arithmetic::div_mod::lemma_fundamental_div_mod(u, one);
    vstd::arithmetic::div_mod::lemma_mod_bound(u, one);
    let q = u / one;
    assert(q * one <= u < (q + 1) * one) by (nonlinear_arith)
        requires
            u == one * q + u % one,
            0 <= u % one < one,
    ;
    if u >= 0 {
        assert(q >= 0) by (nonlinear_arith)
            requires
                u < (q + 1) * one,
                u >= 0,
                one > 0,
        ;
        if q > u32::MAX {
            assert(u >= (u32::MAX + 1) * one) by (nonlinear_arith)
                requires
                    q * one <= u,
                    q >= u32::MAX + 1,
                    one > 0,
            ;
        } else {
            assert(u < (u32::MAX + 1) * one) by (nonlinear_arith)
                requires
                    u < (q + 1) * one,
                    q <= u32::MAX,
                    one > 0,
            ;
        }
    }
    if u == 0 {
        assert(q == 0) by (nonlinear_arith)
            requires
                q * one <= 0,
                q >= 0,
                one > 0,
        ;
    }
}

/// A number within the limits is left as it is, one beyond them becomes the
/// limit, and what is no number stays none.
pub proof fn lemma_clamping(a: Binary32, low: Binary32, high: Binary32)
    requires
        low.at_most(high),
    ensures
        a.nan() ==> convert::clamp(a, low, high) == a,
        low.at_most(a) && a.at_most(high) ==> convert::clamp(a, low, high) == a,
        a.below(low) ==> convert::clamp(a, low, high) == low,
        high.below(a) ==> convert::clamp(a, low, high) == high,
{
}

/// Rounding to a whole number goes to the nearest one, and from the middle to
/// the even one.
pub proof fn lemma_nearest_integer(n: int, d: int)
    requires
        d > 0,
    ensures
        ({
            let q = convert::nearest_integer(n, d);
            &&& -d <= 2 * (n - q * d) <= d
            &&& 2 * (n - q * d) == d || 2 * (n - q * d) == -d ==> q % 2 == 0
        }),
{
    let f = n / d;
    vstd::arithmetic::div_mod::lemma_fundamental_div_mod(n, d);
    vstd::arithmetic::div_mod::lemma_mod_bound(n, d);
    assert(n - f * d == n % d) by (nonlinear_arith)
        requires
            n == d * f + n % d,
    ;
    assert(n - (f + 1) * d == n % d - d) by (nonlinear_arith)
        requires
            n == d * f + n % d,
    ;
}

} // verus!
