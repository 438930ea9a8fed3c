//! Rounding an exact quantity of units to the nearest binary32 pattern.
//!
//! A quantity `n / d` reaches this module as a significand `m` and an exponent
//! `e`, with a flag for bits that were cut off below the significand.

use crate::binary32;
use crate::binary32::{BINADE, INFINITY_BITS};
use vstd::arithmetic::power2::*;
use vstd::prelude::*;

verus! {

/// What a truncated significand says of the exact quantity `n / d`.
///
/// Scaled by `low` the quantity is `m * high` exactly, or, when `inexact`,
/// strictly between `m * high` and `(m + 1) * high`.
pub open spec fn brackets(n: int, d: int, m: int, low: int, high: int, inexact: bool) -> bool {
    if inexact {
        &&& d * m * high < n * low
        &&& n * low < d * (m + 1) * high
    } else {
        n * low == d * m * high
    }
}

/// Position of the quantity relative to the grid of step `step`.
proof fn lemma_grid_position(
    n: int,
    d: int,
    m: int,
    low: int,
    high: int,
    inexact: bool,
    q: int,
    r: int,
    s: int,
    step: int,
)
    requires
        d > 0,
        m >= 0,
        low > 0,
        high > 0,
        s > 0,
        step > 0,
        q >= 0,
        0 <= r < s,
        m == q * s + r,
        step * low == high * s,
        brackets(n, d, m, low, high, inexact),
        inexact ==> s % 2 == 0,
    ensures
        n >= d * q * step,
        n < d * (q + 1) * step,
        2 * r < s ==> 2 * n < d * (2 * q + 1) * step,
        2 * r == s && !inexact ==> 2 * n == d * (2 * q + 1) * step,
        2 * r > s || 2 * r == s && inexact ==> 2 * n > d * (2 * q + 1) * step,
{
    let w = d * high;
    assert(w > 0) by (nonlinear_arith)
        requires
            d > 0,
            high > 0,
            w == d * high,
    ;
    assert(d * m * high == w * m) by (nonlinear_arith)
        requires
            w == d * high,
    ;
    assert(d * (m + 1) * high == w * m + w) by (nonlinear_arith)
        requires
            w == d * high,
    ;
    assert(forall|t: int| #[trigger] (d * t * step) * low == w * s * t) by {
        assert forall|t: int| #[trigger] (d * t * step) * low == w * s * t by {
            assert((d * t * step) * low == d * t * (step * low)) by (nonlinear_arith);
            assert(d * t * (high * s) == w * s * t) by (nonlinear_arith)
                requires
                    w == d * high,
            ;
        }
    }
    assert(w * m == w * s * q + w * r) by (nonlinear_arith)
        requires
            m == q * s + r,
    ;
    assert(w * r >= 0 && w * s >= w * (r + 1)) by (nonlinear_arith)
        requires
            w > 0,
            0 <= r < s,
    ;
    assert(w * (r + 1) == w * r + w) by (nonlinear_arith);
    assert(w * s * (q + 1) == w * s * q + w * s) by (nonlinear_arith);
    assert(w * s * (2 * q + 1) == 2 * (w * s * q) + w * s) by (nonlinear_arith);
    assert((d * q * step) * low == w * s * q);
    assert((d * (q + 1) * step) * low == w * s * (q + 1));
    assert((d * (2 * q + 1) * step) * low == w * s * (2 * q + 1));
    lemma_unscale(n, d * q * step, low);
    lemma_unscale(n, d * (q + 1) * step, low);
    lemma_unscale(2 * n, d * (2 * q + 1) * step, low);
    assert((2 * n) * low == 2 * (n * low)) by (nonlinear_arith);
    if 2 * r < s {
        let gap: int = if inexact { 2 } else { 1 };
        assert(w * s >= 2 * (w * r) + gap * w) by (nonlinear_arith)
            requires
                w > 0,
                s >= 2 * r + gap,
        ;
    } else if 2 * r == s {
        assert(w * s == 2 * (w * r)) by (nonlinear_arith)
            requires
                s == 2 * r,
        ;
    } else {
        assert(w * s < 2 * (w * r)) by (nonlinear_arith)
            requires
                w > 0,
                s < 2 * r,
        ;
    }
}

/// Comparing two quantities is the same after scaling both by `low`.
pub proof fn lemma_unscale(a: int, b: int, low: int)
    requires
        low > 0,
    ensures
        a * low < b * low <==> a < b,
        a * low == b * low <==> a == b,
{
    assert(a < b ==> a * low < b * low) by (nonlinear_arith)
        requires
            low > 0,
    ;
    assert(b < a ==> b * low < a * low) by (nonlinear_arith)
        requires
            low > 0,
    ;
}

/// Choosing the nearer of two adjacent grid points gives the nearest pattern.
proof fn lemma_grid_choice(n: int, d: int, u: int, q: int, up: bool)
    requires
        d > 0,
        0 <= u <= 253,
        0 <= q < 2 * BINADE,
        u > 0 ==> q >= BINADE,
        n >= d * q * pow2(u as nat),
        n < d * (q + 1) * pow2(u as nat),
        up ==> 2 * n >= d * (2 * q + 1) * pow2(u as nat),
        up && 2 * n == d * (2 * q + 1) * pow2(u as nat) ==> q % 2 == 1,
        !up ==> 2 * n <= d * (2 * q + 1) * pow2(u as nat),
        !up && 2 * n == d * (2 * q + 1) * pow2(u as nat) ==> q % 2 == 0,
    ensures
        binary32::is_nearest(n, d, u * BINADE + q + (if up { 1int } else { 0 })),
{
    let step = pow2(u as nat) as int;
    let k = u * BINADE + q;
    lemma_pow2_pos(u as nat);
    binary32::lemma_magnitude_parts(u, q);
    binary32::lemma_magnitude_parts(u, q + 1);
    assert(d * (q * step + (q + 1) * step) == d * (2 * q + 1) * step) by (nonlinear_arith);
    if up {
        binary32::lemma_magnitude_step(k + 1);
        assert(d * (q + 1) * step == d * ((q + 1) * step)) by (nonlinear_arith);
        assert(2 * (d * binary32::magnitude(k + 1)) < d * (binary32::magnitude(k + 1) + binary32::magnitude(k + 2)))
            by (nonlinear_arith)
            requires
                d > 0,
                binary32::magnitude(k + 1) < binary32::magnitude(k + 2),
        ;
    } else if k > 0 {
        binary32::lemma_magnitude_step(k - 1);
        assert(d * q * step == d * (q * step)) by (nonlinear_arith);
        assert(2 * (d * binary32::magnitude(k)) > d * (binary32::magnitude(k - 1) + binary32::magnitude(k))) by (nonlinear_arith)
            requires
                d > 0,
                binary32::magnitude(k - 1) < binary32::magnitude(k),
        ;
    }
}

/// A quantity at or above the first unrepresentable power of two rounds to infinity.
proof fn lemma_overflow(n: int, d: int, u: int, q: int)
    requires
        d > 0,
        u > 253,
        q >= BINADE,
        n >= d * q * pow2(u as nat),
    ensures
        binary32::is_nearest(n, d, INFINITY_BITS as int),
{
    let top = INFINITY_BITS as int;
    binary32::lemma_magnitude_parts(254, BINADE as int);
    assert(254 * BINADE + BINADE == top);
    binary32::lemma_magnitude_step(top - 1);
    if u > 254 {
        lemma_pow2_strictly_increases(254, u as nat);
    }
    let step = pow2(u as nat) as int;
    assert(d * q * step >= d * (BINADE * pow2(254))) by (nonlinear_arith)
        requires
            d > 0,
            q >= BINADE,
            step >= pow2(254),
            BINADE > 0,
    ;
    assert(2 * (d * binary32::magnitude(top)) > d * (binary32::magnitude(top - 1) + binary32::magnitude(top)))
        by (nonlinear_arith)
        requires
            d > 0,
            binary32::magnitude(top - 1) < binary32::magnitude(top),
    ;
}

/// Number of significant bits of `m`.
fn bit_length(m: u64) -> (len: u32)
    requires
        m > 0,
    ensures
        1 <= len <= 64,
        pow2((len - 1) as nat) <= m < pow2(len as nat),
{
    let mut len: u32 = 1;
    let mut rest: u64 = m / 2;
    proof {
        lemma2_to64();
    }
    while rest > 0
        invariant
            1 <= len,
            len <= 64,
            pow2((len - 1) as nat) <= m,
            rest as int == m as int / pow2(len as nat) as int,
            rest > 0 ==> len < 64,
        decreases rest,
    {
        let ghost before = rest;
        proof {
            lemma_pow2_pos(len as nat);
            assert(pow2(len as nat) <= m) by (nonlinear_arith)
                requires
                    rest as int == m as int / pow2(len as nat) as int,
                    rest > 0,
                    pow2(len as nat) > 0,
            ;
            vstd::arithmetic::div_mod::lemma_div_denominator(
                m as int,
                pow2(len as nat) as int,
                2,
            );
            lemma_pow2_unfold((len + 1) as nat);
        }
        rest = rest / 2;
        len = len + 1;
        proof {
            assert(pow2(len as nat) == pow2((len - 1) as nat) * 2);
            if len == 64 {
                lemma2_to64_rest();
                assert(m as int / 0x1_0000_0000_0000_0000int == 0);
            }
        }
    }
    proof {
        lemma_pow2_pos(len as nat);
        assert((m as int) < pow2(len as nat)) by (nonlinear_arith)
            requires
                m as int / pow2(len as nat) as int == 0,
                pow2(len as nat) > 0,
        ;
    }
    len
}

/// `2^e` as a machine word.
pub(crate) fn power_of_two(e: u32) -> (p: u64)
    requires
        e < 64,
    ensures
        p == pow2(e as nat),
{
    proof {
        vstd::bits::lemma_u64_pow2_no_overflow(e as nat);
        vstd::bits::lemma_u64_shl_is_mul(1u64, e as u64);
    }
    1u64 << (e as u64)
}

/// The bracket of `m * 2^e` units, for an exponent of either sign.
pub open spec fn brackets_at(n: int, d: int, m: int, e: int, inexact: bool) -> bool {
    brackets(
        n,
        d,
        m,
        pow2((if e < 0 { -e } else { 0 }) as nat) as int,
        pow2((if e > 0 { e } else { 0 }) as nat) as int,
        inexact,
    )
}

/// Zero is the nearest pattern to nothing at all.
proof fn lemma_zero_is_nearest(n: int, d: int)
    requires
        d > 0,
        n == 0,
    ensures
        binary32::is_nearest(n, d, 0),
{
    binary32::lemma_magnitude_step(0);
    assert(d * (binary32::magnitude(0) + binary32::magnitude(1)) > 0) by (nonlinear_arith)
        requires
            d > 0,
            binary32::magnitude(0) == 0,
            binary32::magnitude(1) > 0,
    ;
}

/// Splits off `shift` low bits of `m` and says where the quantity lies.
proof fn lemma_shifted(n: int, d: int, m: int, e: int, inexact: bool, u: int, shift: int, q: int, r: int)
    requires
        d > 0,
        m >= 0,
        u >= 0,
        shift >= 0,
        shift == u - e,
        inexact ==> shift >= 1,
        brackets_at(n, d, m, e, inexact),
        q >= 0,
        m == q * pow2(shift as nat) + r,
        0 <= r < pow2(shift as nat),
    ensures
        n >= d * q * pow2(u as nat),
        n < d * (q + 1) * pow2(u as nat),
        2 * r < pow2(shift as nat) ==> 2 * n < d * (2 * q + 1) * pow2(u as nat),
        2 * r == pow2(shift as nat) && !inexact ==> 2 * n == d * (2 * q + 1) * pow2(u as nat),
        2 * r > pow2(shift as nat) || 2 * r == pow2(shift as nat) && inexact ==> 2 * n > d * (2
            * q + 1) * pow2(u as nat),
{
    let low: int = if e < 0 { -e } else { 0 };
    let high: int = if e > 0 { e } else { 0 };
    lemma_pow2_adds(u as nat, low as nat);
    lemma_pow2_adds(high as nat, shift as nat);
    lemma_pow2_pos(low as nat);
    lemma_pow2_pos(high as nat);
    lemma_pow2_pos(u as nat);
    if shift >= 1 {
        lemma_pow2_unfold(shift as nat);
    }
    lemma_grid_position(
        n,
        d,
        m,
        pow2(low as nat) as int,
        pow2(high as nat) as int,
        inexact,
        q,
        r,
        pow2(shift as nat) as int,
        pow2(u as nat) as int,
    );
}

/// The same quantity written with a smaller exponent and a longer significand.
proof fn lemma_widened(n: int, d: int, m: int, e: int, u: int)
    requires
        0 <= u <= e,
        brackets_at(n, d, m, e, false),
    ensures
        brackets_at(n, d, m * pow2((e - u) as nat), u, false),
{
    lemma_pow2_adds(u as nat, (e - u) as nat);
    lemma2_to64();
    let wide = pow2((e - u) as nat) as int;
    let step = pow2(u as nat) as int;
    assert(d * m * (step * wide) == d * (m * wide) * step) by (nonlinear_arith);
}

/// Nearest pattern to the quantity bracketed by `m * 2^e` units.
pub(crate) fn round_to_nearest(m: u64, e: i32, inexact: bool, Ghost(n): Ghost<int>, Ghost(d): Ghost<int>) -> (k:
    u32)
    requires
        d > 0,
        m < 0x8000_0000_0000_0000,
        -1000 <= e <= 1000,
        inexact ==> m >= 0x200_0000,
        brackets_at(n, d, m as int, e as int, inexact),
    ensures
        k == binary32::nearest(n, d),
        binary32::is_nearest(n, d, k as int),
{
    if m == 0 {
        proof {
            lemma_pow2_pos((if e < 0 { -e } else { 0 }) as nat);
            assert(n == 0) by (nonlinear_arith)
                requires
                    n * pow2((if e < 0 { -e } else { 0 }) as nat) == d * 0 * pow2(
                        (if e > 0 { e } else { 0 }) as nat,
                    ),
                    pow2((if e < 0 { -e } else { 0 }) as nat) > 0,
            ;
            lemma_zero_is_nearest(n, d);
            binary32::lemma_nearest_is(n, d, 0);
        }
        return 0;
    }
    let len: i32 = bit_length(m) as i32;
    proof {
        lemma2_to64();
        lemma2_to64_rest();
        if len == 64 {
            assert(false);
        }
        if inexact && len <= 25 {
            if len < 25 {
                lemma_pow2_strictly_increases(len as nat, 25);
            }
            assert(false);
        }
    }
    let u: i32 = if len + e > 24 {
        len + e - 24
    } else {
        0
    };
    if e >= u {
        let widen: i32 = e - u;
        proof {
            lemma_pow2_adds(len as nat, widen as nat);
            if len + widen < 24 {
                lemma_pow2_strictly_increases((len + widen) as nat, 24);
            }
            lemma_pow2_pos(widen as nat);
            assert(m * pow2(widen as nat) < pow2((len + widen) as nat)) by (nonlinear_arith)
                requires
                    m < pow2(len as nat),
                    pow2(widen as nat) > 0,
                    pow2((len + widen) as nat) == pow2(len as nat) * pow2(widen as nat),
            ;
            lemma_pow2_adds((len - 1) as nat, widen as nat);
            assert(m * pow2(widen as nat) >= pow2((len - 1 + widen) as nat)) by (nonlinear_arith)
                requires
                    m >= pow2((len - 1) as nat),
                    pow2(widen as nat) > 0,
                    pow2((len - 1 + widen) as nat) == pow2((len - 1) as nat) * pow2(widen as nat),
            ;
        }
        let q: u64 = m * power_of_two(widen as u32);
        proof {
            lemma_widened(n, d, m as int, e as int, u as int);
            lemma_shifted(n, d, q as int, u as int, false, u as int, 0, q as int, 0);
        }
        return finish(q, u, false, Ghost(n), Ghost(d));
    }
    let shift: i32 = u - e;
    if shift > len {
        proof {
            assert(u == 0);
            lemma_pow2_unfold(shift as nat);
            if len < shift - 1 {
                lemma_pow2_strictly_increases(len as nat, (shift - 1) as nat);
            }
            lemma_shifted(n, d, m as int, e as int, inexact, 0, shift as int, 0, m as int);
        }
        return finish(0, 0, false, Ghost(n), Ghost(d));
    }
    let s: u64 = power_of_two(shift as u32);
    let q: u64 = m / s;
    let r: u64 = m % s;
    proof {
        lemma_pow2_pos(shift as nat);
        vstd::arithmetic::div_mod::lemma_fundamental_div_mod(m as int, s as int);
        assert(m == q * s + r) by (nonlinear_arith)
            requires
                m as int == s as int * (m as int / s as int) + (m as int % s as int),
                q as int == m as int / s as int,
                r as int == m as int % s as int,
        ;
        lemma_shifted(n, d, m as int, e as int, inexact, u as int, shift as int, q as int, r as int);
        // Bounds on the quotient from the length of `m`.
        lemma_pow2_adds((len - shift) as nat, shift as nat);
        assert(q < pow2((len - shift) as nat)) by (nonlinear_arith)
            requires
                m == q * s + r,
                r >= 0,
                s > 0,
                m < pow2(len as nat),
                pow2(len as nat) == pow2((len - shift) as nat) * s,
        ;
        if len - shift < 24 {
            lemma_pow2_strictly_increases((len - shift) as nat, 24);
        }
        if u > 0 {
            assert(len - shift == 24);
            lemma_pow2_adds(23, shift as nat);
            assert(q >= pow2(23)) by (nonlinear_arith)
                requires
                    m == q * s + r,
                    r < s,
                    s > 0,
                    m >= pow2(23) * s,
            ;
        }
    }
    let half: u64 = s / 2;
    proof {
        lemma_pow2_unfold(shift as nat);
    }
    let up: bool = r > half || (r == half && (inexact || q % 2 == 1));
    finish(q, u, up, Ghost(n), Ghost(d))
}

/// Assembles the pattern from a grid position and a rounding decision.
fn finish(q: u64, u: i32, up: bool, Ghost(n): Ghost<int>, Ghost(d): Ghost<int>) -> (k: u32)
    requires
        d > 0,
        0 <= u,
        q < 2 * BINADE,
        u > 0 ==> q >= BINADE,
        n >= d * q * pow2(u as nat),
        n < d * (q + 1) * pow2(u as nat),
        up ==> 2 * n >= d * (2 * q + 1) * pow2(u as nat),
        up && 2 * n == d * (2 * q + 1) * pow2(u as nat) ==> q % 2 == 1,
        !up ==> 2 * n <= d * (2 * q + 1) * pow2(u as nat),
        !up && 2 * n == d * (2 * q + 1) * pow2(u as nat) ==> q % 2 == 0,
    ensures
        k == binary32::nearest(n, d),
        binary32::is_nearest(n, d, k as int),
{
    if u > 253 {
        proof {
            lemma_overflow(n, d, u as int, q as int);
            binary32::lemma_nearest_is(n, d, INFINITY_BITS as int);
        }
        return INFINITY_BITS;
    }
    let k: u32 = u as u32 * BINADE + q as u32 + if up { 1 } else { 0 };
    proof {
        lemma_grid_choice(n, d, u as int, q as int, up);
        binary32::lemma_nearest_is(n, d, k as int);
    }
    k
}

/// A power-of-two multiple over a power of two brackets itself exactly.
pub proof fn lemma_scaled_brackets(n: int, m: int, t: nat, w: nat)
    requires
        n == m * pow2(t),
    ensures
        brackets_at(n, pow2(w) as int, m, t - w, false),
{
    lemma2_to64();
    let d = pow2(w) as int;
    if t < w {
        lemma_pow2_adds(t, (w - t) as nat);
        let a = pow2(t) as int;
        let b = pow2((w - t) as nat) as int;
        assert(m * a * b == (a * b) * m * 1) by (nonlinear_arith);
    } else {
        lemma_pow2_adds(w, (t - w) as nat);
        let a = pow2(w) as int;
        let b = pow2((t - w) as nat) as int;
        assert(m * (a * b) * 1 == a * m * b) by (nonlinear_arith);
    }
}

/// A truncated quotient brackets the exact one.
pub proof fn lemma_quotient_brackets(
    n: int,
    d: int,
    ma: int,
    mb: int,
    p: nat,
    xb: nat,
    t: nat,
    q: int,
)
    requires
        n == ma * pow2(p),
        d == mb * pow2(xb),
        q * mb <= ma * pow2(t) < (q + 1) * mb,
    ensures
        brackets_at(n, d, q, p - t - xb, q * mb != ma * pow2(t)),
{
    lemma2_to64();
    let e = p - t - xb;
    let top = ma * pow2(t);
    if e < 0 {
        let c = pow2((-e) as nat) as int;
        lemma_pow2_adds(p, (-e) as nat);
        lemma_pow2_adds(t, xb);
        let x = pow2(xb) as int;
        lemma_pow2_pos(xb);
        assert(n * c == top * x) by (nonlinear_arith)
            requires
                n == ma * pow2(p),
                pow2(p) * c == pow2(t) * x,
                top == ma * pow2(t),
        ;
        assert(d * q * 1 == q * mb * x) by (nonlinear_arith)
            requires
                d == mb * x,
        ;
        assert(d * (q + 1) * 1 == (q + 1) * mb * x) by (nonlinear_arith)
            requires
                d == mb * x,
        ;
        lemma_unscale(q * mb, top, x);
        lemma_unscale(top, (q + 1) * mb, x);
    } else {
        let g = (p - t) as nat;
        let c = pow2(e as nat) as int;
        let high: int = if e > 0 { e } else { 0 };
        lemma_pow2_adds(xb, e as nat);
        lemma_pow2_adds(t, g);
        let y = pow2(g) as int;
        lemma_pow2_pos(g);
        assert(pow2(high as nat) == c);
        assert(n * 1 == top * y) by (nonlinear_arith)
            requires
                n == ma * pow2(p),
                pow2(p) == pow2(t) * y,
                top == ma * pow2(t),
        ;
        assert(d * q * c == q * mb * y) by (nonlinear_arith)
            requires
                d == mb * pow2(xb),
                pow2(xb) * c == y,
        ;
        assert(d * (q + 1) * c == (q + 1) * mb * y) by (nonlinear_arith)
            requires
                d == mb * pow2(xb),
                pow2(xb) * c == y,
        ;
        lemma_unscale(q * mb, top, y);
        lemma_unscale(top, (q + 1) * mb, y);
    }
}

/// A sum whose smaller term is below the last kept bit.
pub proof fn lemma_distant_sum_brackets(ma: int, xa: nat, small: int, added: bool)
    requires
        xa >= 40,
        0 < small < pow2((xa - 16) as nat),
    ensures
        added ==> brackets_at(
            ma * pow2(xa) + small,
            1,
            ma * 0x1_0000,
            xa - 16,
            true,
        ),
        !added ==> brackets_at(
            ma * pow2(xa) - small,
            1,
            ma * 0x1_0000 - 1,
            xa - 16,
            true,
        ),
{
    lemma2_to64();
    lemma_pow2_adds(16, (xa - 16) as nat);
    let h = pow2((xa - 16) as nat) as int;
    assert(ma * (0x1_0000 * h) == ma * 0x1_0000 * h) by (nonlinear_arith);
    let m = ma * 0x1_0000;
    assert(1 * m * h == m * h);
    assert(1 * (m + 1) * h == m * h + h) by (nonlinear_arith);
    assert(1 * (m - 1) * h == m * h - h) by (nonlinear_arith);
}

} // verus!
