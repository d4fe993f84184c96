//! Fixed-point elementary functions for the Web Mercator transforms.
//!
//! Values are scaled by [`FX`] (`1e12`): a fixed-point number `x`
//! stands for the real number `x / FX`.  Each function computes a
//! truncated power series with exact integer arithmetic — every
//! operation is a widening multiply, an integer division or an exact
//! sum — and its contract states the computed value exactly, as the
//! spec-level mirror of the same integer expression.  Out-of-range
//! partial sums are saturated into the function's documented range, so
//! the functions are total on their stated domains and never panic.

use vstd::prelude::*;

use vstd::arithmetic::div_mod::lemma_div_pos_is_pos;
use vstd::arithmetic::div_mod::lemma_mod_bound;
use vstd::arithmetic::div_mod::lemma_multiply_divide_le;
use vstd::arithmetic::div_mod::lemma_multiply_divide_lt;
use vstd::arithmetic::power2::lemma2_to64;
use vstd::arithmetic::power2::lemma_pow2_strictly_increases;
use vstd::arithmetic::power2::pow2;

verus! {

/// Fixed-point one: all kernel values are scaled by `1e12`.
pub const FX: u64 = 1_000_000_000_000;

/// `pi` at scale [`FX`].
pub const PI_FX: u64 = 3_141_592_653_590;

/// `pi / 2` at scale [`FX`]; twice this is exactly [`PI_FX`].
pub const HALF_PI_FX: u64 = 1_570_796_326_795;

/// `pi / 4` at scale [`FX`].
pub const QUARTER_PI_FX: u64 = 785_398_163_397;

/// `ln 2` at scale [`FX`].
pub const LN2_FX: u64 = 693_147_180_560;

/// `tan(pi / 8)` at scale [`FX`].
pub const TAN_EIGHTH_PI_FX: u64 = 414_213_562_373;

/// Fixed-point product: `(a * b) / FX`, exactly.
fn mul_fx(a: u64, b: u64) -> (r: u64)
    requires
        a <= 40_000_000_000_000_000,
        b <= 4_000_000_000_000,
    ensures
        r as int == (a as int * b as int) / (FX as int),
        r <= 4 * a,
{
    proof {
        assert(a as int * b as int <= a as int * 4_000_000_000_000) by (nonlinear_arith)
            requires
                a >= 0,
                b <= 4_000_000_000_000,
        ;
        assert(a as int * 4_000_000_000_000 == (FX as int) * (4 * a as int)) by (nonlinear_arith);
        lemma_multiply_divide_le(a as int * b as int, FX as int, 4 * a as int);
        lemma_div_pos_is_pos(a as int * b as int, FX as int);
        assert((a as u128) * (b as u128) == (a as int * b as int) as u128) by (nonlinear_arith)
            requires
                a <= u64::MAX,
                b <= u64::MAX,
        ;
    }
    (((a as u128) * (b as u128)) / (FX as u128)) as u64
}

/// Fixed-point ratio: `(num * FX) / den`, exactly; at most `FX` when
/// `num <= den`.
fn div_fx(num: u64, den: u64) -> (r: u64)
    requires
        1 <= den,
        num <= den,
    ensures
        r as int == (num as int * FX as int) / (den as int),
        r <= FX,
{
    proof {
        assert(num as int * FX as int <= den as int * FX as int) by (nonlinear_arith)
            requires
                num <= den,
                FX >= 0,
        ;
        lemma_multiply_divide_le(num as int * FX as int, den as int, FX as int);
        lemma_div_pos_is_pos(num as int * FX as int, den as int);
        assert((num as u128) * (FX as u128) == (num as int * FX as int) as u128)
            by (nonlinear_arith)
            requires
                num <= u64::MAX,
        ;
    }
    (((num as u128) * (FX as u128)) / (den as u128)) as u64
}

/// `a / b` rounded to the nearest integer (halves round up):
/// `(2a + b) / (2b)`.
pub open spec fn round_div_spec(a: int, b: int) -> int {
    (2 * a + b) / (2 * b)
}

/// Round-to-nearest division on wide intermediates.
pub fn round_div_128(a: u128, b: u128) -> (r: u64)
    requires
        1 <= b,
        a <= 0x1000_0000_0000_0000_0000_0000_0000_0000,
        b <= 0x1000_0000_0000_0000_0000_0000_0000_0000,
        round_div_spec(a as int, b as int) <= u64::MAX,
    ensures
        r as int == round_div_spec(a as int, b as int),
{
    proof {
        lemma_div_pos_is_pos(2 * a as int + b as int, 2 * b as int);
    }
    ((2 * a + b) / (2 * b)) as u64
}

/// Round-to-nearest division is monotone in the numerator.
pub proof fn lemma_round_div_ordered(a1: int, a2: int, b: int)
    requires
        a1 <= a2,
        1 <= b,
    ensures
        round_div_spec(a1, b) <= round_div_spec(a2, b),
{
    vstd::arithmetic::div_mod::lemma_div_is_ordered(2 * a1 + b, 2 * a2 + b, 2 * b);
}

/// Bounds a round-to-nearest division from a bound on its numerator.
pub proof fn lemma_round_div_bounds(a: int, b: int, amax: int, c: int)
    requires
        0 <= a <= amax,
        1 <= b,
        2 * amax + b < 2 * b * (c + 1),
    ensures
        0 <= round_div_spec(a, b) <= c,
{
    lemma_div_pos_is_pos(2 * a + b, 2 * b);
    vstd::arithmetic::div_mod::lemma_div_is_ordered(2 * a + b, 2 * amax + b, 2 * b);
    lemma_multiply_divide_lt(2 * amax + b, 2 * b, c + 1);
}

/// Saturates an exact signed partial sum into `[0, cap]`.
pub open spec fn clamp_spec(s: int, cap: int) -> int {
    if s < 0 {
        0
    } else if s > cap {
        cap
    } else {
        s
    }
}

/// Exec mirror of [`clamp_spec`].
fn clamp_i128(s: i128, cap: u64) -> (r: u64)
    requires
        cap <= u64::MAX,
    ensures
        r as int == clamp_spec(s as int, cap as int),
{
    if s < 0 {
        0
    } else if s > cap as i128 {
        cap
    } else {
        s as u64
    }
}

/// The value [`sin_fx`] computes: the odd power series of the sine
/// through the 11th power, evaluated with the same fixed-point integer
/// steps, saturated into `[0, FX - 1]`.
pub open spec fn sin_fx_spec(x: int) -> int {
    let x2 = (x * x) / (FX as int);
    let p3 = (x * x2) / (FX as int);
    let p5 = (p3 * x2) / (FX as int);
    let p7 = (p5 * x2) / (FX as int);
    let p9 = (p7 * x2) / (FX as int);
    let p11 = (p9 * x2) / (FX as int);
    let s = x - p3 / 6 + p5 / 120 - p7 / 5040 + p9 / 362880 - p11 / 39916800;
    clamp_spec(s, FX as int - 1)
}

/// Fixed-point sine for a non-negative angle up to a little past
/// `pi / 2`; the result is the saturated series value of
/// [`sin_fx_spec`], always strictly below fixed-point one.
pub fn sin_fx(x: u64) -> (r: u64)
    requires
        x <= 1_600_000_000_000,
    ensures
        r as int == sin_fx_spec(x as int),
        r < FX,
{
    let x2: u64 = mul_fx(x, x);
    proof {
        assert(x as int * x as int <= FX as int * 2_560_000_000_000) by (nonlinear_arith)
            requires
                x <= 1_600_000_000_000,
        ;
        lemma_multiply_divide_le(x as int * x as int, FX as int, 2_560_000_000_000);
    }
    let p3: u64 = mul_fx(x, x2);
    let p5: u64 = mul_fx(p3, x2);
    let p7: u64 = mul_fx(p5, x2);
    let p9: u64 = mul_fx(p7, x2);
    let p11: u64 = mul_fx(p9, x2);
    let s: i128 = x as i128 - (p3 / 6) as i128 + (p5 / 120) as i128 - (p7 / 5040) as i128 + (p9
        / 362880) as i128 - (p11 / 39916800) as i128;
    clamp_i128(s, FX - 1)
}

/// Number of doublings that bring `b` within a factor of two of `a`.
pub open spec fn shift_count(a: int, b: int) -> int
    decreases a - b,
{
    if 1 <= b && 2 * b <= a {
        1 + shift_count(a, 2 * b)
    } else {
        0
    }
}

/// `b` after those doublings: `b * 2^shift_count`, with
/// `a < 2 * shifted_b` when `b >= 1`.
pub open spec fn shifted_b(a: int, b: int) -> int
    decreases a - b,
{
    if 1 <= b && 2 * b <= a {
        shifted_b(a, 2 * b)
    } else {
        b
    }
}

/// The series half of the logarithm: `atanh(z) = z + z^3/3 + ...`
/// through the 13th power, in the same fixed-point steps.
pub open spec fn ln_series_spec(z: int) -> int {
    let z2 = (z * z) / (FX as int);
    let p3 = (z * z2) / (FX as int);
    let p5 = (p3 * z2) / (FX as int);
    let p7 = (p5 * z2) / (FX as int);
    let p9 = (p7 * z2) / (FX as int);
    let p11 = (p9 * z2) / (FX as int);
    let p13 = (p11 * z2) / (FX as int);
    z + p3 / 3 + p5 / 5 + p7 / 7 + p9 / 9 + p11 / 11 + p13 / 13
}

/// The value [`ln_ratio_fx`] computes: reduce `a / b` by powers of two
/// into `[1, 2)`, then `ln u = 2 atanh((u - 1) / (u + 1))`, so
/// `ln(a/b) = k ln 2 + 2 * series(z)` with
/// `z = (a - b') * FX / (a + b')`.
pub open spec fn ln_ratio_spec(a: int, b: int) -> int {
    let k = shift_count(a, b);
    let bb = shifted_b(a, b);
    let z = ((a - bb) * (FX as int)) / (a + bb);
    k * (LN2_FX as int) + 2 * ln_series_spec(z)
}

/// Fixed-point `ln(a / b) * FX` for `1 <= b <= a`, exactly as
/// [`ln_ratio_spec`] states.
pub fn ln_ratio_fx(a: u64, b: u64) -> (r: u64)
    requires
        1 <= b,
        b <= a,
        a <= 4_000_000_000_000,
    ensures
        r as int == ln_ratio_spec(a as int, b as int),
        r <= 60_000_000_000_000_000,
{
    let mut bb: u64 = b;
    let mut k: u64 = 0;
    proof {
        lemma2_to64();
    }
    while 2 * bb <= a
        invariant
            1 <= bb <= a,
            a <= 4_000_000_000_000,
            pow2(k as nat) <= bb,
            k <= 42,
            shift_count(a as int, bb as int) + k == shift_count(a as int, b as int),
            shifted_b(a as int, bb as int) == shifted_b(a as int, b as int),
        decreases a - bb,
    {
        proof {
            lemma2_to64();
            vstd::arithmetic::power2::lemma2_to64_rest();
            assert(bb <= 2_000_000_000_000);
            if k >= 41 {
                if k > 41 {
                    lemma_pow2_strictly_increases(41, k as nat);
                }
                assert(pow2(k as nat) >= pow2(41));
                assert(false);
            }
            assert(pow2((k + 1) as nat) == 2 * pow2(k as nat)) by {
                vstd::arithmetic::power2::lemma_pow2_unfold((k + 1) as nat);
            }
        }
        bb = 2 * bb;
        k = k + 1;
    }
    let num: u64 = a - bb;
    let den: u64 = a + bb;
    let z: u64 = div_fx(num, den);
    let z2: u64 = mul_fx(z, z);
    proof {
        assert(z as int * z as int <= FX as int * FX as int) by (nonlinear_arith)
            requires
                z <= FX,
        ;
        lemma_multiply_divide_le(z as int * z as int, FX as int, FX as int);
    }
    let p3: u64 = mul_fx(z, z2);
    let p5: u64 = mul_fx(p3, z2);
    let p7: u64 = mul_fx(p5, z2);
    let p9: u64 = mul_fx(p7, z2);
    let p11: u64 = mul_fx(p9, z2);
    let p13: u64 = mul_fx(p11, z2);
    let series: u64 = z + p3 / 3 + p5 / 5 + p7 / 7 + p9 / 9 + p11 / 11 + p13 / 13;
    k * LN2_FX + 2 * series
}

/// The value [`atanh_fx`] computes: half the fixed-point logarithm of
/// `(FX + s) / (FX - s)`.
pub open spec fn atanh_fx_spec(s: int) -> int {
    ln_ratio_spec(FX as int + s, FX as int - s) / 2
}

/// Fixed-point inverse hyperbolic tangent (the Mercator ordinate of a
/// sine value), exactly as [`atanh_fx_spec`] states.
pub fn atanh_fx(s: u64) -> (r: u64)
    requires
        s < FX,
    ensures
        r as int == atanh_fx_spec(s as int),
        r <= 30_000_000_000_000_000,
{
    let t: u64 = ln_ratio_fx(FX + s, FX - s);
    t / 2
}

/// Small powers of two, for the range reconstruction of the
/// exponential.
pub open spec fn pow2_small_spec(k: int) -> int {
    if k <= 0 {
        1
    } else if k == 1 {
        2
    } else if k == 2 {
        4
    } else if k == 3 {
        8
    } else if k == 4 {
        16
    } else {
        32
    }
}

/// The value [`expneg_fx`] computes: split `v = k ln 2 + r`, evaluate
/// the alternating series of `e^{-r}` through the 10th power in the
/// same fixed-point steps, saturate into `[0, FX]`, then halve `k`
/// times.
pub open spec fn expneg_fx_spec(v: int) -> int {
    let k = v / (LN2_FX as int);
    let r0 = v % (LN2_FX as int);
    let p2 = (r0 * r0) / (FX as int);
    let p3 = (p2 * r0) / (FX as int);
    let p4 = (p3 * r0) / (FX as int);
    let p5 = (p4 * r0) / (FX as int);
    let p6 = (p5 * r0) / (FX as int);
    let p7 = (p6 * r0) / (FX as int);
    let p8 = (p7 * r0) / (FX as int);
    let p9 = (p8 * r0) / (FX as int);
    let p10 = (p9 * r0) / (FX as int);
    let s = (FX as int) - r0 + p2 / 2 - p3 / 6 + p4 / 24 - p5 / 120 + p6 / 720 - p7 / 5040 + p8
        / 40320 - p9 / 362880 + p10 / 3628800;
    clamp_spec(s, FX as int) / pow2_small_spec(k)
}

/// Fixed-point `e^{-v} * FX` for `0 <= v <= 4`, exactly as
/// [`expneg_fx_spec`] states; the result never exceeds fixed-point
/// one.
pub fn expneg_fx(v: u64) -> (r: u64)
    requires
        v <= 4_000_000_000_000,
    ensures
        r as int == expneg_fx_spec(v as int),
        r <= FX,
{
    let k: u64 = v / LN2_FX;
    let r0: u64 = v % LN2_FX;
    proof {
        lemma_mod_bound(v as int, LN2_FX as int);
        lemma_multiply_divide_lt(v as int, LN2_FX as int, 6);
    }
    let p2: u64 = mul_fx(r0, r0);
    proof {
        assert(r0 as int * r0 as int <= FX as int * 482_000_000_000) by (nonlinear_arith)
            requires
                r0 <= 694_000_000_000,
        ;
        lemma_multiply_divide_le(r0 as int * r0 as int, FX as int, 482_000_000_000);
    }
    let p3: u64 = mul_fx(p2, r0);
    let p4: u64 = mul_fx(p3, r0);
    let p5: u64 = mul_fx(p4, r0);
    let p6: u64 = mul_fx(p5, r0);
    let p7: u64 = mul_fx(p6, r0);
    let p8: u64 = mul_fx(p7, r0);
    let p9: u64 = mul_fx(p8, r0);
    let p10: u64 = mul_fx(p9, r0);
    let s: i128 = FX as i128 - r0 as i128 + (p2 / 2) as i128 - (p3 / 6) as i128 + (p4 / 24) as i128
        - (p5 / 120) as i128 + (p6 / 720) as i128 - (p7 / 5040) as i128 + (p8 / 40320) as i128 - (
    p9 / 362880) as i128 + (p10 / 3628800) as i128;
    let c: u64 = clamp_i128(s, FX);
    let d: u64 = if k == 0 {
        1
    } else if k == 1 {
        2
    } else if k == 2 {
        4
    } else if k == 3 {
        8
    } else if k == 4 {
        16
    } else {
        32
    };
    proof {
        lemma_div_pos_is_pos(c as int, d as int);
        lemma_multiply_divide_le(c as int, d as int, FX as int);
    }
    c / d
}

/// The value [`atan_le1_fx`] computes: the odd alternating arctangent
/// series through the 17th power for arguments at most `tan(pi / 8)`,
/// in the same fixed-point steps, saturated into `[0, QUARTER_PI_FX]`.
pub open spec fn atan_series_spec(z: int) -> int {
    let z2 = (z * z) / (FX as int);
    let p3 = (z * z2) / (FX as int);
    let p5 = (p3 * z2) / (FX as int);
    let p7 = (p5 * z2) / (FX as int);
    let p9 = (p7 * z2) / (FX as int);
    let p11 = (p9 * z2) / (FX as int);
    let p13 = (p11 * z2) / (FX as int);
    let p15 = (p13 * z2) / (FX as int);
    let p17 = (p15 * z2) / (FX as int);
    let s = z - p3 / 3 + p5 / 5 - p7 / 7 + p9 / 9 - p11 / 11 + p13 / 13 - p15 / 15 + p17 / 17;
    clamp_spec(s, QUARTER_PI_FX as int)
}

/// The value [`atan_le1_fx`] computes: the series directly below
/// `tan(pi / 8)`, else the octant reduction
/// `atan(v) = pi/4 - atan((FX - v) * FX / (FX + v))`.
pub open spec fn atan_le1_fx_spec(v: int) -> int {
    if v <= TAN_EIGHTH_PI_FX as int {
        atan_series_spec(v)
    } else {
        QUARTER_PI_FX as int - atan_series_spec(((FX as int - v) * (FX as int)) / (FX as int + v))
    }
}

/// The truncated arctangent series, saturated into
/// `[0, QUARTER_PI_FX]`.
fn atan_series_fx(z: u64) -> (r: u64)
    requires
        z <= FX,
    ensures
        r as int == atan_series_spec(z as int),
        r <= QUARTER_PI_FX,
{
    let z2: u64 = mul_fx(z, z);
    proof {
        assert(z as int * z as int <= FX as int * FX as int) by (nonlinear_arith)
            requires
                z <= FX,
        ;
        lemma_multiply_divide_le(z as int * z as int, FX as int, FX as int);
    }
    let p3: u64 = mul_fx(z, z2);
    let p5: u64 = mul_fx(p3, z2);
    let p7: u64 = mul_fx(p5, z2);
    let p9: u64 = mul_fx(p7, z2);
    let p11: u64 = mul_fx(p9, z2);
    let p13: u64 = mul_fx(p11, z2);
    let p15: u64 = mul_fx(p13, z2);
    let p17: u64 = mul_fx(p15, z2);
    let s: i128 = z as i128 - (p3 / 3) as i128 + (p5 / 5) as i128 - (p7 / 7) as i128 + (p9
        / 9) as i128 - (p11 / 11) as i128 + (p13 / 13) as i128 - (p15 / 15) as i128 + (p17
        / 17) as i128;
    clamp_i128(s, QUARTER_PI_FX)
}

/// Fixed-point arctangent for arguments in `[0, 1]`, exactly as
/// [`atan_le1_fx_spec`] states; the result never exceeds `pi / 4` in
/// fixed point.
pub fn atan_le1_fx(v: u64) -> (r: u64)
    requires
        v <= FX,
    ensures
        r as int == atan_le1_fx_spec(v as int),
        r <= QUARTER_PI_FX,
{
    if v <= TAN_EIGHTH_PI_FX {
        atan_series_fx(v)
    } else {
        let w: u64 = div_fx(FX - v, FX + v);
        let s: u64 = atan_series_fx(w);
        QUARTER_PI_FX - s
    }
}

} // verus!
