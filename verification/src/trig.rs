use vstd::arithmetic::div_mod::lemma_add_mod_noop;
use vstd::arithmetic::div_mod::lemma_div_by_self;
use vstd::arithmetic::div_mod::lemma_div_is_ordered;
use vstd::arithmetic::div_mod::lemma_div_multiples_vanish;
use vstd::arithmetic::div_mod::lemma_div_pos_is_pos;
use vstd::arithmetic::div_mod::lemma_fundamental_div_mod;
use vstd::arithmetic::div_mod::lemma_fundamental_div_mod_converse;
use vstd::arithmetic::div_mod::lemma_mod_bound;
use vstd::arithmetic::div_mod::lemma_small_mod;
use vstd::prelude::*;

use crate::motion::LIMIT;

verus! {

/// One full turn (two pi radians) in milliradians.
pub const TAU_MILLI: i64 = 6283;

/// Half a turn in milliradians, rounded up; the sine's second half-wave is
/// one milliradian shorter than the first.
pub const PI_MILLI: i64 = 3142;

/// A quarter turn in milliradians.
pub const HALF_PI_MILLI: i64 = 1571;

/// A heading reduced to a single turn, `[0, TAU_MILLI)`.
pub open spec fn norm(a: int) -> int {
    a % (TAU_MILLI as int)
}

/// Bhaskara's rational sine approximation on the half-wave `[0, PI_MILLI]`,
/// scaled so that its peak (at a quarter turn) is exactly `scale`.
pub open spec fn half_wave(x: int, scale: int) -> int {
    let u = x * (PI_MILLI - x);
    16 * scale * u / (5 * PI_MILLI * PI_MILLI - 4 * u)
}

/// Fixed-point sine of a heading in milliradians: the positive half-wave on
/// the first half turn, mirrored and negated on the second.
pub open spec fn sine(a: int, scale: int) -> int {
    let r = norm(a);
    if r <= PI_MILLI {
        half_wave(r, scale)
    } else {
        -half_wave(r - PI_MILLI, scale)
    }
}

/// Fixed-point cosine of a heading: the sine a quarter turn ahead.
pub open spec fn cosine(a: int, scale: int) -> int {
    sine(a + HALF_PI_MILLI, scale)
}

/// The product `x * (PI_MILLI - x)` stays between 0 and the square of a
/// quarter turn while `x` is within the half-wave.
proof fn lemma_u_bounds(x: int)
    requires
        0 <= x <= PI_MILLI,
    ensures
        0 <= x * (PI_MILLI - x) <= HALF_PI_MILLI * HALF_PI_MILLI,
{
    assert(0 <= x * (3142 - x) <= 1571 * 1571) by (nonlinear_arith)
        requires 0 <= x <= 3142;
}

/// The scaled half-wave never leaves `[0, scale]`.
proof fn lemma_half_wave_in_range(x: int, scale: int)
    requires
        0 <= x <= PI_MILLI,
        1 <= scale <= 100_000,
    ensures
        0 <= half_wave(x, scale) <= scale,
{
    let u = x * (PI_MILLI - x);
    let num = 16 * scale * u;
    let den = 5 * PI_MILLI * PI_MILLI - 4 * u;
    lemma_u_bounds(x);
    assert(den >= 39488656);
    assert(num >= 0) by (nonlinear_arith)
        requires scale >= 1, u >= 0, num == 16 * scale * u;
    lemma_div_pos_is_pos(num, den);
    assert(num <= scale * den) by (nonlinear_arith)
        requires 1 <= scale, 0 <= u <= 2468041, den == 49360820 - 4 * u, num == 16 * scale * u;
    lemma_div_is_ordered(num, scale * den, den);
    lemma_div_multiples_vanish(scale, den);
}

/// Away from the two zero crossings, the half-wave at thrust scale (or any
/// larger scale) is at least 1.
proof fn lemma_half_wave_pos(x: int, scale: int)
    requires
        2 <= x <= PI_MILLI - 2,
        500 <= scale <= 100_000,
    ensures
        half_wave(x, scale) >= 1,
{
    let u = x * (PI_MILLI - x);
    let num = 16 * scale * u;
    let den = 5 * PI_MILLI * PI_MILLI - 4 * u;
    lemma_u_bounds(x);
    assert(u >= 6280) by (nonlinear_arith)
        requires 2 <= x <= 3140, u == x * (3142 - x);
    assert(num >= den) by (nonlinear_arith)
        requires scale >= 500, 6280 <= u <= 2468041, num == 16 * scale * u, den == 49360820 - 4 * u;
    assert(den >= 39488656);
    lemma_div_is_ordered(den, num, den);
    lemma_div_by_self(den);
}

/// For every heading, the thrust-scale sine and cosine are not both zero:
/// near a zero crossing of one, the other is near its peak.
pub proof fn lemma_sine_cosine_not_both_zero(a: int)
    ensures
        sine(a, 500) != 0 || cosine(a, 500) != 0,
{
    let r = norm(a);
    lemma_mod_bound(a, TAU_MILLI as int);
    if 2 <= r <= PI_MILLI - 2 {
        lemma_half_wave_pos(r, 500);
    } else if PI_MILLI + 2 <= r <= TAU_MILLI - 1 {
        lemma_half_wave_pos(r - PI_MILLI, 500);
        assert(sine(a, 500) <= -1);
    } else {
        // r is within one milliradian of a half-turn boundary, so the
        // cosine's argument is within one of a quarter turn: its half-wave
        // sits near the peak and is provably nonzero.
        assert(r == 0 || r == 1 || r == 3141 || r == 3142 || r == 3143);
        lemma_small_mod(1571nat, 6283nat);
        lemma_add_mod_noop(a, HALF_PI_MILLI as int, TAU_MILLI as int);
        lemma_small_mod((r + 1571) as nat, 6283nat);
        assert(norm(a + HALF_PI_MILLI) == r + 1571);
        if r + 1571 <= PI_MILLI {
            lemma_half_wave_pos(r + 1571, 500);
        } else {
            lemma_half_wave_pos(r + 1571 - PI_MILLI, 500);
            assert(cosine(a, 500) <= -1);
        }
    }
}

/// A heading reduced to `[0, TAU_MILLI)` by Euclidean remainder.
fn norm_angle(a: i64) -> (r: i64)
    requires
        -2 * LIMIT <= a <= 2 * LIMIT,
    ensures
        0 <= r < TAU_MILLI,
        r == norm(a as int),
{
    if a >= 0 {
        let r = ((a as u64) % (TAU_MILLI as u64)) as i64;
        proof {
            lemma_mod_bound(a as int, TAU_MILLI as int);
        }
        r
    } else {
        let m = (((-a) as u64) % (TAU_MILLI as u64)) as i64;
        proof {
            lemma_mod_bound(-a as int, TAU_MILLI as int);
            lemma_fundamental_div_mod(-a as int, TAU_MILLI as int);
        }
        let ghost q = -a as int / (TAU_MILLI as int);
        if m == 0 {
            proof {
                lemma_fundamental_div_mod_converse(a as int, TAU_MILLI as int, -q, 0);
            }
            0
        } else {
            proof {
                lemma_fundamental_div_mod_converse(
                    a as int,
                    TAU_MILLI as int,
                    -q - 1,
                    TAU_MILLI - m,
                );
            }
            TAU_MILLI - m
        }
    }
}

/// Fixed-point sine of a heading, with the peak scaled to `scale`.
pub(crate) fn sin_scaled(a: i64, scale: i64) -> (r: i64)
    requires
        -2 * LIMIT <= a <= 2 * LIMIT,
        1 <= scale <= 100_000,
    ensures
        r == sine(a as int, scale as int),
        -scale <= r <= scale,
{
    let n = norm_angle(a);
    let x: i64 = if n <= PI_MILLI { n } else { n - PI_MILLI };
    proof {
        lemma_u_bounds(x as int);
        lemma_half_wave_in_range(x as int, scale as int);
    }
    let u = x * (PI_MILLI - x);
    proof {
        assert(0 <= 16 * scale * u <= 16 * 100_000 * 2_468_041) by (nonlinear_arith)
            requires 1 <= scale <= 100_000, 0 <= u <= 2_468_041;
    }
    let num = 16 * scale * u;
    let den = 5 * PI_MILLI * PI_MILLI - 4 * u;
    let q = ((num as u64) / (den as u64)) as i64;
    if n <= PI_MILLI {
        q
    } else {
        -q
    }
}

/// Fixed-point cosine of a heading, with the peak scaled to `scale`.
pub(crate) fn cos_scaled(a: i64, scale: i64) -> (r: i64)
    requires
        -LIMIT <= a <= LIMIT,
        1 <= scale <= 100_000,
    ensures
        r == cosine(a as int, scale as int),
        -scale <= r <= scale,
{
    sin_scaled(a + HALF_PI_MILLI, scale)
}

} // verus!
