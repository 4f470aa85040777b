//! Fixed-point angle arithmetic. Angles are kept in milli-degrees,
//! normalized to [0, FULL_TURN). The sine is Bhaskara's rational
//! approximation on the half turn, scaled by TRIG_SCALE; it is exact at the
//! quarter-turn marks, so a rocket headed straight up moves straight up.

use vstd::prelude::*;
use vstd::arithmetic::div_mod::{lemma_div_is_ordered, lemma_div_multiples_vanish,
    lemma_div_pos_is_pos};

verus! {

/// A full turn, in milli-degrees.
pub const FULL_TURN: u64 = 360000;

/// Half a turn, in milli-degrees.
pub const HALF_TURN: u64 = 180000;

/// Trigonometric results are scaled by this factor.
pub const TRIG_SCALE: u64 = 10000;

/// Quotients are at most the cofactor of the denominator bound.
pub proof fn lemma_div_le(a: int, k: int, d: int)
    requires
        a <= k * d,
        0 < d,
    ensures
        a / d <= k,
{
    lemma_div_is_ordered(a, k * d, d);
    lemma_div_multiples_vanish(k, d);
    assert(k * d == d * k) by (nonlinear_arith);
}

/// Bhaskara's sine approximation on [0, HALF_TURN], scaled by TRIG_SCALE:
/// sin(x) ~ 16 x (180000 - x) * 10000 / (5 * 180000^2 - 4 x (180000 - x)).
pub open spec fn half_sine_spec(x: int) -> int {
    (160000 * (x * (180000 - x))) / (162000000000 - 4 * (x * (180000 - x)))
}

/// The scaled sine on a half turn, with its range pinned to
/// [0, TRIG_SCALE].
fn half_sine(x: u64) -> (r: u64)
    requires
        x <= HALF_TURN,
    ensures
        r == half_sine_spec(x as int),
        r <= TRIG_SCALE,
{
    proof {
        assert(x * (180000 - x) <= 8100000000) by (nonlinear_arith)
            requires x <= 180000;
    }
    let q: u64 = x * (HALF_TURN - x);
    let num: u64 = 160000 * q;
    let den: u64 = 162000000000 - 4 * q;
    let r: u64 = num / den;
    proof {
        lemma_div_pos_is_pos(num as int, den as int);
        lemma_div_le(num as int, 10000, den as int);
    }
    r
}

/// The scaled sine over a whole turn: the second half turn is the mirror
/// image of the first.
pub open spec fn sin_spec(x: int) -> int {
    if x <= 180000 {
        half_sine_spec(x)
    } else {
        -half_sine_spec(x - 180000)
    }
}

/// The scaled cosine, as the sine shifted by a quarter turn.
pub open spec fn cos_spec(x: int) -> int {
    if x < 270000 {
        sin_spec(x + 90000)
    } else {
        sin_spec(x - 270000)
    }
}

/// The scaled sine of a normalized angle.
pub fn sin_fp(x: u64) -> (r: i64)
    requires
        x < FULL_TURN,
    ensures
        r == sin_spec(x as int),
        -(TRIG_SCALE as i64) <= r <= TRIG_SCALE as i64,
{
    if x <= HALF_TURN {
        half_sine(x) as i64
    } else {
        let h = half_sine(x - HALF_TURN);
        -(h as i64)
    }
}

/// The scaled cosine of a normalized angle.
pub fn cos_fp(x: u64) -> (r: i64)
    requires
        x < FULL_TURN,
    ensures
        r == cos_spec(x as int),
        -(TRIG_SCALE as i64) <= r <= TRIG_SCALE as i64,
{
    if x < 270000 {
        sin_fp(x + 90000)
    } else {
        sin_fp(x - 270000)
    }
}

/// Adding a bounded turn delta to a normalized angle, renormalized into
/// [0, FULL_TURN).
pub open spec fn norm_add_spec(h: int, g: int) -> int {
    let s = h + g;
    if s < 0 {
        s + 360000
    } else if s >= 360000 {
        s - 360000
    } else {
        s
    }
}

/// Turns a heading by a bounded delta, keeping it normalized.
pub fn norm_add(h: u64, g: i32) -> (r: u64)
    requires
        h < FULL_TURN,
        -(FULL_TURN as i32) <= g <= FULL_TURN as i32,
    ensures
        r == norm_add_spec(h as int, g as int),
        r < FULL_TURN,
{
    let s: i64 = h as i64 + g as i64;
    if s < 0 {
        (s + FULL_TURN as i64) as u64
    } else if s >= FULL_TURN as i64 {
        (s - FULL_TURN as i64) as u64
    } else {
        s as u64
    }
}

/// A speed scaled by a trigonometric factor: the per-tick displacement
/// along one axis. Truncation is toward zero on both signs.
pub open spec fn scale_trig_spec(speed: int, c: int) -> int {
    if c >= 0 {
        (speed * c) / 10000
    } else {
        -((speed * -c) / 10000)
    }
}

/// The displacement of one tick along one axis: the speed scaled by a
/// trigonometric factor, never larger than the speed itself.
pub fn scale_trig(speed: u64, c: i64) -> (r: i64)
    requires
        speed <= 1000000,
        -(TRIG_SCALE as i64) <= c <= TRIG_SCALE as i64,
    ensures
        r == scale_trig_spec(speed as int, c as int),
        -(speed as i64) <= r <= speed as i64,
{
    if c >= 0 {
        proof {
            assert(speed * c <= speed * 10000) by (nonlinear_arith)
                requires 0 <= c <= 10000, 0 <= speed;
            lemma_div_pos_is_pos(speed as int * c as int, 10000);
            lemma_div_le(speed as int * c as int, speed as int, 10000);
        }
        ((speed * (c as u64)) / TRIG_SCALE) as i64
    } else {
        proof {
            assert(speed * -c <= speed * 10000) by (nonlinear_arith)
                requires 0 <= -c <= 10000, 0 <= speed;
            lemma_div_pos_is_pos(speed as int * -(c as int), 10000);
            lemma_div_le(speed as int * -(c as int), speed as int, 10000);
        }
        -(((speed * ((-c) as u64)) / TRIG_SCALE) as i64)
    }
}

} // verus!
