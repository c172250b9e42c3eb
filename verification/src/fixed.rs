//! Fixed-point arithmetic for the simulation.
//!
//! A scalar is an `i64` holding thousandths: a position of `25_000`
//! means 25 world units, an angle of `250` means a quarter turn, a time
//! of `50` means 0.05 seconds. Sums saturate at the `i64` range instead
//! of overflowing; products are rescaled with truncation toward zero.
//!
//! Heading directions come from a fixed-point sine on milli-turns: the
//! quadratic half-wave `16*r*(500-r)/1000`, mirrored for the second
//! half turn. It is exact at every quarter turn (0, ±1000) and stays
//! within `[-1000, 1000]` everywhere.

use vstd::prelude::*;
use vstd::arithmetic::div_mod::{
    lemma_fundamental_div_mod, lemma_fundamental_div_mod_converse, lemma_small_mod,
    lemma_add_mod_noop, lemma_div_nonincreasing, lemma_div_pos_is_pos, lemma_mod_self_0,
};

verus! {

/// Number of fixed-point steps per whole unit (or per whole turn).
pub const SCALE: i64 = 1000;

/// `SCALE * SCALE`, the rescaling divisor for a product of two scalars.
pub const SCALE_SQ: i64 = 1_000_000;

/// Largest accepted time step: one thousand million milliseconds.
/// Keeps every displacement product inside `i128`.
pub const DT_MAX: i64 = 1_000_000_000;

/// Saturation of an unbounded integer to the `i64` range.
pub open spec fn clip(x: int) -> int {
    if x > i64::MAX as int {
        i64::MAX as int
    } else if x < i64::MIN as int {
        i64::MIN as int
    } else {
        x
    }
}

/// Division by a positive divisor, rounding toward zero.
pub open spec fn div_trunc(p: int, d: int) -> int
    recommends
        d > 0,
{
    if p >= 0 {
        p / d
    } else {
        -((-p) / d)
    }
}

/// A speed times a time step times a direction component, rescaled back
/// to a scalar: the displacement along one axis during one tick.
pub open spec fn scaled_travel_spec(v: int, dt: int, c: int) -> int {
    div_trunc(v * dt * c, SCALE_SQ as int)
}

/// Fixed-point sine of an angle in milli-turns, in `[-1000, 1000]`.
pub open spec fn sin_milli(a: int) -> int {
    let r = a % (SCALE as int);
    if r <= 500 {
        16 * r * (500 - r) / 1000
    } else {
        -(16 * (r - 500) * (1000 - r) / 1000)
    }
}

/// Fixed-point cosine: the sine a quarter turn ahead.
pub open spec fn cos_milli(a: int) -> int {
    sin_milli(a + 250)
}

/// Saturating conversion of an `i128` back to a scalar.
pub fn clip_to_i64(x: i128) -> (r: i64)
    ensures
        r as int == clip(x as int),
{
    if x > i64::MAX as i128 {
        i64::MAX
    } else if x < i64::MIN as i128 {
        i64::MIN
    } else {
        x as i64
    }
}

/// Saturating sum of two scalars.
pub fn sat_add(a: i64, b: i64) -> (r: i64)
    ensures
        r as int == clip(a as int + b as int),
{
    clip_to_i64(a as i128 + b as i128)
}

/// Saturating difference of two scalars.
pub fn sat_sub(a: i64, b: i64) -> (r: i64)
    ensures
        r as int == clip(a as int - b as int),
{
    clip_to_i64(a as i128 - b as i128)
}

/// The milli-turn fraction of an angle: its Euclidean remainder mod one
/// whole turn, always in `[0, 1000)`.
pub fn turn_fraction(a: i64) -> (r: u64)
    ensures
        r as int == a as int % (SCALE as int),
{
    if a >= 0 {
        let r: u64 = (a as u64) % 1000;
        proof {
            lemma_fundamental_div_mod(a as int, 1000);
        }
        r
    } else {
        let m: u64 = (-(a + 1)) as u64;
        let k: u64 = m % 1000;
        let r: u64 = 999 - k;
        proof {
            let mi = m as int;
            lemma_fundamental_div_mod(mi, 1000);
            let q = mi / 1000;
            let s = mi % 1000;
            assert(a as int == 1000 * (-q - 1) + (999 - s)) by {
                assert(mi == 1000 * q + s);
                assert(a as int == -mi - 1);
            }
            lemma_fundamental_div_mod_converse(a as int, 1000, -q - 1, 999 - s);
        }
        r
    }
}

/// Sine of an already-reduced milli-turn fraction.
fn sin_of_fraction(r: u64) -> (s: i64)
    requires
        r < 1000,
    ensures
        s as int == sin_milli(r as int),
{
    proof {
        lemma_small_mod(r as nat, 1000);
    }
    if r <= 500 {
        let t1: u64 = 16 * r;
        let t2: u64 = 500 - r;
        proof {
            assert(t1 * t2 <= 4_000_000) by (nonlinear_arith)
                requires t1 <= 8000, t2 <= 500;
        }
        ((t1 * t2) / 1000) as i64
    } else {
        let t1: u64 = 16 * (r - 500);
        let t2: u64 = 1000 - r;
        proof {
            assert(t1 * t2 <= 4_000_000) by (nonlinear_arith)
                requires t1 <= 8000, t2 <= 500;
        }
        -(((t1 * t2) / 1000) as i64)
    }
}

/// Fixed-point sine of an arbitrary (possibly negative) angle.
pub fn sine(a: i64) -> (s: i64)
    ensures
        s as int == sin_milli(a as int),
{
    let r = turn_fraction(a);
    sin_of_fraction(r)
}

/// Fixed-point cosine of an arbitrary (possibly negative) angle.
pub fn cosine(a: i64) -> (c: i64)
    ensures
        c as int == cos_milli(a as int),
{
    let r = turn_fraction(a);
    let rc = (r + 250) % 1000;
    proof {
        lemma_add_mod_noop(a as int, 250, 1000);
        lemma_small_mod(250, 1000);
        lemma_fundamental_div_mod((r + 250) as int, 1000);
        lemma_small_mod(rc as nat, 1000);
    }
    sin_of_fraction(rc)
}

/// The fixed-point sine and cosine are exact at the quarter turns.
pub proof fn lemma_quarter_turns()
    ensures
        sin_milli(0) == 0,
        sin_milli(250) == 1000,
        sin_milli(500) == 0,
        sin_milli(750) == -1000,
        cos_milli(0) == 1000,
        cos_milli(250) == 0,
        cos_milli(500) == -1000,
        cos_milli(750) == 0,
{
    lemma_small_mod(0, 1000);
    lemma_small_mod(250, 1000);
    lemma_small_mod(500, 1000);
    lemma_small_mod(750, 1000);
    lemma_mod_self_0(1000);
    assert(16 * 250 * (500 - 250) / 1000 == 1000);
    assert(16 * (750 - 500) * (1000 - 750) / 1000 == 1000);
}

/// Bounds of the fixed-point sine.
pub proof fn lemma_sin_milli_bounds(a: int)
    ensures
        -1000 <= sin_milli(a) <= 1000,
{
    let r = a % (SCALE as int);
    assert(0 <= r < 1000) by {
        lemma_fundamental_div_mod(a, 1000);
    }
    if r <= 500 {
        assert(16 * r * (500 - r) <= 1_000_000) by (nonlinear_arith)
            requires 0 <= r <= 500;
        assert(0 <= 16 * r * (500 - r)) by (nonlinear_arith)
            requires 0 <= r <= 500;
    } else {
        assert(16 * (r - 500) * (1000 - r) <= 1_000_000) by (nonlinear_arith)
            requires 500 < r < 1000;
        assert(0 <= 16 * (r - 500) * (1000 - r)) by (nonlinear_arith)
            requires 500 < r < 1000;
    }
}

/// The displacement of one tick along one axis, as executable code.
pub fn scaled_travel(v: i64, dt: i64, c: i64) -> (d: i128)
    requires
        0 <= dt <= DT_MAX,
        -1000 <= c <= 1000,
    ensures
        d as int == scaled_travel_spec(v as int, dt as int, c as int),
        -0x8000_0000_0000_0000 * 1_000_000_000 * 1000 <= d as int
            <= 0x8000_0000_0000_0000 * 1_000_000_000 * 1000,
{
    proof {
        let vi = v as int;
        let di = dt as int;
        let ci = c as int;
        assert(-0x8000_0000_0000_0000 * 1_000_000_000 <= vi * di
            && vi * di <= 0x8000_0000_0000_0000 * 1_000_000_000) by (nonlinear_arith)
            requires
                -0x8000_0000_0000_0000 <= vi <= 0x7FFF_FFFF_FFFF_FFFF,
                0 <= di <= 1_000_000_000;
        assert(-0x8000_0000_0000_0000 * 1_000_000_000 * 1000 <= (vi * di) * ci
            && (vi * di) * ci <= 0x8000_0000_0000_0000 * 1_000_000_000 * 1000)
            by (nonlinear_arith)
            requires
                -0x8000_0000_0000_0000 * 1_000_000_000 <= vi * di
                    <= 0x8000_0000_0000_0000 * 1_000_000_000,
                -1000 <= ci <= 1000;
    }
    let p: i128 = (v as i128) * (dt as i128) * (c as i128);
    if p >= 0 {
        let q: u128 = div_million(p as u128);
        q as i128
    } else {
        let q: u128 = div_million((-p) as u128);
        -(q as i128)
    }
}

/// Rescaling division of a nonnegative product, with the quotient known
/// to be no larger than the product.
fn div_million(m: u128) -> (q: u128)
    ensures
        q as int == m as int / 1_000_000,
        q <= m,
{
    proof {
        if m > 0 {
            lemma_div_pos_is_pos(m as int, 1_000_000);
        }
        lemma_div_nonincreasing(m as int, 1_000_000);
    }
    m / 1_000_000
}

} // verus!
