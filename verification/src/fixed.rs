//! Saturating fixed-point arithmetic on scaled 64-bit integers.
//!
//! A quantity (volts, amperes, ohms, seconds, ...) is carried as the number
//! of millionths of its unit, so `SCALE` units stand for 1.0.  Products and
//! quotients are truncated toward zero, and every operation saturates at the
//! `i64` range instead of wrapping, which keeps the integrators total.

use vstd::prelude::*;
use vstd::arithmetic::div_mod::lemma_div_pos_is_pos;
use vstd::arithmetic::div_mod::lemma_div_nonincreasing;
use vstd::arithmetic::div_mod::lemma_fundamental_div_mod;
use vstd::arithmetic::div_mod::lemma_mod_bound;

verus! {

/// Number of fixed-point units in one whole unit.
pub const SCALE: i64 = 1_000_000;

/// Clamp an unbounded integer into the `i64` range.
pub open spec fn sat64(x: int) -> int {
    if x > i64::MAX as int {
        i64::MAX as int
    } else if x < i64::MIN as int {
        i64::MIN as int
    } else {
        x
    }
}

/// Division truncated toward zero, for a positive divisor.
pub open spec fn tdiv(x: int, d: int) -> int
    recommends
        d > 0,
{
    if x >= 0 {
        x / d
    } else {
        -((-x) / d)
    }
}

pub open spec fn fx_add_spec(a: int, b: int) -> int {
    sat64(a + b)
}

pub open spec fn fx_sub_spec(a: int, b: int) -> int {
    sat64(a - b)
}

pub open spec fn fx_neg_spec(a: int) -> int {
    sat64(-a)
}

pub open spec fn fx_mul_spec(a: int, b: int) -> int {
    sat64(tdiv(a * b, SCALE as int))
}

pub open spec fn fx_div_spec(a: int, b: int) -> int {
    sat64(tdiv(a * (SCALE as int), b))
}

/// Saturating addition.
pub fn fx_add(a: i64, b: i64) -> (r: i64)
    ensures
        r as int == fx_add_spec(a as int, b as int),
{
    let s: i128 = a as i128 + b as i128;
    if s > i64::MAX as i128 {
        i64::MAX
    } else if s < i64::MIN as i128 {
        i64::MIN
    } else {
        s as i64
    }
}

/// Saturating subtraction.
pub fn fx_sub(a: i64, b: i64) -> (r: i64)
    ensures
        r as int == fx_sub_spec(a as int, b as int),
{
    let s: i128 = a as i128 - b as i128;
    if s > i64::MAX as i128 {
        i64::MAX
    } else if s < i64::MIN as i128 {
        i64::MIN
    } else {
        s as i64
    }
}

/// Saturating negation.
pub fn fx_neg(a: i64) -> (r: i64)
    ensures
        r as int == fx_neg_spec(a as int),
{
    if a == i64::MIN {
        i64::MAX
    } else {
        -a
    }
}

/// Magnitude of a 64-bit value, exact also at `i64::MIN`.
fn magnitude(a: i64) -> (m: u64)
    ensures
        a >= 0 ==> m as int == a as int,
        a < 0 ==> m as int == -(a as int),
{
    if a >= 0 {
        a as u64
    } else {
        (-(a as i128)) as u64
    }
}

/// Saturating fixed-point product `a * b / SCALE`, truncated toward zero.
/// The right factor is a nonnegative constant of the circuit (a resistance,
/// a capacitance, a time step), which fixes the sign of the result to the
/// sign of `a`.
pub fn fx_mul(a: i64, b: i64) -> (r: i64)
    requires
        b >= 0,
    ensures
        r as int == fx_mul_spec(a as int, b as int),
{
    let mag_a: u64 = magnitude(a);
    assert((mag_a as int) * (b as int) < u128::MAX as int) by (nonlinear_arith)
        requires
            0 <= mag_a as int <= u64::MAX as int,
            0 <= b as int <= i64::MAX as int,
    ;
    let prod: u128 = (mag_a as u128) * (b as u128);
    let q: u128 = prod / (SCALE as u128);
    proof {
        lemma_div_pos_is_pos(prod as int, SCALE as int);
        if a >= 0 {
            assert((a as int) * (b as int) >= 0) by (nonlinear_arith)
                requires
                    a as int >= 0,
                    b as int >= 0,
            ;
        } else {
            assert((a as int) * (b as int) == -((mag_a as int) * (b as int)))
                by (nonlinear_arith)
                requires
                    mag_a as int == -(a as int),
            ;
            assert((mag_a as int) * (b as int) >= 0) by (nonlinear_arith)
                requires
                    mag_a as int >= 0,
                    b as int >= 0,
            ;
        }
    }
    if a >= 0 {
        if q > i64::MAX as u128 {
            i64::MAX
        } else {
            q as i64
        }
    } else {
        if q >= 9_223_372_036_854_775_808u128 {
            i64::MIN
        } else {
            -(q as i64)
        }
    }
}

/// Saturating fixed-point quotient `a * SCALE / b`, truncated toward zero.
/// The divisor is a positive constant of the circuit.
pub fn fx_div(a: i64, b: i64) -> (r: i64)
    requires
        b > 0,
    ensures
        r as int == fx_div_spec(a as int, b as int),
{
    let mag_a: u64 = magnitude(a);
    assert((mag_a as int) * (SCALE as int) < u128::MAX as int) by (nonlinear_arith)
        requires
            0 <= mag_a as int <= u64::MAX as int,
    ;
    let prod: u128 = (mag_a as u128) * (SCALE as u128);
    let q: u128 = prod / (b as u128);
    proof {
        lemma_div_pos_is_pos(prod as int, b as int);
        if a < 0 {
            assert((a as int) * (SCALE as int) == -((mag_a as int) * (SCALE as int)))
                by (nonlinear_arith)
                requires
                    mag_a as int == -(a as int),
            ;
        }
    }
    if a >= 0 {
        if q > i64::MAX as u128 {
            i64::MAX
        } else {
            q as i64
        }
    } else {
        if q >= 9_223_372_036_854_775_808u128 {
            i64::MIN
        } else {
            -(q as i64)
        }
    }
}

/// Truncation toward zero never grows a nonnegative dividend.
pub proof fn lemma_tdiv_floor(x: int, d: int)
    requires
        0 <= x,
        0 < d,
    ensures
        0 <= tdiv(x, d),
        tdiv(x, d) * d <= x,
        d >= 1 ==> tdiv(x, d) <= x,
{
    lemma_div_pos_is_pos(x, d);
    lemma_fundamental_div_mod(x, d);
    lemma_mod_bound(x, d);
    lemma_div_nonincreasing(x, d);
    assert((x / d) * d == d * (x / d)) by (nonlinear_arith);
}

/// One truncated Euler increment `tdiv(m * h, SCALE)` stays within `bound`
/// whenever the derivative magnitude `m` satisfies `m * rc <= bound * SCALE`
/// and the step `h` is no larger than the time constant `rc`.
pub proof fn lemma_increment_bound(m: int, h: int, rc: int, bound: int)
    requires
        0 <= m,
        0 < h,
        h <= rc,
        0 <= bound,
        m * rc <= bound * (SCALE as int),
    ensures
        0 <= tdiv(m * h, SCALE as int),
        tdiv(m * h, SCALE as int) <= bound,
{
    let s = SCALE as int;
    assert(0 <= m * h) by (nonlinear_arith)
        requires
            0 <= m,
            0 < h,
    ;
    lemma_tdiv_floor(m * h, s);
    let inc = tdiv(m * h, s);
    assert(inc <= bound) by (nonlinear_arith)
        requires
            0 <= inc,
            inc * s <= m * h,
            m * rc <= bound * s,
            0 <= m,
            0 < h,
            h <= rc,
            0 <= bound,
            0 < s,
    ;
}

/// A quotient is pinned by any `q` whose multiples of `d` bracket `x`.
pub proof fn lemma_div_identifies_quotient(x: int, d: int, q: int)
    requires
        0 < d,
        0 <= q,
        q * d <= x,
        x < (q + 1) * d,
    ensures
        x / d == q,
{
    lemma_fundamental_div_mod(x, d);
    lemma_mod_bound(x, d);
    let p = x / d;
    assert(p == q) by (nonlinear_arith)
        requires
            0 < d,
            q * d <= x,
            x < (q + 1) * d,
            d * p <= x,
            x < d * p + d,
    ;
}

} // verus!
