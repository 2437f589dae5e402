//! Truncating integer division, the arithmetic base of the coordinate model.
//!
//! Every coordinate in this crate is a fixed-point integer, and every scale
//! or interpolation step divides by a positive constant. Rust's `/` on
//! signed integers rounds toward zero, while the spec-level `/` on `int`
//! is Euclidean; `tdiv` names the rounding the executable code performs, so
//! contracts can state results exactly.

use vstd::arithmetic::div_mod::{
    lemma_div_is_ordered, lemma_div_multiples_vanish, lemma_div_nonincreasing,
    lemma_div_of0, lemma_div_pos_is_pos,
};
use vstd::prelude::*;

verus! {

/// Division of `x` by a positive `d`, rounding toward zero: the semantics
/// of Rust's `/` on signed integers when the divisor is positive.
pub open spec fn tdiv(x: int, d: int) -> int
    recommends
        d > 0,
{
    if x >= 0 {
        x / d
    } else {
        -((-x) / d)
    }
}

/// The quotient never grows in magnitude and never changes sign.
pub proof fn lemma_tdiv_bounds(x: int, d: int)
    requires
        d >= 1,
    ensures
        x >= 0 ==> 0 <= tdiv(x, d) <= x,
        x < 0 ==> x <= tdiv(x, d) <= 0,
{
    if x >= 0 {
        lemma_div_pos_is_pos(x, d);
        lemma_div_nonincreasing(x, d);
    } else {
        lemma_div_pos_is_pos(-x, d);
        lemma_div_nonincreasing(-x, d);
    }
}

/// A bound on the dividend bounds the quotient.
pub proof fn lemma_tdiv_abs_le(x: int, d: int, b: int)
    requires
        d >= 1,
        0 <= b,
        -b <= x <= b,
    ensures
        -b <= tdiv(x, d) <= b,
{
    lemma_tdiv_bounds(x, d);
}

/// On a nonnegative range, `tdiv` is monotone in the dividend and divides
/// exact multiples exactly.
pub proof fn lemma_tdiv_nonneg_le(x: int, y: int, d: int)
    requires
        d >= 1,
        0 <= x <= y,
    ensures
        0 <= tdiv(x, d) <= tdiv(y, d),
{
    lemma_div_pos_is_pos(x, d);
    lemma_div_is_ordered(x, y, d);
}

/// Dividing an exact multiple recovers the factor.
pub proof fn lemma_tdiv_multiple(x: int, d: int)
    requires
        d >= 1,
    ensures
        tdiv(d * x, d) == x,
{
    if x >= 0 {
        if x == 0 {
            lemma_div_of0(d);
        } else {
            lemma_div_multiples_vanish(x, d);
        }
        assert(d * x >= 0) by (nonlinear_arith)
            requires
                d >= 1,
                x >= 0,
        ;
    } else {
        lemma_div_multiples_vanish(-x, d);
        assert(d * x < 0) by (nonlinear_arith)
            requires
                d >= 1,
                x < 0,
        ;
        assert(-(d * x) == d * (-x)) by (nonlinear_arith);
    }
}

/// A dividend within `d * b` keeps the quotient within `b`.
pub proof fn lemma_tdiv_bound_scaled(x: int, d: int, b: int)
    requires
        d >= 1,
        0 <= b,
        -(d * b) <= x <= d * b,
    ensures
        -b <= tdiv(x, d) <= b,
{
    lemma_tdiv_multiple(b, d);
    if x >= 0 {
        lemma_tdiv_nonneg_le(x, d * b, d);
    } else {
        lemma_tdiv_nonneg_le(-x, d * b, d);
    }
}

/// Doubling a truncated half stays within one of the original value.
pub proof fn lemma_tdiv2_twice(s: int)
    ensures
        s - 1 <= 2 * tdiv(s, 2) <= s + 1,
{
    if s >= 0 {
        vstd::arithmetic::div_mod::lemma_fundamental_div_mod(s, 2);
        vstd::arithmetic::div_mod::lemma_remainder_upper(s, 2);
        vstd::arithmetic::div_mod::lemma_remainder_lower(s, 2);
    } else {
        vstd::arithmetic::div_mod::lemma_fundamental_div_mod(-s, 2);
        vstd::arithmetic::div_mod::lemma_remainder_upper(-s, 2);
        vstd::arithmetic::div_mod::lemma_remainder_lower(-s, 2);
    }
}

/// Truncating division on `i64`, for a positive divisor.
pub fn tdiv_i64(x: i64, d: i64) -> (r: i64)
    requires
        d >= 1,
    ensures
        r as int == tdiv(x as int, d as int),
{
    proof {
        lemma_tdiv_bounds(x as int, d as int);
        if x as int >= 0 {
        } else {
            assert((x as int) * -1 == -(x as int));
        }
    }
    let q = x.checked_div(d);
    q.unwrap()
}

/// Truncating division on `i128`, for a positive divisor.
pub fn tdiv_i128(x: i128, d: i128) -> (r: i128)
    requires
        d >= 1,
    ensures
        r as int == tdiv(x as int, d as int),
{
    proof {
        lemma_tdiv_bounds(x as int, d as int);
        if x as int >= 0 {
        } else {
            assert((x as int) * -1 == -(x as int));
        }
    }
    let q = x.checked_div(d);
    q.unwrap()
}

/// The midpoint of two coordinates, rounded toward zero: the fixed-point
/// form of linear interpolation halfway between them.
pub open spec fn mid(a: int, b: int) -> int {
    tdiv(a + b, 2)
}

/// The midpoint stays within any symmetric bound holding both endpoints.
pub proof fn lemma_mid_in_bound(a: int, b: int, c: int)
    requires
        0 <= c,
        -c <= a <= c,
        -c <= b <= c,
    ensures
        -c <= mid(a, b) <= c,
{
    lemma_tdiv_bounds(a + b, 2);
    if a + b >= 0 {
        lemma_div_is_ordered(a + b, 2 * c, 2);
        lemma_div_multiples_vanish(c, 2);
    } else {
        lemma_div_is_ordered(-(a + b), 2 * c, 2);
        lemma_div_multiples_vanish(c, 2);
    }
}

/// Midpoint of two `i64` coordinates.
pub fn mid_i64(a: i64, b: i64) -> (r: i64)
    requires
        -4_000_000_000_000_000_000 <= a as int + b as int <= 4_000_000_000_000_000_000,
    ensures
        r as int == mid(a as int, b as int),
{
    let s: i64 = a + b;
    tdiv_i64(s, 2)
}

} // verus!
