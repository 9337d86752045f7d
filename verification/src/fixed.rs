//! Fixed-point arithmetic helpers: truncating and rounding division with
//! exact integer specifications.

use vstd::arithmetic::div_mod::{
    lemma_div_is_ordered, lemma_div_multiples_vanish_fancy, lemma_div_nonincreasing,
    lemma_div_pos_is_pos,
};
use vstd::prelude::*;

verus! {

/// Division truncated toward zero, for a positive divisor.
pub open spec fn div_trunc(a: int, b: int) -> int
    recommends
        b > 0,
{
    if a >= 0 {
        a / b
    } else {
        -((-a) / b)
    }
}

/// Division rounded to the nearest integer, halves away from zero, for a
/// positive divisor.
pub open spec fn div_round(a: int, b: int) -> int
    recommends
        b > 0,
{
    if a >= 0 {
        (a + b / 2) / b
    } else {
        -((-a + b / 2) / b)
    }
}

/// A quotient rounded from a product bounded by `m * b` stays within `m`.
pub proof fn lemma_div_round_bound(a: int, b: int, m: int)
    requires
        b > 0,
        m >= 0,
        -m * b <= a <= m * b,
    ensures
        -m <= div_round(a, b) <= m,
{
    lemma_div_multiples_vanish_fancy(m, b / 2, b);
    assert((b * m + b / 2) / b == m);
    if a >= 0 {
        lemma_div_is_ordered(a + b / 2, m * b + b / 2, b);
        lemma_div_pos_is_pos(a + b / 2, b);
    } else {
        assert((-m) * b == -(m * b)) by (nonlinear_arith);
        assert(-a <= m * b);
        lemma_div_is_ordered(-a + b / 2, m * b + b / 2, b);
        lemma_div_pos_is_pos(-a + b / 2, b);
    }
}

/// A quotient truncated from a product bounded by `m * b` stays within `m`.
pub proof fn lemma_div_trunc_bound(a: int, b: int, m: int)
    requires
        b > 0,
        m >= 0,
        -m * b <= a <= m * b,
    ensures
        -m <= div_trunc(a, b) <= m,
{
    lemma_div_multiples_vanish_fancy(m, 0, b);
    assert((b * m + 0) / b == m);
    assert(b * m == m * b) by (nonlinear_arith);
    assert((-m) * b == -(m * b)) by (nonlinear_arith);
    if a >= 0 {
        lemma_div_is_ordered(a, m * b, b);
        lemma_div_pos_is_pos(a, b);
    } else {
        lemma_div_is_ordered(-a, m * b, b);
        lemma_div_pos_is_pos(-a, b);
    }
}

/// The truncated quotient of two fixed-point values.
pub fn div_trunc_i128(a: i128, b: i128) -> (r: i128)
    requires
        b > 0,
        a > i128::MIN,
    ensures
        r == div_trunc(a as int, b as int),
{
    if a >= 0 {
        let q = (a as u128) / (b as u128);
        proof {
            assert(q == a as int / b as int);
            lemma_div_nonincreasing(a as int, b as int);
        }
        q as i128
    } else {
        let n: u128 = (-a) as u128;
        let q = n / (b as u128);
        proof {
            assert(n == -(a as int));
            assert(q == (-(a as int)) / (b as int));
            lemma_div_nonincreasing(n as int, b as int);
        }
        -(q as i128)
    }
}

/// The rounded quotient of two fixed-point values, halves away from zero.
pub fn div_round_i128(a: i128, b: i128) -> (r: i128)
    requires
        b > 0,
        -0x4000_0000_0000_0000_0000_0000_0000_0000 <= a
            <= 0x4000_0000_0000_0000_0000_0000_0000_0000,
        b <= 0x4000_0000_0000_0000_0000_0000_0000_0000,
    ensures
        r == div_round(a as int, b as int),
{
    let h = (b as u128) / 2;
    proof {
        assert(h == b as int / 2);
    }
    if a >= 0 {
        let q = ((a as u128) + h) / (b as u128);
        proof {
            assert((a as u128) + h == a as int + b as int / 2);
            assert(q == (a as int + b as int / 2) / (b as int));
            lemma_div_nonincreasing(a as int + b as int / 2, b as int);
        }
        q as i128
    } else {
        let q = (((-a) as u128) + h) / (b as u128);
        proof {
            assert(((-a) as u128) + h == -(a as int) + b as int / 2);
            assert(q == (-(a as int) + b as int / 2) / (b as int));
            lemma_div_nonincreasing(-(a as int) + b as int / 2, b as int);
        }
        -(q as i128)
    }
}

} // verus!
