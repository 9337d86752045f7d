//! Curve statistics by closed-form line integrals over path segments: signed
//! area, first and second moments, and the derived centroid, variance,
//! covariance and slant of an outline.
//!
//! The integrals of lines, quadratics and cubics are evaluated analytically,
//! not by flattening. Every moment is carried as an exact integer, scaled by
//! a fixed denominator so the rational closed forms stay whole: the area by
//! sixty, the first moments by eight hundred forty, the second moments by
//! nine thousand two hundred forty for the squares and eighteen thousand
//! four hundred eighty for the cross moment. Moments of a multi-contour
//! outline are summed before anything is derived from them: deriving first
//! and summing after would weight the contours wrongly.
//!
//! Coordinates are expected em-normalized in thousandths of an em, within
//! four em of the origin. Derived values are in thousandths: the slant, the
//! ratio of the covariance to the vertical variance, is zeroed within one
//! thousandth to suppress noise on near-vertical strokes.

use crate::fixed::div_round;
use crate::outline::{
    coords_bounded, pos_before, seg_end, Outline, Pt, Segment, SubView,
};
use vstd::prelude::*;

verus! {

/// The largest coordinate magnitude the statistics accept, in thousandths of
/// an em.
pub const GREEN_COORD_LIMIT: i64 = 4096;

/// The most segments one subpath may carry.
pub const GREEN_SEG_LIMIT: usize = 65536;

/// The most subpaths one outline may carry.
pub const GREEN_SUB_LIMIT: usize = 256;

fn mul2(a: i64, b: i64) -> (r: i128)
    requires
        -GREEN_COORD_LIMIT <= a <= GREEN_COORD_LIMIT,
        -GREEN_COORD_LIMIT <= b <= GREEN_COORD_LIMIT,
    ensures
        r == (a as int) * (b as int),
        -16_777_216 <= r <= 16_777_216,
{
    proof {
        assert(-16_777_216 <= (a as int) * (b as int) <= 16_777_216) by (nonlinear_arith)
            requires
                -4096 <= a <= 4096,
                -4096 <= b <= 4096,
        ;
    }
    (a as i128) * (b as i128)
}

fn mul3(a: i64, b: i64, c: i64) -> (r: i128)
    requires
        -GREEN_COORD_LIMIT <= a <= GREEN_COORD_LIMIT,
        -GREEN_COORD_LIMIT <= b <= GREEN_COORD_LIMIT,
        -GREEN_COORD_LIMIT <= c <= GREEN_COORD_LIMIT,
    ensures
        r == ((a as int) * (b as int)) * (c as int),
        -68_719_476_736 <= r <= 68_719_476_736,
{
    let ab = mul2(a, b);
    proof {
        assert(-68_719_476_736 <= (ab as int) * (c as int) <= 68_719_476_736) by (nonlinear_arith)
            requires
                -16_777_216 <= ab <= 16_777_216,
                -4096 <= c <= 4096,
        ;
    }
    ab * (c as i128)
}

fn mul4(a: i64, b: i64, c: i64, d: i64) -> (r: i128)
    requires
        -GREEN_COORD_LIMIT <= a <= GREEN_COORD_LIMIT,
        -GREEN_COORD_LIMIT <= b <= GREEN_COORD_LIMIT,
        -GREEN_COORD_LIMIT <= c <= GREEN_COORD_LIMIT,
        -GREEN_COORD_LIMIT <= d <= GREEN_COORD_LIMIT,
    ensures
        r == (((a as int) * (b as int)) * (c as int)) * (d as int),
        -281_474_976_710_656 <= r <= 281_474_976_710_656,
{
    let abc = mul3(a, b, c);
    proof {
        assert(-281_474_976_710_656 <= (abc as int) * (d as int)
            <= 281_474_976_710_656) by (nonlinear_arith)
            requires
                -68_719_476_736 <= abc <= 68_719_476_736,
                -4096 <= d <= 4096,
        ;
    }
    abc * (d as i128)
}

pub open spec fn line_area_s(x0: int, y0: int, x1: int, y1: int) -> int {
    30 * ((x0 * y0)) + 30 * ((x0 * y1)) - 30 * ((y0 * x1)) - 30 * ((x1 * y1))
}

#[verifier::rlimit(100)]
fn line_area(
    x0: i64, y0: i64, x1: i64, y1: i64,
) -> (r: i128)
    requires
        -GREEN_COORD_LIMIT <= x0 <= GREEN_COORD_LIMIT && -GREEN_COORD_LIMIT <= y0 <= GREEN_COORD_LIMIT && -GREEN_COORD_LIMIT <= x1 <= GREEN_COORD_LIMIT && -GREEN_COORD_LIMIT <= y1 <= GREEN_COORD_LIMIT,
    ensures
        r == line_area_s(x0 as int, y0 as int, x1 as int, y1 as int),
        -2013265920 <= r <= 2013265920,
{
    let t0: i128 = 30 * mul2(x0, y0);
    let t1: i128 = 30 * mul2(x0, y1);
    let t2: i128 = -30 * mul2(y0, x1);
    let t3: i128 = -30 * mul2(x1, y1);
    let s0: i128 = t0 + t1 + t2 + t3;
    proof {
        assert(s0 == 30 * ((x0 * y0)) + 30 * ((x0 * y1)) - 30 * ((y0 * x1)) - 30 * ((x1 * y1)));
    }
    s0
}

pub open spec fn line_mx_s(x0: int, y0: int, x1: int, y1: int) -> int {
    280 * (((x0 * x0) * y0)) + 140 * (((x0 * x0) * y1)) - 140 * (((x0 * y0) * x1)) + 140 * (((x0 * x1) * y1)) - 140 * (((y0 * x1) * x1)) - 280 * (((x1 * x1) * y1))
}

#[verifier::rlimit(100)]
fn line_mx(
    x0: i64, y0: i64, x1: i64, y1: i64,
) -> (r: i128)
    requires
        -GREEN_COORD_LIMIT <= x0 <= GREEN_COORD_LIMIT && -GREEN_COORD_LIMIT <= y0 <= GREEN_COORD_LIMIT && -GREEN_COORD_LIMIT <= x1 <= GREEN_COORD_LIMIT && -GREEN_COORD_LIMIT <= y1 <= GREEN_COORD_LIMIT,
    ensures
        r == line_mx_s(x0 as int, y0 as int, x1 as int, y1 as int),
        -76965813944320 <= r <= 76965813944320,
{
    let t0: i128 = 280 * mul3(x0, x0, y0);
    let t1: i128 = 140 * mul3(x0, x0, y1);
    let t2: i128 = -140 * mul3(x0, y0, x1);
    let t3: i128 = 140 * mul3(x0, x1, y1);
    let t4: i128 = -140 * mul3(y0, x1, x1);
    let t5: i128 = -280 * mul3(x1, x1, y1);
    let s0: i128 = t0 + t1 + t2 + t3 + t4 + t5;
    proof {
        assert(s0 == 280 * (((x0 * x0) * y0)) + 140 * (((x0 * x0) * y1)) - 140 * (((x0 * y0) * x1)) + 140 * (((x0 * x1) * y1)) - 140 * (((y0 * x1) * x1)) - 280 * (((x1 * x1) * y1)));
    }
    s0
}

pub open spec fn line_my_s(x0: int, y0: int, x1: int, y1: int) -> int {
    140 * (((x0 * y0) * y0)) + 140 * (((x0 * y0) * y1)) + 140 * (((x0 * y1) * y1)) - 140 * (((y0 * y0) * x1)) - 140 * (((y0 * x1) * y1)) - 140 * (((x1 * y1) * y1))
}

#[verifier::rlimit(100)]
fn line_my(
    x0: i64, y0: i64, x1: i64, y1: i64,
) -> (r: i128)
    requires
        -GREEN_COORD_LIMIT <= x0 <= GREEN_COORD_LIMIT && -GREEN_COORD_LIMIT <= y0 <= GREEN_COORD_LIMIT && -GREEN_COORD_LIMIT <= x1 <= GREEN_COORD_LIMIT && -GREEN_COORD_LIMIT <= y1 <= GREEN_COORD_LIMIT,
    ensures
        r == line_my_s(x0 as int, y0 as int, x1 as int, y1 as int),
        -57724360458240 <= r <= 57724360458240,
{
    let t0: i128 = 140 * mul3(x0, y0, y0);
    let t1: i128 = 140 * mul3(x0, y0, y1);
    let t2: i128 = 140 * mul3(x0, y1, y1);
    let t3: i128 = -140 * mul3(y0, y0, x1);
    let t4: i128 = -140 * mul3(y0, x1, y1);
    let t5: i128 = -140 * mul3(x1, y1, y1);
    let s0: i128 = t0 + t1 + t2 + t3 + t4 + t5;
    proof {
        assert(s0 == 140 * (((x0 * y0) * y0)) + 140 * (((x0 * y0) * y1)) + 140 * (((x0 * y1) * y1)) - 140 * (((y0 * y0) * x1)) - 140 * (((y0 * x1) * y1)) - 140 * (((x1 * y1) * y1)));
    }
    s0
}

pub open spec fn line_mxx_s(x0: int, y0: int, x1: int, y1: int) -> int {
    2310 * ((((x0 * x0) * x0) * y0)) + 770 * ((((x0 * x0) * x0) * y1)) - 770 * ((((x0 * x0) * y0) * x1)) + 770 * ((((x0 * x0) * x1) * y1)) - 770 * ((((x0 * y0) * x1) * x1)) + 770 * ((((x0 * x1) * x1) * y1)) - 770 * ((((y0 * x1) * x1) * x1)) - 2310 * ((((x1 * x1) * x1) * y1))
}

#[verifier::rlimit(100)]
fn line_mxx(
    x0: i64, y0: i64, x1: i64, y1: i64,
) -> (r: i128)
    requires
        -GREEN_COORD_LIMIT <= x0 <= GREEN_COORD_LIMIT && -GREEN_COORD_LIMIT <= y0 <= GREEN_COORD_LIMIT && -GREEN_COORD_LIMIT <= x1 <= GREEN_COORD_LIMIT && -GREEN_COORD_LIMIT <= y1 <= GREEN_COORD_LIMIT,
    ensures
        r == line_mxx_s(x0 as int, y0 as int, x1 as int, y1 as int),
        -2600828784806461440 <= r <= 2600828784806461440,
{
    let t0: i128 = 2310 * mul4(x0, x0, x0, y0);
    let t1: i128 = 770 * mul4(x0, x0, x0, y1);
    let t2: i128 = -770 * mul4(x0, x0, y0, x1);
    let t3: i128 = 770 * mul4(x0, x0, x1, y1);
    let t4: i128 = -770 * mul4(x0, y0, x1, x1);
    let t5: i128 = 770 * mul4(x0, x1, x1, y1);
    let t6: i128 = -770 * mul4(y0, x1, x1, x1);
    let t7: i128 = -2310 * mul4(x1, x1, x1, y1);
    let s0: i128 = t0 + t1 + t2 + t3 + t4 + t5 + t6 + t7;
    proof {
        assert(s0 == 2310 * ((((x0 * x0) * x0) * y0)) + 770 * ((((x0 * x0) * x0) * y1)) - 770 * ((((x0 * x0) * y0) * x1)) + 770 * ((((x0 * x0) * x1) * y1)) - 770 * ((((x0 * y0) * x1) * x1)) + 770 * ((((x0 * x1) * x1) * y1)) - 770 * ((((y0 * x1) * x1) * x1)) - 2310 * ((((x1 * x1) * x1) * y1)));
    }
    s0
}

pub open spec fn line_mxy_s(x0: int, y0: int, x1: int, y1: int) -> int {
    2310 * ((((x0 * x0) * y0) * y0)) + 1540 * ((((x0 * x0) * y0) * y1)) + 770 * ((((x0 * x0) * y1) * y1)) - 1540 * ((((x0 * y0) * y0) * x1)) + 1540 * ((((x0 * x1) * y1) * y1)) - 770 * ((((y0 * y0) * x1) * x1)) - 1540 * ((((y0 * x1) * x1) * y1)) - 2310 * ((((x1 * x1) * y1) * y1))
}

#[verifier::rlimit(100)]
fn line_mxy(
    x0: i64, y0: i64, x1: i64, y1: i64,
) -> (r: i128)
    requires
        -GREEN_COORD_LIMIT <= x0 <= GREEN_COORD_LIMIT && -GREEN_COORD_LIMIT <= y0 <= GREEN_COORD_LIMIT && -GREEN_COORD_LIMIT <= x1 <= GREEN_COORD_LIMIT && -GREEN_COORD_LIMIT <= y1 <= GREEN_COORD_LIMIT,
    ensures
        r == line_mxy_s(x0 as int, y0 as int, x1 as int, y1 as int),
        -3467771713075281920 <= r <= 3467771713075281920,
{
    let t0: i128 = 2310 * mul4(x0, x0, y0, y0);
    let t1: i128 = 1540 * mul4(x0, x0, y0, y1);
    let t2: i128 = 770 * mul4(x0, x0, y1, y1);
    let t3: i128 = -1540 * mul4(x0, y0, y0, x1);
    let t4: i128 = 1540 * mul4(x0, x1, y1, y1);
    let t5: i128 = -770 * mul4(y0, y0, x1, x1);
    let t6: i128 = -1540 * mul4(y0, x1, x1, y1);
    let t7: i128 = -2310 * mul4(x1, x1, y1, y1);
    let s0: i128 = t0 + t1 + t2 + t3 + t4 + t5 + t6 + t7;
    proof {
        assert(s0 == 2310 * ((((x0 * x0) * y0) * y0)) + 1540 * ((((x0 * x0) * y0) * y1)) + 770 * ((((x0 * x0) * y1) * y1)) - 1540 * ((((x0 * y0) * y0) * x1)) + 1540 * ((((x0 * x1) * y1) * y1)) - 770 * ((((y0 * y0) * x1) * x1)) - 1540 * ((((y0 * x1) * x1) * y1)) - 2310 * ((((x1 * x1) * y1) * y1)));
    }
    s0
}

pub open spec fn line_myy_s(x0: int, y0: int, x1: int, y1: int) -> int {
    770 * ((((x0 * y0) * y0) * y0)) + 770 * ((((x0 * y0) * y0) * y1)) + 770 * ((((x0 * y0) * y1) * y1)) + 770 * ((((x0 * y1) * y1) * y1)) - 770 * ((((y0 * y0) * y0) * x1)) - 770 * ((((y0 * y0) * x1) * y1)) - 770 * ((((y0 * x1) * y1) * y1)) - 770 * ((((x1 * y1) * y1) * y1))
}

#[verifier::rlimit(100)]
fn line_myy(
    x0: i64, y0: i64, x1: i64, y1: i64,
) -> (r: i128)
    requires
        -GREEN_COORD_LIMIT <= x0 <= GREEN_COORD_LIMIT && -GREEN_COORD_LIMIT <= y0 <= GREEN_COORD_LIMIT && -GREEN_COORD_LIMIT <= x1 <= GREEN_COORD_LIMIT && -GREEN_COORD_LIMIT <= y1 <= GREEN_COORD_LIMIT,
    ensures
        r == line_myy_s(x0 as int, y0 as int, x1 as int, y1 as int),
        -1733885856537640960 <= r <= 1733885856537640960,
{
    let t0: i128 = 770 * mul4(x0, y0, y0, y0);
    let t1: i128 = 770 * mul4(x0, y0, y0, y1);
    let t2: i128 = 770 * mul4(x0, y0, y1, y1);
    let t3: i128 = 770 * mul4(x0, y1, y1, y1);
    let t4: i128 = -770 * mul4(y0, y0, y0, x1);
    let t5: i128 = -770 * mul4(y0, y0, x1, y1);
    let t6: i128 = -770 * mul4(y0, x1, y1, y1);
    let t7: i128 = -770 * mul4(x1, y1, y1, y1);
    let s0: i128 = t0 + t1 + t2 + t3 + t4 + t5 + t6 + t7;
    proof {
        assert(s0 == 770 * ((((x0 * y0) * y0) * y0)) + 770 * ((((x0 * y0) * y0) * y1)) + 770 * ((((x0 * y0) * y1) * y1)) + 770 * ((((x0 * y1) * y1) * y1)) - 770 * ((((y0 * y0) * y0) * x1)) - 770 * ((((y0 * y0) * x1) * y1)) - 770 * ((((y0 * x1) * y1) * y1)) - 770 * ((((x1 * y1) * y1) * y1)));
    }
    s0
}

pub open spec fn quad_area_s(x0: int, y0: int, x1: int, y1: int, x2: int, y2: int) -> int {
    30 * ((x0 * y0)) + 20 * ((x0 * y1)) + 10 * ((x0 * y2)) - 20 * ((y0 * x1)) - 10 * ((y0 * x2)) + 20 * ((x1 * y2)) - 20 * ((y1 * x2)) - 30 * ((x2 * y2))
}

#[verifier::rlimit(100)]
fn quad_area(
    x0: i64, y0: i64, x1: i64, y1: i64, x2: i64, y2: i64,
) -> (r: i128)
    requires
        -GREEN_COORD_LIMIT <= x0 <= GREEN_COORD_LIMIT && -GREEN_COORD_LIMIT <= y0 <= GREEN_COORD_LIMIT && -GREEN_COORD_LIMIT <= x1 <= GREEN_COORD_LIMIT && -GREEN_COORD_LIMIT <= y1 <= GREEN_COORD_LIMIT && -GREEN_COORD_LIMIT <= x2 <= GREEN_COORD_LIMIT && -GREEN_COORD_LIMIT <= y2 <= GREEN_COORD_LIMIT,
    ensures
        r == quad_area_s(x0 as int, y0 as int, x1 as int, y1 as int, x2 as int, y2 as int),
        -2684354560 <= r <= 2684354560,
{
    let t0: i128 = 30 * mul2(x0, y0);
    let t1: i128 = 20 * mul2(x0, y1);
    let t2: i128 = 10 * mul2(x0, y2);
    let t3: i128 = -20 * mul2(y0, x1);
    let t4: i128 = -10 * mul2(y0, x2);
    let t5: i128 = 20 * mul2(x1, y2);
    let t6: i128 = -20 * mul2(y1, x2);
    let t7: i128 = -30 * mul2(x2, y2);
    let s0: i128 = t0 + t1 + t2 + t3 + t4 + t5 + t6 + t7;
    proof {
        assert(s0 == 30 * ((x0 * y0)) + 20 * ((x0 * y1)) + 10 * ((x0 * y2)) - 20 * ((y0 * x1)) - 10 * ((y0 * x2)) + 20 * ((x1 * y2)) - 20 * ((y1 * x2)) - 30 * ((x2 * y2)));
    }
    s0
}

pub open spec fn quad_mx_s(x0: int, y0: int, x1: int, y1: int, x2: int, y2: int) -> int {
    280 * (((x0 * x0) * y0)) + 112 * (((x0 * x0) * y1)) + 28 * (((x0 * x0) * y2)) - 112 * (((x0 * y0) * x1)) - 28 * (((x0 * y0) * x2)) + 56 * (((x0 * x1) * y1)) + 56 * (((x0 * x1) * y2)) + 28 * (((x0 * x2) * y2)) - 56 * (((y0 * x1) * x1)) - 56 * (((y0 * x1) * x2)) - 28 * (((y0 * x2) * x2)) + 56 * (((x1 * x1) * y2)) - 56 * (((x1 * y1) * x2)) + 112 * (((x1 * x2) * y2)) - 112 * (((y1 * x2) * x2)) - 280 * (((x2 * x2) * y2))
}

#[verifier::rlimit(100)]
fn quad_mx(
    x0: i64, y0: i64, x1: i64, y1: i64, x2: i64, y2: i64,
) -> (r: i128)
    requires
        -GREEN_COORD_LIMIT <= x0 <= GREEN_COORD_LIMIT && -GREEN_COORD_LIMIT <= y0 <= GREEN_COORD_LIMIT && -GREEN_COORD_LIMIT <= x1 <= GREEN_COORD_LIMIT && -GREEN_COORD_LIMIT <= y1 <= GREEN_COORD_LIMIT && -GREEN_COORD_LIMIT <= x2 <= GREEN_COORD_LIMIT && -GREEN_COORD_LIMIT <= y2 <= GREEN_COORD_LIMIT,
    ensures
        r == quad_mx_s(x0 as int, y0 as int, x1 as int, y1 as int, x2 as int, y2 as int),
        -100055558127616 <= r <= 100055558127616,
{
    let t0: i128 = 280 * mul3(x0, x0, y0);
    let t1: i128 = 112 * mul3(x0, x0, y1);
    let t2: i128 = 28 * mul3(x0, x0, y2);
    let t3: i128 = -112 * mul3(x0, y0, x1);
    let t4: i128 = -28 * mul3(x0, y0, x2);
    let t5: i128 = 56 * mul3(x0, x1, y1);
    let t6: i128 = 56 * mul3(x0, x1, y2);
    let t7: i128 = 28 * mul3(x0, x2, y2);
    let t8: i128 = -56 * mul3(y0, x1, x1);
    let t9: i128 = -56 * mul3(y0, x1, x2);
    let t10: i128 = -28 * mul3(y0, x2, x2);
    let t11: i128 = 56 * mul3(x1, x1, y2);
    let t12: i128 = -56 * mul3(x1, y1, x2);
    let t13: i128 = 112 * mul3(x1, x2, y2);
    let t14: i128 = -112 * mul3(y1, x2, x2);
    let t15: i128 = -280 * mul3(x2, x2, y2);
    let s0: i128 = t0 + t1 + t2 + t3 + t4 + t5 + t6 + t7 + t8 + t9 + t10 + t11 + t12 + t13;
    proof {
        assert(s0 == 280 * (((x0 * x0) * y0)) + 112 * (((x0 * x0) * y1)) + 28 * (((x0 * x0) * y2)) - 112 * (((x0 * y0) * x1)) - 28 * (((x0 * y0) * x2)) + 56 * (((x0 * x1) * y1)) + 56 * (((x0 * x1) * y2)) + 28 * (((x0 * x2) * y2)) - 56 * (((y0 * x1) * x1)) - 56 * (((y0 * x1) * x2)) - 28 * (((y0 * x2) * x2)) + 56 * (((x1 * x1) * y2)) - 56 * (((x1 * y1) * x2)) + 112 * (((x1 * x2) * y2)));
    }
    let s1: i128 = t14 + t15;
    proof {
        assert(s1 == -112 * (((y1 * x2) * x2)) - 280 * (((x2 * x2) * y2)));
    }
    s0 + s1
}

pub open spec fn quad_my_s(x0: int, y0: int, x1: int, y1: int, x2: int, y2: int) -> int {
    140 * (((x0 * y0) * y0)) + 112 * (((x0 * y0) * y1)) + 28 * (((x0 * y0) * y2)) + 56 * (((x0 * y1) * y1)) + 56 * (((x0 * y1) * y2)) + 28 * (((x0 * y2) * y2)) - 112 * (((y0 * y0) * x1)) - 28 * (((y0 * y0) * x2)) - 56 * (((y0 * x1) * y1)) - 56 * (((y0 * y1) * x2)) - 28 * (((y0 * x2) * y2)) + 56 * (((x1 * y1) * y2)) + 112 * (((x1 * y2) * y2)) - 56 * (((y1 * y1) * x2)) - 112 * (((y1 * x2) * y2)) - 140 * (((x2 * y2) * y2))
}

#[verifier::rlimit(100)]
fn quad_my(
    x0: i64, y0: i64, x1: i64, y1: i64, x2: i64, y2: i64,
) -> (r: i128)
    requires
        -GREEN_COORD_LIMIT <= x0 <= GREEN_COORD_LIMIT && -GREEN_COORD_LIMIT <= y0 <= GREEN_COORD_LIMIT && -GREEN_COORD_LIMIT <= x1 <= GREEN_COORD_LIMIT && -GREEN_COORD_LIMIT <= y1 <= GREEN_COORD_LIMIT && -GREEN_COORD_LIMIT <= x2 <= GREEN_COORD_LIMIT && -GREEN_COORD_LIMIT <= y2 <= GREEN_COORD_LIMIT,
    ensures
        r == quad_my_s(x0 as int, y0 as int, x1 as int, y1 as int, x2 as int, y2 as int),
        -80814104641536 <= r <= 80814104641536,
{
    let t0: i128 = 140 * mul3(x0, y0, y0);
    let t1: i128 = 112 * mul3(x0, y0, y1);
    let t2: i128 = 28 * mul3(x0, y0, y2);
    let t3: i128 = 56 * mul3(x0, y1, y1);
    let t4: i128 = 56 * mul3(x0, y1, y2);
    let t5: i128 = 28 * mul3(x0, y2, y2);
    let t6: i128 = -112 * mul3(y0, y0, x1);
    let t7: i128 = -28 * mul3(y0, y0, x2);
    let t8: i128 = -56 * mul3(y0, x1, y1);
    let t9: i128 = -56 * mul3(y0, y1, x2);
    let t10: i128 = -28 * mul3(y0, x2, y2);
    let t11: i128 = 56 * mul3(x1, y1, y2);
    let t12: i128 = 112 * mul3(x1, y2, y2);
    let t13: i128 = -56 * mul3(y1, y1, x2);
    let t14: i128 = -112 * mul3(y1, x2, y2);
    let t15: i128 = -140 * mul3(x2, y2, y2);
    let s0: i128 = t0 + t1 + t2 + t3 + t4 + t5 + t6 + t7 + t8 + t9 + t10 + t11 + t12 + t13;
    proof {
        assert(s0 == 140 * (((x0 * y0) * y0)) + 112 * (((x0 * y0) * y1)) + 28 * (((x0 * y0) * y2)) + 56 * (((x0 * y1) * y1)) + 56 * (((x0 * y1) * y2)) + 28 * (((x0 * y2) * y2)) - 112 * (((y0 * y0) * x1)) - 28 * (((y0 * y0) * x2)) - 56 * (((y0 * x1) * y1)) - 56 * (((y0 * y1) * x2)) - 28 * (((y0 * x2) * y2)) + 56 * (((x1 * y1) * y2)) + 112 * (((x1 * y2) * y2)) - 56 * (((y1 * y1) * x2)));
    }
    let s1: i128 = t14 + t15;
    proof {
        assert(s1 == -112 * (((y1 * x2) * y2)) - 140 * (((x2 * y2) * y2)));
    }
    s0 + s1
}

pub open spec fn quad_mxx_s(x0: int, y0: int, x1: int, y1: int, x2: int, y2: int) -> int {
    2310 * ((((x0 * x0) * x0) * y0)) + 660 * ((((x0 * x0) * x0) * y1)) + 110 * ((((x0 * x0) * x0) * y2)) - 660 * ((((x0 * x0) * y0) * x1)) - 110 * ((((x0 * x0) * y0) * x2)) + 440 * ((((x0 * x0) * x1) * y1)) + 220 * ((((x0 * x0) * x1) * y2)) + 44 * ((((x0 * x0) * y1) * x2)) + 66 * ((((x0 * x0) * x2) * y2)) - 440 * ((((x0 * y0) * x1) * x1)) - 264 * ((((x0 * y0) * x1) * x2)) - 66 * ((((x0 * y0) * x2) * x2)) + 176 * ((((x0 * x1) * x1) * y1)) + 264 * ((((x0 * x1) * x1) * y2)) + 264 * ((((x0 * x1) * x2) * y2)) - 44 * ((((x0 * y1) * x2) * x2)) + 110 * ((((x0 * x2) * x2) * y2)) - 176 * ((((y0 * x1) * x1) * x1)) - 264 * ((((y0 * x1) * x1) * x2)) - 220 * ((((y0 * x1) * x2) * x2)) - 110 * ((((y0 * x2) * x2) * x2)) + 176 * ((((x1 * x1) * x1) * y2)) - 176 * ((((x1 * x1) * y1) * x2)) + 440 * ((((x1 * x1) * x2) * y2)) - 440 * ((((x1 * y1) * x2) * x2)) + 660 * ((((x1 * x2) * x2) * y2)) - 660 * ((((y1 * x2) * x2) * x2)) - 2310 * ((((x2 * x2) * x2) * y2))
}

#[verifier::rlimit(100)]
fn quad_mxx(
    x0: i64, y0: i64, x1: i64, y1: i64, x2: i64, y2: i64,
) -> (r: i128)
    requires
        -GREEN_COORD_LIMIT <= x0 <= GREEN_COORD_LIMIT && -GREEN_COORD_LIMIT <= y0 <= GREEN_COORD_LIMIT && -GREEN_COORD_LIMIT <= x1 <= GREEN_COORD_LIMIT && -GREEN_COORD_LIMIT <= y1 <= GREEN_COORD_LIMIT && -GREEN_COORD_LIMIT <= x2 <= GREEN_COORD_LIMIT && -GREEN_COORD_LIMIT <= y2 <= GREEN_COORD_LIMIT,
    ensures
        r == quad_mxx_s(x0 as int, y0 as int, x1 as int, y1 as int, x2 as int, y2 as int),
        -3343922723322593280 <= r <= 3343922723322593280,
{
    let t0: i128 = 2310 * mul4(x0, x0, x0, y0);
    let t1: i128 = 660 * mul4(x0, x0, x0, y1);
    let t2: i128 = 110 * mul4(x0, x0, x0, y2);
    let t3: i128 = -660 * mul4(x0, x0, y0, x1);
    let t4: i128 = -110 * mul4(x0, x0, y0, x2);
    let t5: i128 = 440 * mul4(x0, x0, x1, y1);
    let t6: i128 = 220 * mul4(x0, x0, x1, y2);
    let t7: i128 = 44 * mul4(x0, x0, y1, x2);
    let t8: i128 = 66 * mul4(x0, x0, x2, y2);
    let t9: i128 = -440 * mul4(x0, y0, x1, x1);
    let t10: i128 = -264 * mul4(x0, y0, x1, x2);
    let t11: i128 = -66 * mul4(x0, y0, x2, x2);
    let t12: i128 = 176 * mul4(x0, x1, x1, y1);
    let t13: i128 = 264 * mul4(x0, x1, x1, y2);
    let t14: i128 = 264 * mul4(x0, x1, x2, y2);
    let t15: i128 = -44 * mul4(x0, y1, x2, x2);
    let t16: i128 = 110 * mul4(x0, x2, x2, y2);
    let t17: i128 = -176 * mul4(y0, x1, x1, x1);
    let t18: i128 = -264 * mul4(y0, x1, x1, x2);
    let t19: i128 = -220 * mul4(y0, x1, x2, x2);
    let t20: i128 = -110 * mul4(y0, x2, x2, x2);
    let t21: i128 = 176 * mul4(x1, x1, x1, y2);
    let t22: i128 = -176 * mul4(x1, x1, y1, x2);
    let t23: i128 = 440 * mul4(x1, x1, x2, y2);
    let t24: i128 = -440 * mul4(x1, y1, x2, x2);
    let t25: i128 = 660 * mul4(x1, x2, x2, y2);
    let t26: i128 = -660 * mul4(y1, x2, x2, x2);
    let t27: i128 = -2310 * mul4(x2, x2, x2, y2);
    let s0: i128 = t0 + t1 + t2 + t3 + t4 + t5 + t6 + t7 + t8 + t9 + t10 + t11 + t12 + t13;
    proof {
        assert(s0 == 2310 * ((((x0 * x0) * x0) * y0)) + 660 * ((((x0 * x0) * x0) * y1)) + 110 * ((((x0 * x0) * x0) * y2)) - 660 * ((((x0 * x0) * y0) * x1)) - 110 * ((((x0 * x0) * y0) * x2)) + 440 * ((((x0 * x0) * x1) * y1)) + 220 * ((((x0 * x0) * x1) * y2)) + 44 * ((((x0 * x0) * y1) * x2)) + 66 * ((((x0 * x0) * x2) * y2)) - 440 * ((((x0 * y0) * x1) * x1)) - 264 * ((((x0 * y0) * x1) * x2)) - 66 * ((((x0 * y0) * x2) * x2)) + 176 * ((((x0 * x1) * x1) * y1)) + 264 * ((((x0 * x1) * x1) * y2)));
    }
    let s1: i128 = t14 + t15 + t16 + t17 + t18 + t19 + t20 + t21 + t22 + t23 + t24 + t25 + t26 + t27;
    proof {
        assert(s1 == 264 * ((((x0 * x1) * x2) * y2)) - 44 * ((((x0 * y1) * x2) * x2)) + 110 * ((((x0 * x2) * x2) * y2)) - 176 * ((((y0 * x1) * x1) * x1)) - 264 * ((((y0 * x1) * x1) * x2)) - 220 * ((((y0 * x1) * x2) * x2)) - 110 * ((((y0 * x2) * x2) * x2)) + 176 * ((((x1 * x1) * x1) * y2)) - 176 * ((((x1 * x1) * y1) * x2)) + 440 * ((((x1 * x1) * x2) * y2)) - 440 * ((((x1 * y1) * x2) * x2)) + 660 * ((((x1 * x2) * x2) * y2)) - 660 * ((((y1 * x2) * x2) * x2)) - 2310 * ((((x2 * x2) * x2) * y2)));
    }
    s0 + s1
}

pub open spec fn quad_mxy_s(x0: int, y0: int, x1: int, y1: int, x2: int, y2: int) -> int {
    2310 * ((((x0 * x0) * y0) * y0)) + 1320 * ((((x0 * x0) * y0) * y1)) + 220 * ((((x0 * x0) * y0) * y2)) + 440 * ((((x0 * x0) * y1) * y1)) + 264 * ((((x0 * x0) * y1) * y2)) + 66 * ((((x0 * x0) * y2) * y2)) - 1320 * ((((x0 * y0) * y0) * x1)) - 220 * ((((x0 * y0) * y0) * x2)) + 176 * ((((x0 * y0) * x1) * y2)) - 176 * ((((x0 * y0) * y1) * x2)) + 352 * ((((x0 * x1) * y1) * y1)) + 528 * ((((x0 * x1) * y1) * y2)) + 264 * ((((x0 * x1) * y2) * y2)) + 176 * ((((x0 * y1) * x2) * y2)) + 220 * ((((x0 * x2) * y2) * y2)) - 440 * ((((y0 * y0) * x1) * x1)) - 264 * ((((y0 * y0) * x1) * x2)) - 66 * ((((y0 * y0) * x2) * x2)) - 352 * ((((y0 * x1) * x1) * y1)) - 528 * ((((y0 * x1) * y1) * x2)) - 176 * ((((y0 * x1) * x2) * y2)) - 264 * ((((y0 * y1) * x2) * x2)) - 220 * ((((y0 * x2) * x2) * y2)) + 352 * ((((x1 * x1) * y1) * y2)) + 440 * ((((x1 * x1) * y2) * y2)) - 352 * ((((x1 * y1) * y1) * x2)) + 1320 * ((((x1 * x2) * y2) * y2)) - 440 * ((((y1 * y1) * x2) * x2)) - 1320 * ((((y1 * x2) * x2) * y2)) - 2310 * ((((x2 * x2) * y2) * y2))
}

#[verifier::rlimit(100)]
fn quad_mxy(
    x0: i64, y0: i64, x1: i64, y1: i64, x2: i64, y2: i64,
) -> (r: i128)
    requires
        -GREEN_COORD_LIMIT <= x0 <= GREEN_COORD_LIMIT && -GREEN_COORD_LIMIT <= y0 <= GREEN_COORD_LIMIT && -GREEN_COORD_LIMIT <= x1 <= GREEN_COORD_LIMIT && -GREEN_COORD_LIMIT <= y1 <= GREEN_COORD_LIMIT && -GREEN_COORD_LIMIT <= x2 <= GREEN_COORD_LIMIT && -GREEN_COORD_LIMIT <= y2 <= GREEN_COORD_LIMIT,
    ensures
        r == quad_mxy_s(x0 as int, y0 as int, x1 as int, y1 as int, x2 as int, y2 as int),
        -4755801206503243776 <= r <= 4755801206503243776,
{
    let t0: i128 = 2310 * mul4(x0, x0, y0, y0);
    let t1: i128 = 1320 * mul4(x0, x0, y0, y1);
    let t2: i128 = 220 * mul4(x0, x0, y0, y2);
    let t3: i128 = 440 * mul4(x0, x0, y1, y1);
    let t4: i128 = 264 * mul4(x0, x0, y1, y2);
    let t5: i128 = 66 * mul4(x0, x0, y2, y2);
    let t6: i128 = -1320 * mul4(x0, y0, y0, x1);
    let t7: i128 = -220 * mul4(x0, y0, y0, x2);
    let t8: i128 = 176 * mul4(x0, y0, x1, y2);
    let t9: i128 = -176 * mul4(x0, y0, y1, x2);
    let t10: i128 = 352 * mul4(x0, x1, y1, y1);
    let t11: i128 = 528 * mul4(x0, x1, y1, y2);
    let t12: i128 = 264 * mul4(x0, x1, y2, y2);
    let t13: i128 = 176 * mul4(x0, y1, x2, y2);
    let t14: i128 = 220 * mul4(x0, x2, y2, y2);
    let t15: i128 = -440 * mul4(y0, y0, x1, x1);
    let t16: i128 = -264 * mul4(y0, y0, x1, x2);
    let t17: i128 = -66 * mul4(y0, y0, x2, x2);
    let t18: i128 = -352 * mul4(y0, x1, x1, y1);
    let t19: i128 = -528 * mul4(y0, x1, y1, x2);
    let t20: i128 = -176 * mul4(y0, x1, x2, y2);
    let t21: i128 = -264 * mul4(y0, y1, x2, x2);
    let t22: i128 = -220 * mul4(y0, x2, x2, y2);
    let t23: i128 = 352 * mul4(x1, x1, y1, y2);
    let t24: i128 = 440 * mul4(x1, x1, y2, y2);
    let t25: i128 = -352 * mul4(x1, y1, y1, x2);
    let t26: i128 = 1320 * mul4(x1, x2, y2, y2);
    let t27: i128 = -440 * mul4(y1, y1, x2, x2);
    let t28: i128 = -1320 * mul4(y1, x2, x2, y2);
    let t29: i128 = -2310 * mul4(x2, x2, y2, y2);
    let s0: i128 = t0 + t1 + t2 + t3 + t4 + t5 + t6 + t7 + t8 + t9 + t10 + t11 + t12 + t13;
    proof {
        assert(s0 == 2310 * ((((x0 * x0) * y0) * y0)) + 1320 * ((((x0 * x0) * y0) * y1)) + 220 * ((((x0 * x0) * y0) * y2)) + 440 * ((((x0 * x0) * y1) * y1)) + 264 * ((((x0 * x0) * y1) * y2)) + 66 * ((((x0 * x0) * y2) * y2)) - 1320 * ((((x0 * y0) * y0) * x1)) - 220 * ((((x0 * y0) * y0) * x2)) + 176 * ((((x0 * y0) * x1) * y2)) - 176 * ((((x0 * y0) * y1) * x2)) + 352 * ((((x0 * x1) * y1) * y1)) + 528 * ((((x0 * x1) * y1) * y2)) + 264 * ((((x0 * x1) * y2) * y2)) + 176 * ((((x0 * y1) * x2) * y2)));
    }
    let s1: i128 = t14 + t15 + t16 + t17 + t18 + t19 + t20 + t21 + t22 + t23 + t24 + t25 + t26 + t27;
    proof {
        assert(s1 == 220 * ((((x0 * x2) * y2) * y2)) - 440 * ((((y0 * y0) * x1) * x1)) - 264 * ((((y0 * y0) * x1) * x2)) - 66 * ((((y0 * y0) * x2) * x2)) - 352 * ((((y0 * x1) * x1) * y1)) - 528 * ((((y0 * x1) * y1) * x2)) - 176 * ((((y0 * x1) * x2) * y2)) - 264 * ((((y0 * y1) * x2) * x2)) - 220 * ((((y0 * x2) * x2) * y2)) + 352 * ((((x1 * x1) * y1) * y2)) + 440 * ((((x1 * x1) * y2) * y2)) - 352 * ((((x1 * y1) * y1) * x2)) + 1320 * ((((x1 * x2) * y2) * y2)) - 440 * ((((y1 * y1) * x2) * x2)));
    }
    let s2: i128 = t28 + t29;
    proof {
        assert(s2 == -1320 * ((((y1 * x2) * x2) * y2)) - 2310 * ((((x2 * x2) * y2) * y2)));
    }
    s0 + s1 + s2
}

pub open spec fn quad_myy_s(x0: int, y0: int, x1: int, y1: int, x2: int, y2: int) -> int {
    770 * ((((x0 * y0) * y0) * y0)) + 660 * ((((x0 * y0) * y0) * y1)) + 110 * ((((x0 * y0) * y0) * y2)) + 440 * ((((x0 * y0) * y1) * y1)) + 264 * ((((x0 * y0) * y1) * y2)) + 66 * ((((x0 * y0) * y2) * y2)) + 176 * ((((x0 * y1) * y1) * y1)) + 264 * ((((x0 * y1) * y1) * y2)) + 220 * ((((x0 * y1) * y2) * y2)) + 110 * ((((x0 * y2) * y2) * y2)) - 660 * ((((y0 * y0) * y0) * x1)) - 110 * ((((y0 * y0) * y0) * x2)) - 440 * ((((y0 * y0) * x1) * y1)) - 44 * ((((y0 * y0) * x1) * y2)) - 220 * ((((y0 * y0) * y1) * x2)) - 66 * ((((y0 * y0) * x2) * y2)) - 176 * ((((y0 * x1) * y1) * y1)) + 44 * ((((y0 * x1) * y2) * y2)) - 264 * ((((y0 * y1) * y1) * x2)) - 264 * ((((y0 * y1) * x2) * y2)) - 110 * ((((y0 * x2) * y2) * y2)) + 176 * ((((x1 * y1) * y1) * y2)) + 440 * ((((x1 * y1) * y2) * y2)) + 660 * ((((x1 * y2) * y2) * y2)) - 176 * ((((y1 * y1) * y1) * x2)) - 440 * ((((y1 * y1) * x2) * y2)) - 660 * ((((y1 * x2) * y2) * y2)) - 770 * ((((x2 * y2) * y2) * y2))
}

#[verifier::rlimit(100)]
fn quad_myy(
    x0: i64, y0: i64, x1: i64, y1: i64, x2: i64, y2: i64,
) -> (r: i128)
    requires
        -GREEN_COORD_LIMIT <= x0 <= GREEN_COORD_LIMIT && -GREEN_COORD_LIMIT <= y0 <= GREEN_COORD_LIMIT && -GREEN_COORD_LIMIT <= x1 <= GREEN_COORD_LIMIT && -GREEN_COORD_LIMIT <= y1 <= GREEN_COORD_LIMIT && -GREEN_COORD_LIMIT <= x2 <= GREEN_COORD_LIMIT && -GREEN_COORD_LIMIT <= y2 <= GREEN_COORD_LIMIT,
    ensures
        r == quad_myy_s(x0 as int, y0 as int, x1 as int, y1 as int, x2 as int, y2 as int),
        -2476979795053772800 <= r <= 2476979795053772800,
{
    let t0: i128 = 770 * mul4(x0, y0, y0, y0);
    let t1: i128 = 660 * mul4(x0, y0, y0, y1);
    let t2: i128 = 110 * mul4(x0, y0, y0, y2);
    let t3: i128 = 440 * mul4(x0, y0, y1, y1);
    let t4: i128 = 264 * mul4(x0, y0, y1, y2);
    let t5: i128 = 66 * mul4(x0, y0, y2, y2);
    let t6: i128 = 176 * mul4(x0, y1, y1, y1);
    let t7: i128 = 264 * mul4(x0, y1, y1, y2);
    let t8: i128 = 220 * mul4(x0, y1, y2, y2);
    let t9: i128 = 110 * mul4(x0, y2, y2, y2);
    let t10: i128 = -660 * mul4(y0, y0, y0, x1);
    let t11: i128 = -110 * mul4(y0, y0, y0, x2);
    let t12: i128 = -440 * mul4(y0, y0, x1, y1);
    let t13: i128 = -44 * mul4(y0, y0, x1, y2);
    let t14: i128 = -220 * mul4(y0, y0, y1, x2);
    let t15: i128 = -66 * mul4(y0, y0, x2, y2);
    let t16: i128 = -176 * mul4(y0, x1, y1, y1);
    let t17: i128 = 44 * mul4(y0, x1, y2, y2);
    let t18: i128 = -264 * mul4(y0, y1, y1, x2);
    let t19: i128 = -264 * mul4(y0, y1, x2, y2);
    let t20: i128 = -110 * mul4(y0, x2, y2, y2);
    let t21: i128 = 176 * mul4(x1, y1, y1, y2);
    let t22: i128 = 440 * mul4(x1, y1, y2, y2);
    let t23: i128 = 660 * mul4(x1, y2, y2, y2);
    let t24: i128 = -176 * mul4(y1, y1, y1, x2);
    let t25: i128 = -440 * mul4(y1, y1, x2, y2);
    let t26: i128 = -660 * mul4(y1, x2, y2, y2);
    let t27: i128 = -770 * mul4(x2, y2, y2, y2);
    let s0: i128 = t0 + t1 + t2 + t3 + t4 + t5 + t6 + t7 + t8 + t9 + t10 + t11 + t12 + t13;
    proof {
        assert(s0 == 770 * ((((x0 * y0) * y0) * y0)) + 660 * ((((x0 * y0) * y0) * y1)) + 110 * ((((x0 * y0) * y0) * y2)) + 440 * ((((x0 * y0) * y1) * y1)) + 264 * ((((x0 * y0) * y1) * y2)) + 66 * ((((x0 * y0) * y2) * y2)) + 176 * ((((x0 * y1) * y1) * y1)) + 264 * ((((x0 * y1) * y1) * y2)) + 220 * ((((x0 * y1) * y2) * y2)) + 110 * ((((x0 * y2) * y2) * y2)) - 660 * ((((y0 * y0) * y0) * x1)) - 110 * ((((y0 * y0) * y0) * x2)) - 440 * ((((y0 * y0) * x1) * y1)) - 44 * ((((y0 * y0) * x1) * y2)));
    }
    let s1: i128 = t14 + t15 + t16 + t17 + t18 + t19 + t20 + t21 + t22 + t23 + t24 + t25 + t26 + t27;
    proof {
        assert(s1 == -220 * ((((y0 * y0) * y1) * x2)) - 66 * ((((y0 * y0) * x2) * y2)) - 176 * ((((y0 * x1) * y1) * y1)) + 44 * ((((y0 * x1) * y2) * y2)) - 264 * ((((y0 * y1) * y1) * x2)) - 264 * ((((y0 * y1) * x2) * y2)) - 110 * ((((y0 * x2) * y2) * y2)) + 176 * ((((x1 * y1) * y1) * y2)) + 440 * ((((x1 * y1) * y2) * y2)) + 660 * ((((x1 * y2) * y2) * y2)) - 176 * ((((y1 * y1) * y1) * x2)) - 440 * ((((y1 * y1) * x2) * y2)) - 660 * ((((y1 * x2) * y2) * y2)) - 770 * ((((x2 * y2) * y2) * y2)));
    }
    s0 + s1
}

pub open spec fn cubic_area_s(x0: int, y0: int, x1: int, y1: int, x2: int, y2: int, x3: int, y3: int) -> int {
    30 * ((x0 * y0)) + 18 * ((x0 * y1)) + 9 * ((x0 * y2)) + 3 * ((x0 * y3)) - 18 * ((y0 * x1)) - 9 * ((y0 * x2)) - 3 * ((y0 * x3)) + 9 * ((x1 * y2)) + 9 * ((x1 * y3)) - 9 * ((y1 * x2)) - 9 * ((y1 * x3)) + 18 * ((x2 * y3)) - 18 * ((y2 * x3)) - 30 * ((x3 * y3))
}

#[verifier::rlimit(100)]
fn cubic_area(
    x0: i64, y0: i64, x1: i64, y1: i64, x2: i64, y2: i64, x3: i64, y3: i64,
) -> (r: i128)
    requires
        -GREEN_COORD_LIMIT <= x0 <= GREEN_COORD_LIMIT && -GREEN_COORD_LIMIT <= y0 <= GREEN_COORD_LIMIT && -GREEN_COORD_LIMIT <= x1 <= GREEN_COORD_LIMIT && -GREEN_COORD_LIMIT <= y1 <= GREEN_COORD_LIMIT && -GREEN_COORD_LIMIT <= x2 <= GREEN_COORD_LIMIT && -GREEN_COORD_LIMIT <= y2 <= GREEN_COORD_LIMIT && -GREEN_COORD_LIMIT <= x3 <= GREEN_COORD_LIMIT && -GREEN_COORD_LIMIT <= y3 <= GREEN_COORD_LIMIT,
    ensures
        r == cubic_area_s(x0 as int, y0 as int, x1 as int, y1 as int, x2 as int, y2 as int, x3 as int, y3 as int),
        -3221225472 <= r <= 3221225472,
{
    let t0: i128 = 30 * mul2(x0, y0);
    let t1: i128 = 18 * mul2(x0, y1);
    let t2: i128 = 9 * mul2(x0, y2);
    let t3: i128 = 3 * mul2(x0, y3);
    let t4: i128 = -18 * mul2(y0, x1);
    let t5: i128 = -9 * mul2(y0, x2);
    let t6: i128 = -3 * mul2(y0, x3);
    let t7: i128 = 9 * mul2(x1, y2);
    let t8: i128 = 9 * mul2(x1, y3);
    let t9: i128 = -9 * mul2(y1, x2);
    let t10: i128 = -9 * mul2(y1, x3);
    let t11: i128 = 18 * mul2(x2, y3);
    let t12: i128 = -18 * mul2(y2, x3);
    let t13: i128 = -30 * mul2(x3, y3);
    let s0: i128 = t0 + t1 + t2 + t3 + t4 + t5 + t6 + t7 + t8 + t9 + t10 + t11 + t12 + t13;
    proof {
        assert(s0 == 30 * ((x0 * y0)) + 18 * ((x0 * y1)) + 9 * ((x0 * y2)) + 3 * ((x0 * y3)) - 18 * ((y0 * x1)) - 9 * ((y0 * x2)) - 3 * ((y0 * x3)) + 9 * ((x1 * y2)) + 9 * ((x1 * y3)) - 9 * ((y1 * x2)) - 9 * ((y1 * x3)) + 18 * ((x2 * y3)) - 18 * ((y2 * x3)) - 30 * ((x3 * y3)));
    }
    s0
}

pub open spec fn cubic_mx_s(x0: int, y0: int, x1: int, y1: int, x2: int, y2: int, x3: int, y3: int) -> int {
    280 * (((x0 * x0) * y0)) + 105 * (((x0 * x0) * y1)) + 30 * (((x0 * x0) * y2)) + 5 * (((x0 * x0) * y3)) - 105 * (((x0 * y0) * x1)) - 30 * (((x0 * y0) * x2)) - 5 * (((x0 * y0) * x3)) + 45 * (((x0 * x1) * y1)) + 45 * (((x0 * x1) * y2)) + 15 * (((x0 * x1) * y3)) - 3 * (((x0 * y1) * x3)) + 18 * (((x0 * x2) * y2)) + 12 * (((x0 * x2) * y3)) + 3 * (((x0 * y2) * x3)) + 5 * (((x0 * x3) * y3)) - 45 * (((y0 * x1) * x1)) - 45 * (((y0 * x1) * x2)) - 12 * (((y0 * x1) * x3)) - 18 * (((y0 * x2) * x2)) - 15 * (((y0 * x2) * x3)) - 5 * (((y0 * x3) * x3)) + 27 * (((x1 * x1) * y2)) + 18 * (((x1 * x1) * y3)) - 27 * (((x1 * y1) * x2)) - 18 * (((x1 * y1) * x3)) + 27 * (((x1 * x2) * y2)) + 45 * (((x1 * x2) * y3)) + 30 * (((x1 * x3) * y3)) - 27 * (((y1 * x2) * x2)) - 45 * (((y1 * x2) * x3)) - 30 * (((y1 * x3) * x3)) + 45 * (((x2 * x2) * y3)) - 45 * (((x2 * y2) * x3)) + 105 * (((x2 * x3) * y3)) - 105 * (((y2 * x3) * x3)) - 280 * (((x3 * x3) * y3))
}

#[verifier::rlimit(100)]
fn cubic_mx(
    x0: i64, y0: i64, x1: i64, y1: i64, x2: i64, y2: i64, x3: i64, y3: i64,
) -> (r: i128)
    requires
        -GREEN_COORD_LIMIT <= x0 <= GREEN_COORD_LIMIT && -GREEN_COORD_LIMIT <= y0 <= GREEN_COORD_LIMIT && -GREEN_COORD_LIMIT <= x1 <= GREEN_COORD_LIMIT && -GREEN_COORD_LIMIT <= y1 <= GREEN_COORD_LIMIT && -GREEN_COORD_LIMIT <= x2 <= GREEN_COORD_LIMIT && -GREEN_COORD_LIMIT <= y2 <= GREEN_COORD_LIMIT && -GREEN_COORD_LIMIT <= x3 <= GREEN_COORD_LIMIT && -GREEN_COORD_LIMIT <= y3 <= GREEN_COORD_LIMIT,
    ensures
        r == cubic_mx_s(x0 as int, y0 as int, x1 as int, y1 as int, x2 as int, y2 as int, x3 as int, y3 as int),
        -118197499985920 <= r <= 118197499985920,
{
    let t0: i128 = 280 * mul3(x0, x0, y0);
    let t1: i128 = 105 * mul3(x0, x0, y1);
    let t2: i128 = 30 * mul3(x0, x0, y2);
    let t3: i128 = 5 * mul3(x0, x0, y3);
    let t4: i128 = -105 * mul3(x0, y0, x1);
    let t5: i128 = -30 * mul3(x0, y0, x2);
    let t6: i128 = -5 * mul3(x0, y0, x3);
    let t7: i128 = 45 * mul3(x0, x1, y1);
    let t8: i128 = 45 * mul3(x0, x1, y2);
    let t9: i128 = 15 * mul3(x0, x1, y3);
    let t10: i128 = -3 * mul3(x0, y1, x3);
    let t11: i128 = 18 * mul3(x0, x2, y2);
    let t12: i128 = 12 * mul3(x0, x2, y3);
    let t13: i128 = 3 * mul3(x0, y2, x3);
    let t14: i128 = 5 * mul3(x0, x3, y3);
    let t15: i128 = -45 * mul3(y0, x1, x1);
    let t16: i128 = -45 * mul3(y0, x1, x2);
    let t17: i128 = -12 * mul3(y0, x1, x3);
    let t18: i128 = -18 * mul3(y0, x2, x2);
    let t19: i128 = -15 * mul3(y0, x2, x3);
    let t20: i128 = -5 * mul3(y0, x3, x3);
    let t21: i128 = 27 * mul3(x1, x1, y2);
    let t22: i128 = 18 * mul3(x1, x1, y3);
    let t23: i128 = -27 * mul3(x1, y1, x2);
    let t24: i128 = -18 * mul3(x1, y1, x3);
    let t25: i128 = 27 * mul3(x1, x2, y2);
    let t26: i128 = 45 * mul3(x1, x2, y3);
    let t27: i128 = 30 * mul3(x1, x3, y3);
    let t28: i128 = -27 * mul3(y1, x2, x2);
    let t29: i128 = -45 * mul3(y1, x2, x3);
    let t30: i128 = -30 * mul3(y1, x3, x3);
    let t31: i128 = 45 * mul3(x2, x2, y3);
    let t32: i128 = -45 * mul3(x2, y2, x3);
    let t33: i128 = 105 * mul3(x2, x3, y3);
    let t34: i128 = -105 * mul3(y2, x3, x3);
    let t35: i128 = -280 * mul3(x3, x3, y3);
    let s0: i128 = t0 + t1 + t2 + t3 + t4 + t5 + t6 + t7 + t8 + t9 + t10 + t11 + t12 + t13;
    proof {
        assert(s0 == 280 * (((x0 * x0) * y0)) + 105 * (((x0 * x0) * y1)) + 30 * (((x0 * x0) * y2)) + 5 * (((x0 * x0) * y3)) - 105 * (((x0 * y0) * x1)) - 30 * (((x0 * y0) * x2)) - 5 * (((x0 * y0) * x3)) + 45 * (((x0 * x1) * y1)) + 45 * (((x0 * x1) * y2)) + 15 * (((x0 * x1) * y3)) - 3 * (((x0 * y1) * x3)) + 18 * (((x0 * x2) * y2)) + 12 * (((x0 * x2) * y3)) + 3 * (((x0 * y2) * x3)));
    }
    let s1: i128 = t14 + t15 + t16 + t17 + t18 + t19 + t20 + t21 + t22 + t23 + t24 + t25 + t26 + t27;
    proof {
        assert(s1 == 5 * (((x0 * x3) * y3)) - 45 * (((y0 * x1) * x1)) - 45 * (((y0 * x1) * x2)) - 12 * (((y0 * x1) * x3)) - 18 * (((y0 * x2) * x2)) - 15 * (((y0 * x2) * x3)) - 5 * (((y0 * x3) * x3)) + 27 * (((x1 * x1) * y2)) + 18 * (((x1 * x1) * y3)) - 27 * (((x1 * y1) * x2)) - 18 * (((x1 * y1) * x3)) + 27 * (((x1 * x2) * y2)) + 45 * (((x1 * x2) * y3)) + 30 * (((x1 * x3) * y3)));
    }
    let s2: i128 = t28 + t29 + t30 + t31 + t32 + t33 + t34 + t35;
    proof {
        assert(s2 == -27 * (((y1 * x2) * x2)) - 45 * (((y1 * x2) * x3)) - 30 * (((y1 * x3) * x3)) + 45 * (((x2 * x2) * y3)) - 45 * (((x2 * y2) * x3)) + 105 * (((x2 * x3) * y3)) - 105 * (((y2 * x3) * x3)) - 280 * (((x3 * x3) * y3)));
    }
    s0 + s1 + s2
}

pub open spec fn cubic_my_s(x0: int, y0: int, x1: int, y1: int, x2: int, y2: int, x3: int, y3: int) -> int {
    140 * (((x0 * y0) * y0)) + 105 * (((x0 * y0) * y1)) + 30 * (((x0 * y0) * y2)) + 5 * (((x0 * y0) * y3)) + 45 * (((x0 * y1) * y1)) + 45 * (((x0 * y1) * y2)) + 12 * (((x0 * y1) * y3)) + 18 * (((x0 * y2) * y2)) + 15 * (((x0 * y2) * y3)) + 5 * (((x0 * y3) * y3)) - 105 * (((y0 * y0) * x1)) - 30 * (((y0 * y0) * x2)) - 5 * (((y0 * y0) * x3)) - 45 * (((y0 * x1) * y1)) + 3 * (((y0 * x1) * y3)) - 45 * (((y0 * y1) * x2)) - 15 * (((y0 * y1) * x3)) - 18 * (((y0 * x2) * y2)) - 3 * (((y0 * x2) * y3)) - 12 * (((y0 * y2) * x3)) - 5 * (((y0 * x3) * y3)) + 27 * (((x1 * y1) * y2)) + 18 * (((x1 * y1) * y3)) + 27 * (((x1 * y2) * y2)) + 45 * (((x1 * y2) * y3)) + 30 * (((x1 * y3) * y3)) - 27 * (((y1 * y1) * x2)) - 18 * (((y1 * y1) * x3)) - 27 * (((y1 * x2) * y2)) - 45 * (((y1 * y2) * x3)) - 30 * (((y1 * x3) * y3)) + 45 * (((x2 * y2) * y3)) + 105 * (((x2 * y3) * y3)) - 45 * (((y2 * y2) * x3)) - 105 * (((y2 * x3) * y3)) - 140 * (((x3 * y3) * y3))
}

#[verifier::rlimit(100)]
fn cubic_my(
    x0: i64, y0: i64, x1: i64, y1: i64, x2: i64, y2: i64, x3: i64, y3: i64,
) -> (r: i128)
    requires
        -GREEN_COORD_LIMIT <= x0 <= GREEN_COORD_LIMIT && -GREEN_COORD_LIMIT <= y0 <= GREEN_COORD_LIMIT && -GREEN_COORD_LIMIT <= x1 <= GREEN_COORD_LIMIT && -GREEN_COORD_LIMIT <= y1 <= GREEN_COORD_LIMIT && -GREEN_COORD_LIMIT <= x2 <= GREEN_COORD_LIMIT && -GREEN_COORD_LIMIT <= y2 <= GREEN_COORD_LIMIT && -GREEN_COORD_LIMIT <= x3 <= GREEN_COORD_LIMIT && -GREEN_COORD_LIMIT <= y3 <= GREEN_COORD_LIMIT,
    ensures
        r == cubic_my_s(x0 as int, y0 as int, x1 as int, y1 as int, x2 as int, y2 as int, x3 as int, y3 as int),
        -98956046499840 <= r <= 98956046499840,
{
    let t0: i128 = 140 * mul3(x0, y0, y0);
    let t1: i128 = 105 * mul3(x0, y0, y1);
    let t2: i128 = 30 * mul3(x0, y0, y2);
    let t3: i128 = 5 * mul3(x0, y0, y3);
    let t4: i128 = 45 * mul3(x0, y1, y1);
    let t5: i128 = 45 * mul3(x0, y1, y2);
    let t6: i128 = 12 * mul3(x0, y1, y3);
    let t7: i128 = 18 * mul3(x0, y2, y2);
    let t8: i128 = 15 * mul3(x0, y2, y3);
    let t9: i128 = 5 * mul3(x0, y3, y3);
    let t10: i128 = -105 * mul3(y0, y0, x1);
    let t11: i128 = -30 * mul3(y0, y0, x2);
    let t12: i128 = -5 * mul3(y0, y0, x3);
    let t13: i128 = -45 * mul3(y0, x1, y1);
    let t14: i128 = 3 * mul3(y0, x1, y3);
    let t15: i128 = -45 * mul3(y0, y1, x2);
    let t16: i128 = -15 * mul3(y0, y1, x3);
    let t17: i128 = -18 * mul3(y0, x2, y2);
    let t18: i128 = -3 * mul3(y0, x2, y3);
    let t19: i128 = -12 * mul3(y0, y2, x3);
    let t20: i128 = -5 * mul3(y0, x3, y3);
    let t21: i128 = 27 * mul3(x1, y1, y2);
    let t22: i128 = 18 * mul3(x1, y1, y3);
    let t23: i128 = 27 * mul3(x1, y2, y2);
    let t24: i128 = 45 * mul3(x1, y2, y3);
    let t25: i128 = 30 * mul3(x1, y3, y3);
    let t26: i128 = -27 * mul3(y1, y1, x2);
    let t27: i128 = -18 * mul3(y1, y1, x3);
    let t28: i128 = -27 * mul3(y1, x2, y2);
    let t29: i128 = -45 * mul3(y1, y2, x3);
    let t30: i128 = -30 * mul3(y1, x3, y3);
    let t31: i128 = 45 * mul3(x2, y2, y3);
    let t32: i128 = 105 * mul3(x2, y3, y3);
    let t33: i128 = -45 * mul3(y2, y2, x3);
    let t34: i128 = -105 * mul3(y2, x3, y3);
    let t35: i128 = -140 * mul3(x3, y3, y3);
    let s0: i128 = t0 + t1 + t2 + t3 + t4 + t5 + t6 + t7 + t8 + t9 + t10 + t11 + t12 + t13;
    proof {
        assert(s0 == 140 * (((x0 * y0) * y0)) + 105 * (((x0 * y0) * y1)) + 30 * (((x0 * y0) * y2)) + 5 * (((x0 * y0) * y3)) + 45 * (((x0 * y1) * y1)) + 45 * (((x0 * y1) * y2)) + 12 * (((x0 * y1) * y3)) + 18 * (((x0 * y2) * y2)) + 15 * (((x0 * y2) * y3)) + 5 * (((x0 * y3) * y3)) - 105 * (((y0 * y0) * x1)) - 30 * (((y0 * y0) * x2)) - 5 * (((y0 * y0) * x3)) - 45 * (((y0 * x1) * y1)));
    }
    let s1: i128 = t14 + t15 + t16 + t17 + t18 + t19 + t20 + t21 + t22 + t23 + t24 + t25 + t26 + t27;
    proof {
        assert(s1 == 3 * (((y0 * x1) * y3)) - 45 * (((y0 * y1) * x2)) - 15 * (((y0 * y1) * x3)) - 18 * (((y0 * x2) * y2)) - 3 * (((y0 * x2) * y3)) - 12 * (((y0 * y2) * x3)) - 5 * (((y0 * x3) * y3)) + 27 * (((x1 * y1) * y2)) + 18 * (((x1 * y1) * y3)) + 27 * (((x1 * y2) * y2)) + 45 * (((x1 * y2) * y3)) + 30 * (((x1 * y3) * y3)) - 27 * (((y1 * y1) * x2)) - 18 * (((y1 * y1) * x3)));
    }
    let s2: i128 = t28 + t29 + t30 + t31 + t32 + t33 + t34 + t35;
    proof {
        assert(s2 == -27 * (((y1 * x2) * y2)) - 45 * (((y1 * y2) * x3)) - 30 * (((y1 * x3) * y3)) + 45 * (((x2 * y2) * y3)) + 105 * (((x2 * y3) * y3)) - 45 * (((y2 * y2) * x3)) - 105 * (((y2 * x3) * y3)) - 140 * (((x3 * y3) * y3)));
    }
    s0 + s1 + s2
}

pub open spec fn cubic_mxx_s(x0: int, y0: int, x1: int, y1: int, x2: int, y2: int, x3: int, y3: int) -> int {
    2310 * ((((x0 * x0) * x0) * y0)) + 630 * ((((x0 * x0) * x0) * y1)) + 126 * ((((x0 * x0) * x0) * y2)) + 14 * ((((x0 * x0) * x0) * y3)) - 630 * ((((x0 * x0) * y0) * x1)) - 126 * ((((x0 * x0) * y0) * x2)) - 14 * ((((x0 * x0) * y0) * x3)) + 378 * ((((x0 * x0) * x1) * y1)) + 210 * ((((x0 * x0) * x1) * y2)) + 42 * ((((x0 * x0) * x1) * y3)) + 42 * ((((x0 * x0) * y1) * x2)) + 63 * ((((x0 * x0) * x2) * y2)) + 21 * ((((x0 * x0) * x2) * y3)) + 9 * ((((x0 * x0) * y2) * x3)) + 5 * ((((x0 * x0) * x3) * y3)) - 378 * ((((x0 * y0) * x1) * x1)) - 252 * ((((x0 * y0) * x1) * x2)) - 42 * ((((x0 * y0) * x1) * x3)) - 63 * ((((x0 * y0) * x2) * x2)) - 30 * ((((x0 * y0) * x2) * x3)) - 5 * ((((x0 * y0) * x3) * x3)) + 126 * ((((x0 * x1) * x1) * y1)) + 189 * ((((x0 * x1) * x1) * y2)) + 63 * ((((x0 * x1) * x1) * y3)) - 18 * ((((x0 * x1) * y1) * x3)) + 162 * ((((x0 * x1) * x2) * y2)) + 90 * ((((x0 * x1) * x2) * y3)) + 30 * ((((x0 * x1) * y2) * x3)) + 30 * ((((x0 * x1) * x3) * y3)) - 27 * ((((x0 * y1) * x2) * x2)) - 30 * ((((x0 * y1) * x2) * x3)) - 9 * ((((x0 * y1) * x3) * x3)) + 45 * ((((x0 * x2) * x2) * y2)) + 45 * ((((x0 * x2) * x2) * y3)) + 18 * ((((x0 * x2) * y2) * x3)) + 42 * ((((x0 * x2) * x3) * y3)) + 14 * ((((x0 * x3) * x3) * y3)) - 126 * ((((y0 * x1) * x1) * x1)) - 189 * ((((y0 * x1) * x1) * x2)) - 45 * ((((y0 * x1) * x1) * x3)) - 135 * ((((y0 * x1) * x2) * x2)) - 90 * ((((y0 * x1) * x2) * x3)) - 21 * ((((y0 * x1) * x3) * x3)) - 45 * ((((y0 * x2) * x2) * x2)) - 63 * ((((y0 * x2) * x2) * x3)) - 42 * ((((y0 * x2) * x3) * x3)) - 14 * ((((y0 * x3) * x3) * x3)) + 81 * ((((x1 * x1) * x1) * y2)) + 45 * ((((x1 * x1) * x1) * y3)) - 81 * ((((x1 * x1) * y1) * x2)) - 45 * ((((x1 * x1) * y1) * x3)) + 135 * ((((x1 * x1) * x2) * y2)) + 135 * ((((x1 * x1) * x2) * y3)) + 27 * ((((x1 * x1) * y2) * x3)) + 63 * ((((x1 * x1) * x3) * y3)) - 135 * ((((x1 * y1) * x2) * x2)) - 162 * ((((x1 * y1) * x2) * x3)) - 63 * ((((x1 * y1) * x3) * x3)) + 81 * ((((x1 * x2) * x2) * y2)) + 189 * ((((x1 * x2) * x2) * y3)) + 252 * ((((x1 * x2) * x3) * y3)) - 42 * ((((x1 * y2) * x3) * x3)) + 126 * ((((x1 * x3) * x3) * y3)) - 81 * ((((y1 * x2) * x2) * x2)) - 189 * ((((y1 * x2) * x2) * x3)) - 210 * ((((y1 * x2) * x3) * x3)) - 126 * ((((y1 * x3) * x3) * x3)) + 126 * ((((x2 * x2) * x2) * y3)) - 126 * ((((x2 * x2) * y2) * x3)) + 378 * ((((x2 * x2) * x3) * y3)) - 378 * ((((x2 * y2) * x3) * x3)) + 630 * ((((x2 * x3) * x3) * y3)) - 630 * ((((y2 * x3) * x3) * x3)) - 2310 * ((((x3 * x3) * x3) * y3))
}

#[verifier::rlimit(100)]
fn cubic_mxx(
    x0: i64, y0: i64, x1: i64, y1: i64, x2: i64, y2: i64, x3: i64, y3: i64,
) -> (r: i128)
    requires
        -GREEN_COORD_LIMIT <= x0 <= GREEN_COORD_LIMIT && -GREEN_COORD_LIMIT <= y0 <= GREEN_COORD_LIMIT && -GREEN_COORD_LIMIT <= x1 <= GREEN_COORD_LIMIT && -GREEN_COORD_LIMIT <= y1 <= GREEN_COORD_LIMIT && -GREEN_COORD_LIMIT <= x2 <= GREEN_COORD_LIMIT && -GREEN_COORD_LIMIT <= y2 <= GREEN_COORD_LIMIT && -GREEN_COORD_LIMIT <= x3 <= GREEN_COORD_LIMIT && -GREEN_COORD_LIMIT <= y3 <= GREEN_COORD_LIMIT,
    ensures
        r == cubic_mxx_s(x0 as int, y0 as int, x1 as int, y1 as int, x2 as int, y2 as int, x3 as int, y3 as int),
        -3924887075253387264 <= r <= 3924887075253387264,
{
    let t0: i128 = 2310 * mul4(x0, x0, x0, y0);
    let t1: i128 = 630 * mul4(x0, x0, x0, y1);
    let t2: i128 = 126 * mul4(x0, x0, x0, y2);
    let t3: i128 = 14 * mul4(x0, x0, x0, y3);
    let t4: i128 = -630 * mul4(x0, x0, y0, x1);
    let t5: i128 = -126 * mul4(x0, x0, y0, x2);
    let t6: i128 = -14 * mul4(x0, x0, y0, x3);
    let t7: i128 = 378 * mul4(x0, x0, x1, y1);
    let t8: i128 = 210 * mul4(x0, x0, x1, y2);
    let t9: i128 = 42 * mul4(x0, x0, x1, y3);
    let t10: i128 = 42 * mul4(x0, x0, y1, x2);
    let t11: i128 = 63 * mul4(x0, x0, x2, y2);
    let t12: i128 = 21 * mul4(x0, x0, x2, y3);
    let t13: i128 = 9 * mul4(x0, x0, y2, x3);
    let t14: i128 = 5 * mul4(x0, x0, x3, y3);
    let t15: i128 = -378 * mul4(x0, y0, x1, x1);
    let t16: i128 = -252 * mul4(x0, y0, x1, x2);
    let t17: i128 = -42 * mul4(x0, y0, x1, x3);
    let t18: i128 = -63 * mul4(x0, y0, x2, x2);
    let t19: i128 = -30 * mul4(x0, y0, x2, x3);
    let t20: i128 = -5 * mul4(x0, y0, x3, x3);
    let t21: i128 = 126 * mul4(x0, x1, x1, y1);
    let t22: i128 = 189 * mul4(x0, x1, x1, y2);
    let t23: i128 = 63 * mul4(x0, x1, x1, y3);
    let t24: i128 = -18 * mul4(x0, x1, y1, x3);
    let t25: i128 = 162 * mul4(x0, x1, x2, y2);
    let t26: i128 = 90 * mul4(x0, x1, x2, y3);
    let t27: i128 = 30 * mul4(x0, x1, y2, x3);
    let t28: i128 = 30 * mul4(x0, x1, x3, y3);
    let t29: i128 = -27 * mul4(x0, y1, x2, x2);
    let t30: i128 = -30 * mul4(x0, y1, x2, x3);
    let t31: i128 = -9 * mul4(x0, y1, x3, x3);
    let t32: i128 = 45 * mul4(x0, x2, x2, y2);
    let t33: i128 = 45 * mul4(x0, x2, x2, y3);
    let t34: i128 = 18 * mul4(x0, x2, y2, x3);
    let t35: i128 = 42 * mul4(x0, x2, x3, y3);
    let t36: i128 = 14 * mul4(x0, x3, x3, y3);
    let t37: i128 = -126 * mul4(y0, x1, x1, x1);
    let t38: i128 = -189 * mul4(y0, x1, x1, x2);
    let t39: i128 = -45 * mul4(y0, x1, x1, x3);
    let t40: i128 = -135 * mul4(y0, x1, x2, x2);
    let t41: i128 = -90 * mul4(y0, x1, x2, x3);
    let t42: i128 = -21 * mul4(y0, x1, x3, x3);
    let t43: i128 = -45 * mul4(y0, x2, x2, x2);
    let t44: i128 = -63 * mul4(y0, x2, x2, x3);
    let t45: i128 = -42 * mul4(y0, x2, x3, x3);
    let t46: i128 = -14 * mul4(y0, x3, x3, x3);
    let t47: i128 = 81 * mul4(x1, x1, x1, y2);
    let t48: i128 = 45 * mul4(x1, x1, x1, y3);
    let t49: i128 = -81 * mul4(x1, x1, y1, x2);
    let t50: i128 = -45 * mul4(x1, x1, y1, x3);
    let t51: i128 = 135 * mul4(x1, x1, x2, y2);
    let t52: i128 = 135 * mul4(x1, x1, x2, y3);
    let t53: i128 = 27 * mul4(x1, x1, y2, x3);
    let t54: i128 = 63 * mul4(x1, x1, x3, y3);
    let t55: i128 = -135 * mul4(x1, y1, x2, x2);
    let t56: i128 = -162 * mul4(x1, y1, x2, x3);
    let t57: i128 = -63 * mul4(x1, y1, x3, x3);
    let t58: i128 = 81 * mul4(x1, x2, x2, y2);
    let t59: i128 = 189 * mul4(x1, x2, x2, y3);
    let t60: i128 = 252 * mul4(x1, x2, x3, y3);
    let t61: i128 = -42 * mul4(x1, y2, x3, x3);
    let t62: i128 = 126 * mul4(x1, x3, x3, y3);
    let t63: i128 = -81 * mul4(y1, x2, x2, x2);
    let t64: i128 = -189 * mul4(y1, x2, x2, x3);
    let t65: i128 = -210 * mul4(y1, x2, x3, x3);
    let t66: i128 = -126 * mul4(y1, x3, x3, x3);
    let t67: i128 = 126 * mul4(x2, x2, x2, y3);
    let t68: i128 = -126 * mul4(x2, x2, y2, x3);
    let t69: i128 = 378 * mul4(x2, x2, x3, y3);
    let t70: i128 = -378 * mul4(x2, y2, x3, x3);
    let t71: i128 = 630 * mul4(x2, x3, x3, y3);
    let t72: i128 = -630 * mul4(y2, x3, x3, x3);
    let t73: i128 = -2310 * mul4(x3, x3, x3, y3);
    let s0: i128 = t0 + t1 + t2 + t3 + t4 + t5 + t6 + t7 + t8 + t9 + t10 + t11 + t12 + t13;
    proof {
        assert(s0 == 2310 * ((((x0 * x0) * x0) * y0)) + 630 * ((((x0 * x0) * x0) * y1)) + 126 * ((((x0 * x0) * x0) * y2)) + 14 * ((((x0 * x0) * x0) * y3)) - 630 * ((((x0 * x0) * y0) * x1)) - 126 * ((((x0 * x0) * y0) * x2)) - 14 * ((((x0 * x0) * y0) * x3)) + 378 * ((((x0 * x0) * x1) * y1)) + 210 * ((((x0 * x0) * x1) * y2)) + 42 * ((((x0 * x0) * x1) * y3)) + 42 * ((((x0 * x0) * y1) * x2)) + 63 * ((((x0 * x0) * x2) * y2)) + 21 * ((((x0 * x0) * x2) * y3)) + 9 * ((((x0 * x0) * y2) * x3)));
    }
    let s1: i128 = t14 + t15 + t16 + t17 + t18 + t19 + t20 + t21 + t22 + t23 + t24 + t25 + t26 + t27;
    proof {
        assert(s1 == 5 * ((((x0 * x0) * x3) * y3)) - 378 * ((((x0 * y0) * x1) * x1)) - 252 * ((((x0 * y0) * x1) * x2)) - 42 * ((((x0 * y0) * x1) * x3)) - 63 * ((((x0 * y0) * x2) * x2)) - 30 * ((((x0 * y0) * x2) * x3)) - 5 * ((((x0 * y0) * x3) * x3)) + 126 * ((((x0 * x1) * x1) * y1)) + 189 * ((((x0 * x1) * x1) * y2)) + 63 * ((((x0 * x1) * x1) * y3)) - 18 * ((((x0 * x1) * y1) * x3)) + 162 * ((((x0 * x1) * x2) * y2)) + 90 * ((((x0 * x1) * x2) * y3)) + 30 * ((((x0 * x1) * y2) * x3)));
    }
    let s2: i128 = t28 + t29 + t30 + t31 + t32 + t33 + t34 + t35 + t36 + t37 + t38 + t39 + t40 + t41;
    proof {
        assert(s2 == 30 * ((((x0 * x1) * x3) * y3)) - 27 * ((((x0 * y1) * x2) * x2)) - 30 * ((((x0 * y1) * x2) * x3)) - 9 * ((((x0 * y1) * x3) * x3)) + 45 * ((((x0 * x2) * x2) * y2)) + 45 * ((((x0 * x2) * x2) * y3)) + 18 * ((((x0 * x2) * y2) * x3)) + 42 * ((((x0 * x2) * x3) * y3)) + 14 * ((((x0 * x3) * x3) * y3)) - 126 * ((((y0 * x1) * x1) * x1)) - 189 * ((((y0 * x1) * x1) * x2)) - 45 * ((((y0 * x1) * x1) * x3)) - 135 * ((((y0 * x1) * x2) * x2)) - 90 * ((((y0 * x1) * x2) * x3)));
    }
    let s3: i128 = t42 + t43 + t44 + t45 + t46 + t47 + t48 + t49 + t50 + t51 + t52 + t53 + t54 + t55;
    proof {
        assert(s3 == -21 * ((((y0 * x1) * x3) * x3)) - 45 * ((((y0 * x2) * x2) * x2)) - 63 * ((((y0 * x2) * x2) * x3)) - 42 * ((((y0 * x2) * x3) * x3)) - 14 * ((((y0 * x3) * x3) * x3)) + 81 * ((((x1 * x1) * x1) * y2)) + 45 * ((((x1 * x1) * x1) * y3)) - 81 * ((((x1 * x1) * y1) * x2)) - 45 * ((((x1 * x1) * y1) * x3)) + 135 * ((((x1 * x1) * x2) * y2)) + 135 * ((((x1 * x1) * x2) * y3)) + 27 * ((((x1 * x1) * y2) * x3)) + 63 * ((((x1 * x1) * x3) * y3)) - 135 * ((((x1 * y1) * x2) * x2)));
    }
    let s4: i128 = t56 + t57 + t58 + t59 + t60 + t61 + t62 + t63 + t64 + t65 + t66 + t67 + t68 + t69;
    proof {
        assert(s4 == -162 * ((((x1 * y1) * x2) * x3)) - 63 * ((((x1 * y1) * x3) * x3)) + 81 * ((((x1 * x2) * x2) * y2)) + 189 * ((((x1 * x2) * x2) * y3)) + 252 * ((((x1 * x2) * x3) * y3)) - 42 * ((((x1 * y2) * x3) * x3)) + 126 * ((((x1 * x3) * x3) * y3)) - 81 * ((((y1 * x2) * x2) * x2)) - 189 * ((((y1 * x2) * x2) * x3)) - 210 * ((((y1 * x2) * x3) * x3)) - 126 * ((((y1 * x3) * x3) * x3)) + 126 * ((((x2 * x2) * x2) * y3)) - 126 * ((((x2 * x2) * y2) * x3)) + 378 * ((((x2 * x2) * x3) * y3)));
    }
    let s5: i128 = t70 + t71 + t72 + t73;
    proof {
        assert(s5 == -378 * ((((x2 * y2) * x3) * x3)) + 630 * ((((x2 * x3) * x3) * y3)) - 630 * ((((y2 * x3) * x3) * x3)) - 2310 * ((((x3 * x3) * x3) * y3)));
    }
    s0 + s1 + s2 + s3 + s4 + s5
}

pub open spec fn cubic_mxy_s(x0: int, y0: int, x1: int, y1: int, x2: int, y2: int, x3: int, y3: int) -> int {
    2310 * ((((x0 * x0) * y0) * y0)) + 1260 * ((((x0 * x0) * y0) * y1)) + 252 * ((((x0 * x0) * y0) * y2)) + 28 * ((((x0 * x0) * y0) * y3)) + 378 * ((((x0 * x0) * y1) * y1)) + 252 * ((((x0 * x0) * y1) * y2)) + 42 * ((((x0 * x0) * y1) * y3)) + 63 * ((((x0 * x0) * y2) * y2)) + 30 * ((((x0 * x0) * y2) * y3)) + 5 * ((((x0 * x0) * y3) * y3)) - 1260 * ((((x0 * y0) * y0) * x1)) - 252 * ((((x0 * y0) * y0) * x2)) - 28 * ((((x0 * y0) * y0) * x3)) + 168 * ((((x0 * y0) * x1) * y2)) + 42 * ((((x0 * y0) * x1) * y3)) - 168 * ((((x0 * y0) * y1) * x2)) - 42 * ((((x0 * y0) * y1) * x3)) + 12 * ((((x0 * y0) * x2) * y3)) - 12 * ((((x0 * y0) * y2) * x3)) + 252 * ((((x0 * x1) * y1) * y1)) + 378 * ((((x0 * x1) * y1) * y2)) + 108 * ((((x0 * x1) * y1) * y3)) + 162 * ((((x0 * x1) * y2) * y2)) + 120 * ((((x0 * x1) * y2) * y3)) + 30 * ((((x0 * x1) * y3) * y3)) - 18 * ((((x0 * y1) * y1) * x3)) + 108 * ((((x0 * y1) * x2) * y2)) + 60 * ((((x0 * y1) * x2) * y3)) + 12 * ((((x0 * y1) * x3) * y3)) + 90 * ((((x0 * x2) * y2) * y2)) + 108 * ((((x0 * x2) * y2) * y3)) + 42 * ((((x0 * x2) * y3) * y3)) + 18 * ((((x0 * y2) * y2) * x3)) + 42 * ((((x0 * y2) * x3) * y3)) + 28 * ((((x0 * x3) * y3) * y3)) - 378 * ((((y0 * y0) * x1) * x1)) - 252 * ((((y0 * y0) * x1) * x2)) - 42 * ((((y0 * y0) * x1) * x3)) - 63 * ((((y0 * y0) * x2) * x2)) - 30 * ((((y0 * y0) * x2) * x3)) - 5 * ((((y0 * y0) * x3) * x3)) - 252 * ((((y0 * x1) * x1) * y1)) + 18 * ((((y0 * x1) * x1) * y3)) - 378 * ((((y0 * x1) * y1) * x2)) - 108 * ((((y0 * x1) * y1) * x3)) - 108 * ((((y0 * x1) * x2) * y2)) - 60 * ((((y0 * x1) * y2) * x3)) - 12 * ((((y0 * x1) * x3) * y3)) - 162 * ((((y0 * y1) * x2) * x2)) - 120 * ((((y0 * y1) * x2) * x3)) - 30 * ((((y0 * y1) * x3) * x3)) - 90 * ((((y0 * x2) * x2) * y2)) - 18 * ((((y0 * x2) * x2) * y3)) - 108 * ((((y0 * x2) * y2) * x3)) - 42 * ((((y0 * x2) * x3) * y3)) - 42 * ((((y0 * y2) * x3) * x3)) - 28 * ((((y0 * x3) * x3) * y3)) + 162 * ((((x1 * x1) * y1) * y2)) + 90 * ((((x1 * x1) * y1) * y3)) + 135 * ((((x1 * x1) * y2) * y2)) + 162 * ((((x1 * x1) * y2) * y3)) + 63 * ((((x1 * x1) * y3) * y3)) - 162 * ((((x1 * y1) * y1) * x2)) - 90 * ((((x1 * y1) * y1) * x3)) + 108 * ((((x1 * y1) * x2) * y3)) - 108 * ((((x1 * y1) * y2) * x3)) + 162 * ((((x1 * x2) * y2) * y2)) + 378 * ((((x1 * x2) * y2) * y3)) + 252 * ((((x1 * x2) * y3) * y3)) + 168 * ((((x1 * y2) * x3) * y3)) + 252 * ((((x1 * x3) * y3) * y3)) - 135 * ((((y1 * y1) * x2) * x2)) - 162 * ((((y1 * y1) * x2) * x3)) - 63 * ((((y1 * y1) * x3) * x3)) - 162 * ((((y1 * x2) * x2) * y2)) - 378 * ((((y1 * x2) * y2) * x3)) - 168 * ((((y1 * x2) * x3) * y3)) - 252 * ((((y1 * y2) * x3) * x3)) - 252 * ((((y1 * x3) * x3) * y3)) + 252 * ((((x2 * x2) * y2) * y3)) + 378 * ((((x2 * x2) * y3) * y3)) - 252 * ((((x2 * y2) * y2) * x3)) + 1260 * ((((x2 * x3) * y3) * y3)) - 378 * ((((y2 * y2) * x3) * x3)) - 1260 * ((((y2 * x3) * x3) * y3)) - 2310 * ((((x3 * x3) * y3) * y3))
}

#[verifier::rlimit(100)]
fn cubic_mxy(
    x0: i64, y0: i64, x1: i64, y1: i64, x2: i64, y2: i64, x3: i64, y3: i64,
) -> (r: i128)
    requires
        -GREEN_COORD_LIMIT <= x0 <= GREEN_COORD_LIMIT && -GREEN_COORD_LIMIT <= y0 <= GREEN_COORD_LIMIT && -GREEN_COORD_LIMIT <= x1 <= GREEN_COORD_LIMIT && -GREEN_COORD_LIMIT <= y1 <= GREEN_COORD_LIMIT && -GREEN_COORD_LIMIT <= x2 <= GREEN_COORD_LIMIT && -GREEN_COORD_LIMIT <= y2 <= GREEN_COORD_LIMIT && -GREEN_COORD_LIMIT <= x3 <= GREEN_COORD_LIMIT && -GREEN_COORD_LIMIT <= y3 <= GREEN_COORD_LIMIT,
    ensures
        r == cubic_mxy_s(x0 as int, y0 as int, x1 as int, y1 as int, x2 as int, y2 as int, x3 as int, y3 as int),
        -5764607523034234880 <= r <= 5764607523034234880,
{
    let t0: i128 = 2310 * mul4(x0, x0, y0, y0);
    let t1: i128 = 1260 * mul4(x0, x0, y0, y1);
    let t2: i128 = 252 * mul4(x0, x0, y0, y2);
    let t3: i128 = 28 * mul4(x0, x0, y0, y3);
    let t4: i128 = 378 * mul4(x0, x0, y1, y1);
    let t5: i128 = 252 * mul4(x0, x0, y1, y2);
    let t6: i128 = 42 * mul4(x0, x0, y1, y3);
    let t7: i128 = 63 * mul4(x0, x0, y2, y2);
    let t8: i128 = 30 * mul4(x0, x0, y2, y3);
    let t9: i128 = 5 * mul4(x0, x0, y3, y3);
    let t10: i128 = -1260 * mul4(x0, y0, y0, x1);
    let t11: i128 = -252 * mul4(x0, y0, y0, x2);
    let t12: i128 = -28 * mul4(x0, y0, y0, x3);
    let t13: i128 = 168 * mul4(x0, y0, x1, y2);
    let t14: i128 = 42 * mul4(x0, y0, x1, y3);
    let t15: i128 = -168 * mul4(x0, y0, y1, x2);
    let t16: i128 = -42 * mul4(x0, y0, y1, x3);
    let t17: i128 = 12 * mul4(x0, y0, x2, y3);
    let t18: i128 = -12 * mul4(x0, y0, y2, x3);
    let t19: i128 = 252 * mul4(x0, x1, y1, y1);
    let t20: i128 = 378 * mul4(x0, x1, y1, y2);
    let t21: i128 = 108 * mul4(x0, x1, y1, y3);
    let t22: i128 = 162 * mul4(x0, x1, y2, y2);
    let t23: i128 = 120 * mul4(x0, x1, y2, y3);
    let t24: i128 = 30 * mul4(x0, x1, y3, y3);
    let t25: i128 = -18 * mul4(x0, y1, y1, x3);
    let t26: i128 = 108 * mul4(x0, y1, x2, y2);
    let t27: i128 = 60 * mul4(x0, y1, x2, y3);
    let t28: i128 = 12 * mul4(x0, y1, x3, y3);
    let t29: i128 = 90 * mul4(x0, x2, y2, y2);
    let t30: i128 = 108 * mul4(x0, x2, y2, y3);
    let t31: i128 = 42 * mul4(x0, x2, y3, y3);
    let t32: i128 = 18 * mul4(x0, y2, y2, x3);
    let t33: i128 = 42 * mul4(x0, y2, x3, y3);
    let t34: i128 = 28 * mul4(x0, x3, y3, y3);
    let t35: i128 = -378 * mul4(y0, y0, x1, x1);
    let t36: i128 = -252 * mul4(y0, y0, x1, x2);
    let t37: i128 = -42 * mul4(y0, y0, x1, x3);
    let t38: i128 = -63 * mul4(y0, y0, x2, x2);
    let t39: i128 = -30 * mul4(y0, y0, x2, x3);
    let t40: i128 = -5 * mul4(y0, y0, x3, x3);
    let t41: i128 = -252 * mul4(y0, x1, x1, y1);
    let t42: i128 = 18 * mul4(y0, x1, x1, y3);
    let t43: i128 = -378 * mul4(y0, x1, y1, x2);
    let t44: i128 = -108 * mul4(y0, x1, y1, x3);
    let t45: i128 = -108 * mul4(y0, x1, x2, y2);
    let t46: i128 = -60 * mul4(y0, x1, y2, x3);
    let t47: i128 = -12 * mul4(y0, x1, x3, y3);
    let t48: i128 = -162 * mul4(y0, y1, x2, x2);
    let t49: i128 = -120 * mul4(y0, y1, x2, x3);
    let t50: i128 = -30 * mul4(y0, y1, x3, x3);
    let t51: i128 = -90 * mul4(y0, x2, x2, y2);
    let t52: i128 = -18 * mul4(y0, x2, x2, y3);
    let t53: i128 = -108 * mul4(y0, x2, y2, x3);
    let t54: i128 = -42 * mul4(y0, x2, x3, y3);
    let t55: i128 = -42 * mul4(y0, y2, x3, x3);
    let t56: i128 = -28 * mul4(y0, x3, x3, y3);
    let t57: i128 = 162 * mul4(x1, x1, y1, y2);
    let t58: i128 = 90 * mul4(x1, x1, y1, y3);
    let t59: i128 = 135 * mul4(x1, x1, y2, y2);
    let t60: i128 = 162 * mul4(x1, x1, y2, y3);
    let t61: i128 = 63 * mul4(x1, x1, y3, y3);
    let t62: i128 = -162 * mul4(x1, y1, y1, x2);
    let t63: i128 = -90 * mul4(x1, y1, y1, x3);
    let t64: i128 = 108 * mul4(x1, y1, x2, y3);
    let t65: i128 = -108 * mul4(x1, y1, y2, x3);
    let t66: i128 = 162 * mul4(x1, x2, y2, y2);
    let t67: i128 = 378 * mul4(x1, x2, y2, y3);
    let t68: i128 = 252 * mul4(x1, x2, y3, y3);
    let t69: i128 = 168 * mul4(x1, y2, x3, y3);
    let t70: i128 = 252 * mul4(x1, x3, y3, y3);
    let t71: i128 = -135 * mul4(y1, y1, x2, x2);
    let t72: i128 = -162 * mul4(y1, y1, x2, x3);
    let t73: i128 = -63 * mul4(y1, y1, x3, x3);
    let t74: i128 = -162 * mul4(y1, x2, x2, y2);
    let t75: i128 = -378 * mul4(y1, x2, y2, x3);
    let t76: i128 = -168 * mul4(y1, x2, x3, y3);
    let t77: i128 = -252 * mul4(y1, y2, x3, x3);
    let t78: i128 = -252 * mul4(y1, x3, x3, y3);
    let t79: i128 = 252 * mul4(x2, x2, y2, y3);
    let t80: i128 = 378 * mul4(x2, x2, y3, y3);
    let t81: i128 = -252 * mul4(x2, y2, y2, x3);
    let t82: i128 = 1260 * mul4(x2, x3, y3, y3);
    let t83: i128 = -378 * mul4(y2, y2, x3, x3);
    let t84: i128 = -1260 * mul4(y2, x3, x3, y3);
    let t85: i128 = -2310 * mul4(x3, x3, y3, y3);
    let s0: i128 = t0 + t1 + t2 + t3 + t4 + t5 + t6 + t7 + t8 + t9 + t10 + t11 + t12 + t13;
    proof {
        assert(s0 == 2310 * ((((x0 * x0) * y0) * y0)) + 1260 * ((((x0 * x0) * y0) * y1)) + 252 * ((((x0 * x0) * y0) * y2)) + 28 * ((((x0 * x0) * y0) * y3)) + 378 * ((((x0 * x0) * y1) * y1)) + 252 * ((((x0 * x0) * y1) * y2)) + 42 * ((((x0 * x0) * y1) * y3)) + 63 * ((((x0 * x0) * y2) * y2)) + 30 * ((((x0 * x0) * y2) * y3)) + 5 * ((((x0 * x0) * y3) * y3)) - 1260 * ((((x0 * y0) * y0) * x1)) - 252 * ((((x0 * y0) * y0) * x2)) - 28 * ((((x0 * y0) * y0) * x3)) + 168 * ((((x0 * y0) * x1) * y2)));
    }
    let s1: i128 = t14 + t15 + t16 + t17 + t18 + t19 + t20 + t21 + t22 + t23 + t24 + t25 + t26 + t27;
    proof {
        assert(s1 == 42 * ((((x0 * y0) * x1) * y3)) - 168 * ((((x0 * y0) * y1) * x2)) - 42 * ((((x0 * y0) * y1) * x3)) + 12 * ((((x0 * y0) * x2) * y3)) - 12 * ((((x0 * y0) * y2) * x3)) + 252 * ((((x0 * x1) * y1) * y1)) + 378 * ((((x0 * x1) * y1) * y2)) + 108 * ((((x0 * x1) * y1) * y3)) + 162 * ((((x0 * x1) * y2) * y2)) + 120 * ((((x0 * x1) * y2) * y3)) + 30 * ((((x0 * x1) * y3) * y3)) - 18 * ((((x0 * y1) * y1) * x3)) + 108 * ((((x0 * y1) * x2) * y2)) + 60 * ((((x0 * y1) * x2) * y3)));
    }
    let s2: i128 = t28 + t29 + t30 + t31 + t32 + t33 + t34 + t35 + t36 + t37 + t38 + t39 + t40 + t41;
    proof {
        assert(s2 == 12 * ((((x0 * y1) * x3) * y3)) + 90 * ((((x0 * x2) * y2) * y2)) + 108 * ((((x0 * x2) * y2) * y3)) + 42 * ((((x0 * x2) * y3) * y3)) + 18 * ((((x0 * y2) * y2) * x3)) + 42 * ((((x0 * y2) * x3) * y3)) + 28 * ((((x0 * x3) * y3) * y3)) - 378 * ((((y0 * y0) * x1) * x1)) - 252 * ((((y0 * y0) * x1) * x2)) - 42 * ((((y0 * y0) * x1) * x3)) - 63 * ((((y0 * y0) * x2) * x2)) - 30 * ((((y0 * y0) * x2) * x3)) - 5 * ((((y0 * y0) * x3) * x3)) - 252 * ((((y0 * x1) * x1) * y1)));
    }
    let s3: i128 = t42 + t43 + t44 + t45 + t46 + t47 + t48 + t49 + t50 + t51 + t52 + t53 + t54 + t55;
    proof {
        assert(s3 == 18 * ((((y0 * x1) * x1) * y3)) - 378 * ((((y0 * x1) * y1) * x2)) - 108 * ((((y0 * x1) * y1) * x3)) - 108 * ((((y0 * x1) * x2) * y2)) - 60 * ((((y0 * x1) * y2) * x3)) - 12 * ((((y0 * x1) * x3) * y3)) - 162 * ((((y0 * y1) * x2) * x2)) - 120 * ((((y0 * y1) * x2) * x3)) - 30 * ((((y0 * y1) * x3) * x3)) - 90 * ((((y0 * x2) * x2) * y2)) - 18 * ((((y0 * x2) * x2) * y3)) - 108 * ((((y0 * x2) * y2) * x3)) - 42 * ((((y0 * x2) * x3) * y3)) - 42 * ((((y0 * y2) * x3) * x3)));
    }
    let s4: i128 = t56 + t57 + t58 + t59 + t60 + t61 + t62 + t63 + t64 + t65 + t66 + t67 + t68 + t69;
    proof {
        assert(s4 == -28 * ((((y0 * x3) * x3) * y3)) + 162 * ((((x1 * x1) * y1) * y2)) + 90 * ((((x1 * x1) * y1) * y3)) + 135 * ((((x1 * x1) * y2) * y2)) + 162 * ((((x1 * x1) * y2) * y3)) + 63 * ((((x1 * x1) * y3) * y3)) - 162 * ((((x1 * y1) * y1) * x2)) - 90 * ((((x1 * y1) * y1) * x3)) + 108 * ((((x1 * y1) * x2) * y3)) - 108 * ((((x1 * y1) * y2) * x3)) + 162 * ((((x1 * x2) * y2) * y2)) + 378 * ((((x1 * x2) * y2) * y3)) + 252 * ((((x1 * x2) * y3) * y3)) + 168 * ((((x1 * y2) * x3) * y3)));
    }
    let s5: i128 = t70 + t71 + t72 + t73 + t74 + t75 + t76 + t77 + t78 + t79 + t80 + t81 + t82 + t83;
    proof {
        assert(s5 == 252 * ((((x1 * x3) * y3) * y3)) - 135 * ((((y1 * y1) * x2) * x2)) - 162 * ((((y1 * y1) * x2) * x3)) - 63 * ((((y1 * y1) * x3) * x3)) - 162 * ((((y1 * x2) * x2) * y2)) - 378 * ((((y1 * x2) * y2) * x3)) - 168 * ((((y1 * x2) * x3) * y3)) - 252 * ((((y1 * y2) * x3) * x3)) - 252 * ((((y1 * x3) * x3) * y3)) + 252 * ((((x2 * x2) * y2) * y3)) + 378 * ((((x2 * x2) * y3) * y3)) - 252 * ((((x2 * y2) * y2) * x3)) + 1260 * ((((x2 * x3) * y3) * y3)) - 378 * ((((y2 * y2) * x3) * x3)));
    }
    let s6: i128 = t84 + t85;
    proof {
        assert(s6 == -1260 * ((((y2 * x3) * x3) * y3)) - 2310 * ((((x3 * x3) * y3) * y3)));
    }
    s0 + s1 + s2 + s3 + s4 + s5 + s6
}

pub open spec fn cubic_myy_s(x0: int, y0: int, x1: int, y1: int, x2: int, y2: int, x3: int, y3: int) -> int {
    770 * ((((x0 * y0) * y0) * y0)) + 630 * ((((x0 * y0) * y0) * y1)) + 126 * ((((x0 * y0) * y0) * y2)) + 14 * ((((x0 * y0) * y0) * y3)) + 378 * ((((x0 * y0) * y1) * y1)) + 252 * ((((x0 * y0) * y1) * y2)) + 42 * ((((x0 * y0) * y1) * y3)) + 63 * ((((x0 * y0) * y2) * y2)) + 30 * ((((x0 * y0) * y2) * y3)) + 5 * ((((x0 * y0) * y3) * y3)) + 126 * ((((x0 * y1) * y1) * y1)) + 189 * ((((x0 * y1) * y1) * y2)) + 45 * ((((x0 * y1) * y1) * y3)) + 135 * ((((x0 * y1) * y2) * y2)) + 90 * ((((x0 * y1) * y2) * y3)) + 21 * ((((x0 * y1) * y3) * y3)) + 45 * ((((x0 * y2) * y2) * y2)) + 63 * ((((x0 * y2) * y2) * y3)) + 42 * ((((x0 * y2) * y3) * y3)) + 14 * ((((x0 * y3) * y3) * y3)) - 630 * ((((y0 * y0) * y0) * x1)) - 126 * ((((y0 * y0) * y0) * x2)) - 14 * ((((y0 * y0) * y0) * x3)) - 378 * ((((y0 * y0) * x1) * y1)) - 42 * ((((y0 * y0) * x1) * y2)) - 210 * ((((y0 * y0) * y1) * x2)) - 42 * ((((y0 * y0) * y1) * x3)) - 63 * ((((y0 * y0) * x2) * y2)) - 9 * ((((y0 * y0) * x2) * y3)) - 21 * ((((y0 * y0) * y2) * x3)) - 5 * ((((y0 * y0) * x3) * y3)) - 126 * ((((y0 * x1) * y1) * y1)) + 18 * ((((y0 * x1) * y1) * y3)) + 27 * ((((y0 * x1) * y2) * y2)) + 30 * ((((y0 * x1) * y2) * y3)) + 9 * ((((y0 * x1) * y3) * y3)) - 189 * ((((y0 * y1) * y1) * x2)) - 63 * ((((y0 * y1) * y1) * x3)) - 162 * ((((y0 * y1) * x2) * y2)) - 30 * ((((y0 * y1) * x2) * y3)) - 90 * ((((y0 * y1) * y2) * x3)) - 30 * ((((y0 * y1) * x3) * y3)) - 45 * ((((y0 * x2) * y2) * y2)) - 18 * ((((y0 * x2) * y2) * y3)) - 45 * ((((y0 * y2) * y2) * x3)) - 42 * ((((y0 * y2) * x3) * y3)) - 14 * ((((y0 * x3) * y3) * y3)) + 81 * ((((x1 * y1) * y1) * y2)) + 45 * ((((x1 * y1) * y1) * y3)) + 135 * ((((x1 * y1) * y2) * y2)) + 162 * ((((x1 * y1) * y2) * y3)) + 63 * ((((x1 * y1) * y3) * y3)) + 81 * ((((x1 * y2) * y2) * y2)) + 189 * ((((x1 * y2) * y2) * y3)) + 210 * ((((x1 * y2) * y3) * y3)) + 126 * ((((x1 * y3) * y3) * y3)) - 81 * ((((y1 * y1) * y1) * x2)) - 45 * ((((y1 * y1) * y1) * x3)) - 135 * ((((y1 * y1) * x2) * y2)) - 27 * ((((y1 * y1) * x2) * y3)) - 135 * ((((y1 * y1) * y2) * x3)) - 63 * ((((y1 * y1) * x3) * y3)) - 81 * ((((y1 * x2) * y2) * y2)) + 42 * ((((y1 * x2) * y3) * y3)) - 189 * ((((y1 * y2) * y2) * x3)) - 252 * ((((y1 * y2) * x3) * y3)) - 126 * ((((y1 * x3) * y3) * y3)) + 126 * ((((x2 * y2) * y2) * y3)) + 378 * ((((x2 * y2) * y3) * y3)) + 630 * ((((x2 * y3) * y3) * y3)) - 126 * ((((y2 * y2) * y2) * x3)) - 378 * ((((y2 * y2) * x3) * y3)) - 630 * ((((y2 * x3) * y3) * y3)) - 770 * ((((x3 * y3) * y3) * y3))
}

#[verifier::rlimit(100)]
fn cubic_myy(
    x0: i64, y0: i64, x1: i64, y1: i64, x2: i64, y2: i64, x3: i64, y3: i64,
) -> (r: i128)
    requires
        -GREEN_COORD_LIMIT <= x0 <= GREEN_COORD_LIMIT && -GREEN_COORD_LIMIT <= y0 <= GREEN_COORD_LIMIT && -GREEN_COORD_LIMIT <= x1 <= GREEN_COORD_LIMIT && -GREEN_COORD_LIMIT <= y1 <= GREEN_COORD_LIMIT && -GREEN_COORD_LIMIT <= x2 <= GREEN_COORD_LIMIT && -GREEN_COORD_LIMIT <= y2 <= GREEN_COORD_LIMIT && -GREEN_COORD_LIMIT <= x3 <= GREEN_COORD_LIMIT && -GREEN_COORD_LIMIT <= y3 <= GREEN_COORD_LIMIT,
    ensures
        r == cubic_myy_s(x0 as int, y0 as int, x1 as int, y1 as int, x2 as int, y2 as int, x3 as int, y3 as int),
        -3057944146984566784 <= r <= 3057944146984566784,
{
    let t0: i128 = 770 * mul4(x0, y0, y0, y0);
    let t1: i128 = 630 * mul4(x0, y0, y0, y1);
    let t2: i128 = 126 * mul4(x0, y0, y0, y2);
    let t3: i128 = 14 * mul4(x0, y0, y0, y3);
    let t4: i128 = 378 * mul4(x0, y0, y1, y1);
    let t5: i128 = 252 * mul4(x0, y0, y1, y2);
    let t6: i128 = 42 * mul4(x0, y0, y1, y3);
    let t7: i128 = 63 * mul4(x0, y0, y2, y2);
    let t8: i128 = 30 * mul4(x0, y0, y2, y3);
    let t9: i128 = 5 * mul4(x0, y0, y3, y3);
    let t10: i128 = 126 * mul4(x0, y1, y1, y1);
    let t11: i128 = 189 * mul4(x0, y1, y1, y2);
    let t12: i128 = 45 * mul4(x0, y1, y1, y3);
    let t13: i128 = 135 * mul4(x0, y1, y2, y2);
    let t14: i128 = 90 * mul4(x0, y1, y2, y3);
    let t15: i128 = 21 * mul4(x0, y1, y3, y3);
    let t16: i128 = 45 * mul4(x0, y2, y2, y2);
    let t17: i128 = 63 * mul4(x0, y2, y2, y3);
    let t18: i128 = 42 * mul4(x0, y2, y3, y3);
    let t19: i128 = 14 * mul4(x0, y3, y3, y3);
    let t20: i128 = -630 * mul4(y0, y0, y0, x1);
    let t21: i128 = -126 * mul4(y0, y0, y0, x2);
    let t22: i128 = -14 * mul4(y0, y0, y0, x3);
    let t23: i128 = -378 * mul4(y0, y0, x1, y1);
    let t24: i128 = -42 * mul4(y0, y0, x1, y2);
    let t25: i128 = -210 * mul4(y0, y0, y1, x2);
    let t26: i128 = -42 * mul4(y0, y0, y1, x3);
    let t27: i128 = -63 * mul4(y0, y0, x2, y2);
    let t28: i128 = -9 * mul4(y0, y0, x2, y3);
    let t29: i128 = -21 * mul4(y0, y0, y2, x3);
    let t30: i128 = -5 * mul4(y0, y0, x3, y3);
    let t31: i128 = -126 * mul4(y0, x1, y1, y1);
    let t32: i128 = 18 * mul4(y0, x1, y1, y3);
    let t33: i128 = 27 * mul4(y0, x1, y2, y2);
    let t34: i128 = 30 * mul4(y0, x1, y2, y3);
    let t35: i128 = 9 * mul4(y0, x1, y3, y3);
    let t36: i128 = -189 * mul4(y0, y1, y1, x2);
    let t37: i128 = -63 * mul4(y0, y1, y1, x3);
    let t38: i128 = -162 * mul4(y0, y1, x2, y2);
    let t39: i128 = -30 * mul4(y0, y1, x2, y3);
    let t40: i128 = -90 * mul4(y0, y1, y2, x3);
    let t41: i128 = -30 * mul4(y0, y1, x3, y3);
    let t42: i128 = -45 * mul4(y0, x2, y2, y2);
    let t43: i128 = -18 * mul4(y0, x2, y2, y3);
    let t44: i128 = -45 * mul4(y0, y2, y2, x3);
    let t45: i128 = -42 * mul4(y0, y2, x3, y3);
    let t46: i128 = -14 * mul4(y0, x3, y3, y3);
    let t47: i128 = 81 * mul4(x1, y1, y1, y2);
    let t48: i128 = 45 * mul4(x1, y1, y1, y3);
    let t49: i128 = 135 * mul4(x1, y1, y2, y2);
    let t50: i128 = 162 * mul4(x1, y1, y2, y3);
    let t51: i128 = 63 * mul4(x1, y1, y3, y3);
    let t52: i128 = 81 * mul4(x1, y2, y2, y2);
    let t53: i128 = 189 * mul4(x1, y2, y2, y3);
    let t54: i128 = 210 * mul4(x1, y2, y3, y3);
    let t55: i128 = 126 * mul4(x1, y3, y3, y3);
    let t56: i128 = -81 * mul4(y1, y1, y1, x2);
    let t57: i128 = -45 * mul4(y1, y1, y1, x3);
    let t58: i128 = -135 * mul4(y1, y1, x2, y2);
    let t59: i128 = -27 * mul4(y1, y1, x2, y3);
    let t60: i128 = -135 * mul4(y1, y1, y2, x3);
    let t61: i128 = -63 * mul4(y1, y1, x3, y3);
    let t62: i128 = -81 * mul4(y1, x2, y2, y2);
    let t63: i128 = 42 * mul4(y1, x2, y3, y3);
    let t64: i128 = -189 * mul4(y1, y2, y2, x3);
    let t65: i128 = -252 * mul4(y1, y2, x3, y3);
    let t66: i128 = -126 * mul4(y1, x3, y3, y3);
    let t67: i128 = 126 * mul4(x2, y2, y2, y3);
    let t68: i128 = 378 * mul4(x2, y2, y3, y3);
    let t69: i128 = 630 * mul4(x2, y3, y3, y3);
    let t70: i128 = -126 * mul4(y2, y2, y2, x3);
    let t71: i128 = -378 * mul4(y2, y2, x3, y3);
    let t72: i128 = -630 * mul4(y2, x3, y3, y3);
    let t73: i128 = -770 * mul4(x3, y3, y3, y3);
    let s0: i128 = t0 + t1 + t2 + t3 + t4 + t5 + t6 + t7 + t8 + t9 + t10 + t11 + t12 + t13;
    proof {
        assert(s0 == 770 * ((((x0 * y0) * y0) * y0)) + 630 * ((((x0 * y0) * y0) * y1)) + 126 * ((((x0 * y0) * y0) * y2)) + 14 * ((((x0 * y0) * y0) * y3)) + 378 * ((((x0 * y0) * y1) * y1)) + 252 * ((((x0 * y0) * y1) * y2)) + 42 * ((((x0 * y0) * y1) * y3)) + 63 * ((((x0 * y0) * y2) * y2)) + 30 * ((((x0 * y0) * y2) * y3)) + 5 * ((((x0 * y0) * y3) * y3)) + 126 * ((((x0 * y1) * y1) * y1)) + 189 * ((((x0 * y1) * y1) * y2)) + 45 * ((((x0 * y1) * y1) * y3)) + 135 * ((((x0 * y1) * y2) * y2)));
    }
    let s1: i128 = t14 + t15 + t16 + t17 + t18 + t19 + t20 + t21 + t22 + t23 + t24 + t25 + t26 + t27;
    proof {
        assert(s1 == 90 * ((((x0 * y1) * y2) * y3)) + 21 * ((((x0 * y1) * y3) * y3)) + 45 * ((((x0 * y2) * y2) * y2)) + 63 * ((((x0 * y2) * y2) * y3)) + 42 * ((((x0 * y2) * y3) * y3)) + 14 * ((((x0 * y3) * y3) * y3)) - 630 * ((((y0 * y0) * y0) * x1)) - 126 * ((((y0 * y0) * y0) * x2)) - 14 * ((((y0 * y0) * y0) * x3)) - 378 * ((((y0 * y0) * x1) * y1)) - 42 * ((((y0 * y0) * x1) * y2)) - 210 * ((((y0 * y0) * y1) * x2)) - 42 * ((((y0 * y0) * y1) * x3)) - 63 * ((((y0 * y0) * x2) * y2)));
    }
    let s2: i128 = t28 + t29 + t30 + t31 + t32 + t33 + t34 + t35 + t36 + t37 + t38 + t39 + t40 + t41;
    proof {
        assert(s2 == -9 * ((((y0 * y0) * x2) * y3)) - 21 * ((((y0 * y0) * y2) * x3)) - 5 * ((((y0 * y0) * x3) * y3)) - 126 * ((((y0 * x1) * y1) * y1)) + 18 * ((((y0 * x1) * y1) * y3)) + 27 * ((((y0 * x1) * y2) * y2)) + 30 * ((((y0 * x1) * y2) * y3)) + 9 * ((((y0 * x1) * y3) * y3)) - 189 * ((((y0 * y1) * y1) * x2)) - 63 * ((((y0 * y1) * y1) * x3)) - 162 * ((((y0 * y1) * x2) * y2)) - 30 * ((((y0 * y1) * x2) * y3)) - 90 * ((((y0 * y1) * y2) * x3)) - 30 * ((((y0 * y1) * x3) * y3)));
    }
    let s3: i128 = t42 + t43 + t44 + t45 + t46 + t47 + t48 + t49 + t50 + t51 + t52 + t53 + t54 + t55;
    proof {
        assert(s3 == -45 * ((((y0 * x2) * y2) * y2)) - 18 * ((((y0 * x2) * y2) * y3)) - 45 * ((((y0 * y2) * y2) * x3)) - 42 * ((((y0 * y2) * x3) * y3)) - 14 * ((((y0 * x3) * y3) * y3)) + 81 * ((((x1 * y1) * y1) * y2)) + 45 * ((((x1 * y1) * y1) * y3)) + 135 * ((((x1 * y1) * y2) * y2)) + 162 * ((((x1 * y1) * y2) * y3)) + 63 * ((((x1 * y1) * y3) * y3)) + 81 * ((((x1 * y2) * y2) * y2)) + 189 * ((((x1 * y2) * y2) * y3)) + 210 * ((((x1 * y2) * y3) * y3)) + 126 * ((((x1 * y3) * y3) * y3)));
    }
    let s4: i128 = t56 + t57 + t58 + t59 + t60 + t61 + t62 + t63 + t64 + t65 + t66 + t67 + t68 + t69;
    proof {
        assert(s4 == -81 * ((((y1 * y1) * y1) * x2)) - 45 * ((((y1 * y1) * y1) * x3)) - 135 * ((((y1 * y1) * x2) * y2)) - 27 * ((((y1 * y1) * x2) * y3)) - 135 * ((((y1 * y1) * y2) * x3)) - 63 * ((((y1 * y1) * x3) * y3)) - 81 * ((((y1 * x2) * y2) * y2)) + 42 * ((((y1 * x2) * y3) * y3)) - 189 * ((((y1 * y2) * y2) * x3)) - 252 * ((((y1 * y2) * x3) * y3)) - 126 * ((((y1 * x3) * y3) * y3)) + 126 * ((((x2 * y2) * y2) * y3)) + 378 * ((((x2 * y2) * y3) * y3)) + 630 * ((((x2 * y3) * y3) * y3)));
    }
    let s5: i128 = t70 + t71 + t72 + t73;
    proof {
        assert(s5 == -126 * ((((y2 * y2) * y2) * x3)) - 378 * ((((y2 * y2) * x3) * y3)) - 630 * ((((y2 * x3) * y3) * y3)) - 770 * ((((x3 * y3) * y3) * y3)));
    }
    s0 + s1 + s2 + s3 + s4 + s5
}

/// The six scaled moments as one mathematical value.
pub ghost struct GreenView {
    pub area: int,
    pub mx: int,
    pub my: int,
    pub mxx: int,
    pub mxy: int,
    pub myy: int,
}

pub open spec fn gv_zero() -> GreenView {
    GreenView { area: 0, mx: 0, my: 0, mxx: 0, mxy: 0, myy: 0 }
}

pub open spec fn gv_add(a: GreenView, b: GreenView) -> GreenView {
    GreenView {
        area: a.area + b.area,
        mx: a.mx + b.mx,
        my: a.my + b.my,
        mxx: a.mxx + b.mxx,
        mxy: a.mxy + b.mxy,
        myy: a.myy + b.myy,
    }
}

/// The moments of a straight segment from `p0` to `p1`.
pub open spec fn line_green(p0: Pt, p1: Pt) -> GreenView {
    GreenView {
        area: line_area_s(p0.x as int, p0.y as int, p1.x as int, p1.y as int),
        mx: line_mx_s(p0.x as int, p0.y as int, p1.x as int, p1.y as int),
        my: line_my_s(p0.x as int, p0.y as int, p1.x as int, p1.y as int),
        mxx: line_mxx_s(p0.x as int, p0.y as int, p1.x as int, p1.y as int),
        mxy: line_mxy_s(p0.x as int, p0.y as int, p1.x as int, p1.y as int),
        myy: line_myy_s(p0.x as int, p0.y as int, p1.x as int, p1.y as int),
    }
}

/// The moments of one drawing segment starting at `cur`.
pub open spec fn seg_green(cur: Pt, g: Segment) -> GreenView {
    match g {
        Segment::LineTo(p) => line_green(cur, p),
        Segment::QuadTo(c, p) => GreenView {
            area: quad_area_s(
                cur.x as int,
                cur.y as int,
                c.x as int,
                c.y as int,
                p.x as int,
                p.y as int,
            ),
            mx: quad_mx_s(
                cur.x as int,
                cur.y as int,
                c.x as int,
                c.y as int,
                p.x as int,
                p.y as int,
            ),
            my: quad_my_s(
                cur.x as int,
                cur.y as int,
                c.x as int,
                c.y as int,
                p.x as int,
                p.y as int,
            ),
            mxx: quad_mxx_s(
                cur.x as int,
                cur.y as int,
                c.x as int,
                c.y as int,
                p.x as int,
                p.y as int,
            ),
            mxy: quad_mxy_s(
                cur.x as int,
                cur.y as int,
                c.x as int,
                c.y as int,
                p.x as int,
                p.y as int,
            ),
            myy: quad_myy_s(
                cur.x as int,
                cur.y as int,
                c.x as int,
                c.y as int,
                p.x as int,
                p.y as int,
            ),
        },
        Segment::CurveTo(c1, c2, p) => GreenView {
            area: cubic_area_s(
                cur.x as int,
                cur.y as int,
                c1.x as int,
                c1.y as int,
                c2.x as int,
                c2.y as int,
                p.x as int,
                p.y as int,
            ),
            mx: cubic_mx_s(
                cur.x as int,
                cur.y as int,
                c1.x as int,
                c1.y as int,
                c2.x as int,
                c2.y as int,
                p.x as int,
                p.y as int,
            ),
            my: cubic_my_s(
                cur.x as int,
                cur.y as int,
                c1.x as int,
                c1.y as int,
                c2.x as int,
                c2.y as int,
                p.x as int,
                p.y as int,
            ),
            mxx: cubic_mxx_s(
                cur.x as int,
                cur.y as int,
                c1.x as int,
                c1.y as int,
                c2.x as int,
                c2.y as int,
                p.x as int,
                p.y as int,
            ),
            mxy: cubic_mxy_s(
                cur.x as int,
                cur.y as int,
                c1.x as int,
                c1.y as int,
                c2.x as int,
                c2.y as int,
                p.x as int,
                p.y as int,
            ),
            myy: cubic_myy_s(
                cur.x as int,
                cur.y as int,
                c1.x as int,
                c1.y as int,
                c2.x as int,
                c2.y as int,
                p.x as int,
                p.y as int,
            ),
        },
    }
}

/// The moments of the first `j` segments of one subpath.
pub open spec fn sub_walk(s: SubView, j: int) -> GreenView
    decreases j,
{
    if j <= 0 {
        gv_zero()
    } else {
        gv_add(sub_walk(s, j - 1), seg_green(pos_before(s, j - 1), s.segs[j - 1]))
    }
}

/// The moments of one subpath: its segments, and, when it is closed and its
/// pen did not return to the anchor, the closing line back to the anchor.
pub open spec fn sub_green(s: SubView) -> GreenView {
    let base = sub_walk(s, s.segs.len() as int);
    let cur = pos_before(s, s.segs.len() as int);
    if s.closed && cur != s.start {
        gv_add(base, line_green(cur, s.start))
    } else {
        base
    }
}

/// The moments of the first `i` subpaths of an outline.
pub open spec fn outline_walk(v: Seq<SubView>, i: int) -> GreenView
    decreases i,
{
    if i <= 0 {
        gv_zero()
    } else {
        gv_add(outline_walk(v, i - 1), sub_green(v[i - 1]))
    }
}

/// The moments of a whole outline: the sum over its subpaths.
pub open spec fn outline_green(v: Seq<SubView>) -> GreenView {
    outline_walk(v, v.len() as int)
}

/// The scaled moments of an outline, as carried at run time: the signed area
/// times sixty, the first moments times eight hundred forty, the square
/// second moments times nine thousand two hundred forty and the cross moment
/// times eighteen thousand four hundred eighty.
#[derive(Clone, Copy, Debug, PartialEq, Eq, Structural)]
pub struct CurveMoments {
    pub area: i128,
    pub mx: i128,
    pub my: i128,
    pub mxx: i128,
    pub mxy: i128,
    pub myy: i128,
}

pub open spec fn cm_matches(m: CurveMoments, g: GreenView) -> bool {
    &&& m.area == g.area
    &&& m.mx == g.mx
    &&& m.my == g.my
    &&& m.mxx == g.mxx
    &&& m.mxy == g.mxy
    &&& m.myy == g.myy
}

/// The field bounds the aggregate moments observe.
pub open spec fn cm_bounded(m: CurveMoments) -> bool {
    &&& -110_000_000_000_000_000 <= m.area <= 110_000_000_000_000_000
    &&& -2_100_000_000_000_000_000_000 <= m.mx <= 2_100_000_000_000_000_000_000
    &&& -2_100_000_000_000_000_000_000 <= m.my <= 2_100_000_000_000_000_000_000
    &&& -110_000_000_000_000_000_000_000_000 <= m.mxx <= 110_000_000_000_000_000_000_000_000
    &&& -110_000_000_000_000_000_000_000_000 <= m.mxy <= 110_000_000_000_000_000_000_000_000
    &&& -110_000_000_000_000_000_000_000_000 <= m.myy <= 110_000_000_000_000_000_000_000_000
}

/// One segment's moments, in executable form.
fn seg_moments(cur: Pt, g: Segment) -> (r: CurveMoments)
    requires
        crate::outline::pt_bounded(cur, GREEN_COORD_LIMIT as int),
        crate::outline::segment_bounded(g, GREEN_COORD_LIMIT as int),
    ensures
        cm_matches(r, seg_green(cur, g)),
        -6_000_000_000 <= r.area <= 6_000_000_000,
        -120_000_000_000_000 <= r.mx <= 120_000_000_000_000,
        -120_000_000_000_000 <= r.my <= 120_000_000_000_000,
        -6_000_000_000_000_000_000 <= r.mxx <= 6_000_000_000_000_000_000,
        -6_000_000_000_000_000_000 <= r.mxy <= 6_000_000_000_000_000_000,
        -6_000_000_000_000_000_000 <= r.myy <= 6_000_000_000_000_000_000,
{
    match g {
        Segment::LineTo(p) => {
            proof {
                assert(crate::outline::segment_points(g)[0] == p);
            }
            CurveMoments {
                area: line_area(cur.x, cur.y, p.x, p.y),
                mx: line_mx(cur.x, cur.y, p.x, p.y),
                my: line_my(cur.x, cur.y, p.x, p.y),
                mxx: line_mxx(cur.x, cur.y, p.x, p.y),
                mxy: line_mxy(cur.x, cur.y, p.x, p.y),
                myy: line_myy(cur.x, cur.y, p.x, p.y),
            }
        },
        Segment::QuadTo(c, p) => {
            proof {
                assert(crate::outline::segment_points(g)[0] == c);
                assert(crate::outline::segment_points(g)[1] == p);
            }
            CurveMoments {
                area: quad_area(cur.x, cur.y, c.x, c.y, p.x, p.y),
                mx: quad_mx(cur.x, cur.y, c.x, c.y, p.x, p.y),
                my: quad_my(cur.x, cur.y, c.x, c.y, p.x, p.y),
                mxx: quad_mxx(cur.x, cur.y, c.x, c.y, p.x, p.y),
                mxy: quad_mxy(cur.x, cur.y, c.x, c.y, p.x, p.y),
                myy: quad_myy(cur.x, cur.y, c.x, c.y, p.x, p.y),
            }
        },
        Segment::CurveTo(c1, c2, p) => {
            proof {
                assert(crate::outline::segment_points(g)[0] == c1);
                assert(crate::outline::segment_points(g)[1] == c2);
                assert(crate::outline::segment_points(g)[2] == p);
            }
            CurveMoments {
                area: cubic_area(cur.x, cur.y, c1.x, c1.y, c2.x, c2.y, p.x, p.y),
                mx: cubic_mx(cur.x, cur.y, c1.x, c1.y, c2.x, c2.y, p.x, p.y),
                my: cubic_my(cur.x, cur.y, c1.x, c1.y, c2.x, c2.y, p.x, p.y),
                mxx: cubic_mxx(cur.x, cur.y, c1.x, c1.y, c2.x, c2.y, p.x, p.y),
                mxy: cubic_mxy(cur.x, cur.y, c1.x, c1.y, c2.x, c2.y, p.x, p.y),
                myy: cubic_myy(cur.x, cur.y, c1.x, c1.y, c2.x, c2.y, p.x, p.y),
            }
        },
    }
}

/// One subpath's moments, in executable form.
fn sub_moments(s: &crate::outline::Subpath) -> (r: CurveMoments)
    requires
        crate::outline::sub_bounded(s@, GREEN_COORD_LIMIT as int),
        s@.segs.len() <= GREEN_SEG_LIMIT,
    ensures
        cm_matches(r, sub_green(s@)),
        -400_000_000_000_000 <= r.area <= 400_000_000_000_000,
        -7_900_000_000_000_000_000 <= r.mx <= 7_900_000_000_000_000_000,
        -7_900_000_000_000_000_000 <= r.my <= 7_900_000_000_000_000_000,
        -400_000_000_000_000_000_000_000 <= r.mxx <= 400_000_000_000_000_000_000_000,
        -400_000_000_000_000_000_000_000 <= r.mxy <= 400_000_000_000_000_000_000_000,
        -400_000_000_000_000_000_000_000 <= r.myy <= 400_000_000_000_000_000_000_000,
{
    let ghost sv = s@;
    let mut acc = CurveMoments { area: 0, mx: 0, my: 0, mxx: 0, mxy: 0, myy: 0 };
    let mut cur: Pt = s.start;
    let mut j: usize = 0;
    proof {
        assert(cm_matches(acc, sub_walk(sv, 0)));
    }
    while j < s.body.len()
        invariant
            0 <= j <= sv.segs.len(),
            sv.segs.len() <= GREEN_SEG_LIMIT,
            s@ == sv,
            s.body@ == sv.segs,
            s.start == sv.start,
            crate::outline::sub_bounded(sv, GREEN_COORD_LIMIT as int),
            cur == pos_before(sv, j as int),
            crate::outline::pt_bounded(cur, GREEN_COORD_LIMIT as int),
            cm_matches(acc, sub_walk(sv, j as int)),
            -(j as int) * 6_000_000_000 <= acc.area <= (j as int) * 6_000_000_000,
            -(j as int) * 120_000_000_000_000 <= acc.mx <= (j as int) * 120_000_000_000_000,
            -(j as int) * 120_000_000_000_000 <= acc.my <= (j as int) * 120_000_000_000_000,
            -(j as int) * 6_000_000_000_000_000_000 <= acc.mxx <= (j as int)
                * 6_000_000_000_000_000_000,
            -(j as int) * 6_000_000_000_000_000_000 <= acc.mxy <= (j as int)
                * 6_000_000_000_000_000_000,
            -(j as int) * 6_000_000_000_000_000_000 <= acc.myy <= (j as int)
                * 6_000_000_000_000_000_000,
        decreases sv.segs.len() - j,
    {
        let g = s.body[j];
        proof {
            assert(sv.segs[j as int] == g);
            assert(crate::outline::segment_bounded(g, GREEN_COORD_LIMIT as int));
        }
        let m = seg_moments(cur, g);
        acc = CurveMoments {
            area: acc.area + m.area,
            mx: acc.mx + m.mx,
            my: acc.my + m.my,
            mxx: acc.mxx + m.mxx,
            mxy: acc.mxy + m.mxy,
            myy: acc.myy + m.myy,
        };
        cur = match g {
            Segment::LineTo(p) => p,
            Segment::QuadTo(_, p) => p,
            Segment::CurveTo(_, _, p) => p,
        };
        proof {
            assert(cur == seg_end(sv.segs[j as int]));
            match g {
                Segment::LineTo(p) => {
                    assert(crate::outline::segment_points(g)[0] == p);
                    assert(crate::outline::pt_bounded(p, GREEN_COORD_LIMIT as int));
                },
                Segment::QuadTo(c, p) => {
                    assert(crate::outline::segment_points(g)[1] == p);
                    assert(crate::outline::pt_bounded(p, GREEN_COORD_LIMIT as int));
                },
                Segment::CurveTo(c1, c2, p) => {
                    assert(crate::outline::segment_points(g)[2] == p);
                    assert(crate::outline::pt_bounded(p, GREEN_COORD_LIMIT as int));
                },
            }
        }
        j = j + 1;
    }
    if s.closed && (cur.x != s.start.x || cur.y != s.start.y) {
        proof {
            assert(crate::outline::pt_bounded(sv.start, GREEN_COORD_LIMIT as int));
        }
        let m = CurveMoments {
            area: line_area(cur.x, cur.y, s.start.x, s.start.y),
            mx: line_mx(cur.x, cur.y, s.start.x, s.start.y),
            my: line_my(cur.x, cur.y, s.start.x, s.start.y),
            mxx: line_mxx(cur.x, cur.y, s.start.x, s.start.y),
            mxy: line_mxy(cur.x, cur.y, s.start.x, s.start.y),
            myy: line_myy(cur.x, cur.y, s.start.x, s.start.y),
        };
        acc = CurveMoments {
            area: acc.area + m.area,
            mx: acc.mx + m.mx,
            my: acc.my + m.my,
            mxx: acc.mxx + m.mxx,
            mxy: acc.mxy + m.mxy,
            myy: acc.myy + m.myy,
        };
    }
    acc
}

/// The six scaled moments of an outline, by the closed-form line integrals
/// over each segment, with a closing line added for each closed subpath
/// whose pen did not return to its anchor. Moments add across subpaths.
pub fn green_statistics(o: &Outline) -> (r: CurveMoments)
    requires
        coords_bounded(o@, GREEN_COORD_LIMIT as int),
        o@.len() <= GREEN_SUB_LIMIT,
        forall|i: int| 0 <= i < o@.len() ==> (#[trigger] o@[i]).segs.len() <= GREEN_SEG_LIMIT,
    ensures
        cm_matches(r, outline_green(o@)),
        cm_bounded(r),
{
    let mut acc = CurveMoments { area: 0, mx: 0, my: 0, mxx: 0, mxy: 0, myy: 0 };
    let mut i: usize = 0;
    proof {
        assert(cm_matches(acc, outline_walk(o@, 0)));
    }
    while i < o.subpaths.len()
        invariant
            0 <= i <= o@.len(),
            o@.len() <= GREEN_SUB_LIMIT,
            o@.len() == o.subpaths@.len(),
            forall|k: int| 0 <= k < o@.len() ==> o@[k] == o.subpaths@[k]@,
            coords_bounded(o@, GREEN_COORD_LIMIT as int),
            forall|k: int| 0 <= k < o@.len() ==> (#[trigger] o@[k]).segs.len() <= GREEN_SEG_LIMIT,
            cm_matches(acc, outline_walk(o@, i as int)),
            -(i as int) * 400_000_000_000_000 <= acc.area <= (i as int) * 400_000_000_000_000,
            -(i as int) * 7_900_000_000_000_000_000 <= acc.mx <= (i as int)
                * 7_900_000_000_000_000_000,
            -(i as int) * 7_900_000_000_000_000_000 <= acc.my <= (i as int)
                * 7_900_000_000_000_000_000,
            -(i as int) * 400_000_000_000_000_000_000_000 <= acc.mxx <= (i as int)
                * 400_000_000_000_000_000_000_000,
            -(i as int) * 400_000_000_000_000_000_000_000 <= acc.mxy <= (i as int)
                * 400_000_000_000_000_000_000_000,
            -(i as int) * 400_000_000_000_000_000_000_000 <= acc.myy <= (i as int)
                * 400_000_000_000_000_000_000_000,
        decreases o@.len() - i,
    {
        proof {
            assert(o@[i as int] == o.subpaths@[i as int]@);
            assert(crate::outline::sub_bounded(o@[i as int], GREEN_COORD_LIMIT as int));
        }
        let m = sub_moments(&o.subpaths[i]);
        acc = CurveMoments {
            area: acc.area + m.area,
            mx: acc.mx + m.mx,
            my: acc.my + m.my,
            mxx: acc.mxx + m.mxx,
            mxy: acc.mxy + m.mxy,
            myy: acc.myy + m.myy,
        };
        i = i + 1;
    }
    acc
}

/// Rounding division with a signed divisor: the quotient rounded to nearest,
/// halves away from zero, and zero for a zero divisor.
pub open spec fn rdiv(a: int, b: int) -> int {
    if b > 0 {
        div_round(a, b)
    } else if b < 0 {
        div_round(-a, -b)
    } else {
        0
    }
}

fn rdiv_exec(a: i128, b: i128) -> (r: i128)
    requires
        -0x1000_0000_0000_0000_0000_0000_0000_0000 < a < 0x1000_0000_0000_0000_0000_0000_0000_0000,
        -0x1000_0000_0000_0000_0000_0000_0000_0000 < b < 0x1000_0000_0000_0000_0000_0000_0000_0000,
    ensures
        r == rdiv(a as int, b as int),
{
    if b > 0 {
        crate::fixed::div_round_i128(a, b)
    } else if b < 0 {
        crate::fixed::div_round_i128(-a, -b)
    } else {
        0
    }
}

/// A rounded signed quotient is no farther from zero than its numerator,
/// but for the half step.
proof fn lemma_rdiv_magnitude(a: int, b: int, m: int)
    requires
        m >= 0,
        -m <= a <= m,
    ensures
        -m - 1 <= rdiv(a, b) <= m + 1,
{
    if b > 0 {
        assert((m + 1) * b >= m + 1) by (nonlinear_arith)
            requires
                b >= 1,
                m >= 0,
        ;
        assert((-(m + 1)) * b == -((m + 1) * b)) by (nonlinear_arith);
        crate::fixed::lemma_div_round_bound(a, b, m + 1);
    } else if b < 0 {
        assert((m + 1) * (-b) >= m + 1) by (nonlinear_arith)
            requires
                -b >= 1,
                m >= 0,
        ;
        assert((-(m + 1)) * (-b) == -((m + 1) * (-b))) by (nonlinear_arith);
        crate::fixed::lemma_div_round_bound(-a, -b, m + 1);
    }
}

/// The largest centroid magnitude, in thousandths, that the second-order
/// statistics accept before reporting nothing.
pub const CENTROID_LIMIT: i128 = 10_000_000;

/// The centroid of the outline the moments describe, in thousandths: each
/// first moment over the area. Nothing when the area is zero.
pub open spec fn centroid_spec(m: CurveMoments) -> Option<(int, int)> {
    if m.area == 0 {
        Option::None
    } else {
        Some((rdiv(1000 * m.mx, 14 * m.area), rdiv(1000 * m.my, 14 * m.area)))
    }
}

/// The centroid of the outline the moments describe, in thousandths.
pub fn center_of_mass(m: &CurveMoments) -> (r: Option<(i128, i128)>)
    requires
        cm_bounded(*m),
    ensures
        match r {
            Some(c) => centroid_spec(*m) == Some((c.0 as int, c.1 as int)),
            None => centroid_spec(*m) is None,
        },
{
    if m.area == 0 {
        return None;
    }
    let cx = rdiv_exec(1000 * m.mx, 14 * m.area);
    let cy = rdiv_exec(1000 * m.my, 14 * m.area);
    Some((cx, cy))
}

/// The variance of the outline in each axis, in millionths of a square unit:
/// each second moment over the area, less the squared centroid coordinate,
/// taken absolutely. Nothing when the area is zero or a centroid coordinate
/// is out of range.
pub open spec fn variance_spec(m: CurveMoments) -> Option<(int, int)> {
    match centroid_spec(m) {
        Option::None => Option::None,
        Some((cx, cy)) => {
            if -CENTROID_LIMIT <= cx <= CENTROID_LIMIT && -CENTROID_LIMIT <= cy
                <= CENTROID_LIMIT {
                let qx = rdiv(1_000_000 * m.mxx, 154 * m.area);
                let qy = rdiv(1_000_000 * m.myy, 154 * m.area);
                let vx = qx - cx * cx;
                let vy = qy - cy * cy;
                Some(
                    (
                        if vx >= 0 {
                            vx
                        } else {
                            -vx
                        },
                        if vy >= 0 {
                            vy
                        } else {
                            -vy
                        },
                    ),
                )
            } else {
                Option::None
            }
        },
    }
}

/// The variance of the outline in each axis, in millionths.
pub fn variance(m: &CurveMoments) -> (r: Option<(i128, i128)>)
    requires
        cm_bounded(*m),
    ensures
        match r {
            Some(v) => variance_spec(*m) == Some((v.0 as int, v.1 as int)) && 0 <= v.0
                <= 120_000_000_000_000_000_000_000_000_000_000 && 0 <= v.1
                <= 120_000_000_000_000_000_000_000_000_000_000,
            None => variance_spec(*m) is None,
        },
{
    let c = center_of_mass(m);
    match c {
        None => None,
        Some((cx, cy)) => {
            if -CENTROID_LIMIT <= cx && cx <= CENTROID_LIMIT && -CENTROID_LIMIT <= cy && cy
                <= CENTROID_LIMIT {
                proof {
                    lemma_rdiv_magnitude(
                        1_000_000 * m.mxx as int,
                        154 * m.area as int,
                        110_000_000_000_000_000_000_000_000_000_000,
                    );
                    lemma_rdiv_magnitude(
                        1_000_000 * m.myy as int,
                        154 * m.area as int,
                        110_000_000_000_000_000_000_000_000_000_000,
                    );
                    assert(0 <= (cx as int) * (cx as int) <= 100_000_000_000_000 && 0 <= (cy as int)
                        * (cy as int) <= 100_000_000_000_000) by (nonlinear_arith)
                        requires
                            -CENTROID_LIMIT <= cx <= CENTROID_LIMIT,
                            -CENTROID_LIMIT <= cy <= CENTROID_LIMIT,
                            CENTROID_LIMIT == 10_000_000i128,
                    ;
                }
                let qx = rdiv_exec(1_000_000 * m.mxx, 154 * m.area);
                let qy = rdiv_exec(1_000_000 * m.myy, 154 * m.area);
                let vx = qx - cx * cx;
                let vy = qy - cy * cy;
                Some(
                    (
                        if vx >= 0 {
                            vx
                        } else {
                            -vx
                        },
                        if vy >= 0 {
                            vy
                        } else {
                            -vy
                        },
                    ),
                )
            } else {
                None
            }
        },
    }
}

/// The covariance of the outline, in millionths: the cross moment over the
/// area, less the product of the centroid coordinates. Nothing when the area
/// is zero or a centroid coordinate is out of range.
pub open spec fn covariance_spec(m: CurveMoments) -> Option<int> {
    match centroid_spec(m) {
        Option::None => Option::None,
        Some((cx, cy)) => {
            if -CENTROID_LIMIT <= cx <= CENTROID_LIMIT && -CENTROID_LIMIT <= cy
                <= CENTROID_LIMIT {
                Some(rdiv(1_000_000 * m.mxy, 308 * m.area) - cx * cy)
            } else {
                Option::None
            }
        },
    }
}

/// The covariance of the outline, in millionths.
pub fn covariance(m: &CurveMoments) -> (r: Option<i128>)
    requires
        cm_bounded(*m),
    ensures
        match r {
            Some(v) => covariance_spec(*m) == Some(v as int)
                && -120_000_000_000_000_000_000_000_000_000_000 <= v
                <= 120_000_000_000_000_000_000_000_000_000_000,
            None => covariance_spec(*m) is None,
        },
{
    let c = center_of_mass(m);
    match c {
        None => None,
        Some((cx, cy)) => {
            if -CENTROID_LIMIT <= cx && cx <= CENTROID_LIMIT && -CENTROID_LIMIT <= cy && cy
                <= CENTROID_LIMIT {
                proof {
                    lemma_rdiv_magnitude(
                        1_000_000 * m.mxy as int,
                        308 * m.area as int,
                        110_000_000_000_000_000_000_000_000_000_000,
                    );
                    assert(-100_000_000_000_000 <= (cx as int) * (cy as int)
                        <= 100_000_000_000_000) by (nonlinear_arith)
                        requires
                            -CENTROID_LIMIT <= cx <= CENTROID_LIMIT,
                            -CENTROID_LIMIT <= cy <= CENTROID_LIMIT,
                            CENTROID_LIMIT == 10_000_000i128,
                    ;
                }
                let q = rdiv_exec(1_000_000 * m.mxy, 308 * m.area);
                Some(q - cx * cy)
            } else {
                None
            }
        },
    }
}

/// The slant of the outline, in thousandths: the covariance over the
/// vertical variance, zeroed within one thousandth, and zero when either is
/// unavailable or the variance vanishes.
pub open spec fn slant_spec(m: CurveMoments) -> int {
    match (covariance_spec(m), variance_spec(m)) {
        (Some(cov), Some((vx, vy))) => {
            if vy == 0 {
                0
            } else {
                let s = rdiv(1000 * cov, vy);
                if -1 <= s <= 1 {
                    0
                } else {
                    s
                }
            }
        },
        _ => 0,
    }
}

/// The slant of the outline, in thousandths.
pub fn slant_milli(m: &CurveMoments) -> (r: i128)
    requires
        cm_bounded(*m),
    ensures
        r == slant_spec(*m),
{
    let cov = covariance(m);
    let va = variance(m);
    match (cov, va) {
        (Some(c), Some(v)) => {
            if v.1 == 0 {
                0
            } else {
                let s = rdiv_exec(1000 * c, v.1);
                if -1 <= s && s <= 1 {
                    0
                } else {
                    s
                }
            }
        },
        _ => 0,
    }
}

} // verus!
