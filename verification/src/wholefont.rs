//! Whole-font statistics: area-weighted weight, average width and average
//! slant over the glyphs of the font's primary script.
//!
//! Each glyph contributes its em-normalized ink area and its slant; moments
//! are summed before anything is derived, so multi-contour glyphs weigh by
//! area and not per contour. The weight is the summed ink area over the
//! summed advance width, scaled by the units per em; the width is the average
//! advance width as a share of the em; the slant is the mean of the
//! per-glyph slant ratios, each clamped to one thousand, left as a ratio for
//! the caller to turn into a degree angle.

use crate::green::{slant_spec, cm_bounded, CurveMoments};
use crate::results::Rational;
use vstd::prelude::*;

verus! {

/// The most glyphs one aggregation accepts.
pub const GLYPH_LIMIT: usize = 100_000;

/// The largest slant-ratio magnitude one glyph may contribute, in
/// thousandths.
pub const SLANT_CLAMP: i128 = 1_000_000;

/// One glyph's contribution: its advance width in font units and the moments
/// of its em-normalized outline.
pub struct GlyphRecord {
    pub advance: u16,
    pub moments: CurveMoments,
}

/// The aggregated statistics, as exact rationals. The slant is the mean
/// covariance-over-variance ratio, positive for right-leaning shapes.
pub struct WholeFontStatistics {
    pub weight: Rational,
    pub weight_perceptual: Rational,
    pub width: Rational,
    pub slant_ratio: Rational,
}

/// A slant contribution clamped to the accepted magnitude.
pub open spec fn clamped_slant(m: CurveMoments) -> int {
    let s = slant_spec(m);
    if s > SLANT_CLAMP {
        SLANT_CLAMP as int
    } else if s < -SLANT_CLAMP {
        -SLANT_CLAMP
    } else {
        s
    }
}

/// The magnitude of the scaled area.
pub open spec fn abs_area(m: CurveMoments) -> int {
    if m.area >= 0 {
        m.area as int
    } else {
        -(m.area as int)
    }
}

/// The sum of the ink-area magnitudes of the first `i` glyphs.
pub open spec fn area_sum(rs: Seq<GlyphRecord>, i: int) -> int
    decreases i,
{
    if i <= 0 {
        0
    } else {
        area_sum(rs, i - 1) + abs_area(rs[i - 1].moments)
    }
}

/// The sum of ink area times advance width of the first `i` glyphs.
pub open spec fn weighted_area_sum(rs: Seq<GlyphRecord>, i: int) -> int
    decreases i,
{
    if i <= 0 {
        0
    } else {
        weighted_area_sum(rs, i - 1) + abs_area(rs[i - 1].moments) * (rs[i - 1].advance as int)
    }
}

/// The sum of the advance widths of the first `i` glyphs.
pub open spec fn width_sum(rs: Seq<GlyphRecord>, i: int) -> int
    decreases i,
{
    if i <= 0 {
        0
    } else {
        width_sum(rs, i - 1) + rs[i - 1].advance as int
    }
}

/// The sum of the clamped slants of the first `i` glyphs.
pub open spec fn slant_sum(rs: Seq<GlyphRecord>, i: int) -> int
    decreases i,
{
    if i <= 0 {
        0
    } else {
        slant_sum(rs, i - 1) + clamped_slant(rs[i - 1].moments)
    }
}

/// Whether every record's moments observe the aggregate bounds.
pub open spec fn records_wf(rs: Seq<GlyphRecord>) -> bool {
    forall|i: int| 0 <= i < rs.len() ==> cm_bounded((#[trigger] rs[i]).moments)
}

/// Aggregates the whole-font statistics from the glyph records. Nothing is
/// reported for an empty glyph list or a zero total advance width, whose
/// ratios are undefined.
///
/// With the scaled area sixty times the area in squared thousandths of an
/// em, the weight comes out as the summed em-squared ink area times the
/// units per em over the summed advance width.
pub fn whole_font_statistics(records: &Vec<GlyphRecord>, upem: u16) -> (r: Option<
    WholeFontStatistics,
>)
    requires
        records@.len() <= GLYPH_LIMIT,
        upem > 0,
        records_wf(records@),
    ensures
        match r {
            Some(s) => {
                &&& records@.len() > 0
                &&& width_sum(records@, records@.len() as int) > 0
                &&& s.weight.num == area_sum(records@, records@.len() as int) * (upem as int)
                &&& s.weight.den == 60_000_000 * width_sum(records@, records@.len() as int)
                &&& s.weight_perceptual.num == weighted_area_sum(records@, records@.len() as int)
                &&& s.weight_perceptual.den == 60_000_000 * width_sum(
                    records@,
                    records@.len() as int,
                )
                &&& s.width.num == width_sum(records@, records@.len() as int)
                &&& s.width.den == (upem as int) * (records@.len() as int)
                &&& s.slant_ratio.num == slant_sum(records@, records@.len() as int)
                &&& s.slant_ratio.den == 1000 * (records@.len() as int)
                &&& s.weight.wf() && s.weight_perceptual.wf() && s.width.wf()
                    && s.slant_ratio.wf()
            },
            None => records@.len() == 0 || width_sum(records@, records@.len() as int) == 0,
        },
{
    if records.len() == 0 {
        return None;
    }
    let mut a_sum: i128 = 0;
    let mut wa_sum: i128 = 0;
    let mut w_sum: i128 = 0;
    let mut s_sum: i128 = 0;
    let mut i: usize = 0;
    while i < records.len()
        invariant
            0 <= i <= records@.len(),
            records@.len() <= GLYPH_LIMIT,
            records_wf(records@),
            a_sum == area_sum(records@, i as int),
            wa_sum == weighted_area_sum(records@, i as int),
            w_sum == width_sum(records@, i as int),
            s_sum == slant_sum(records@, i as int),
            0 <= a_sum <= (i as int) * 110_000_000_000_000_000,
            0 <= wa_sum <= (i as int) * 0x2000_0000_0000_0000_0000,
            0 <= w_sum <= (i as int) * 0x10000,
            -(i as int) * (SLANT_CLAMP as int) <= s_sum <= (i as int) * (SLANT_CLAMP as int),
        decreases records@.len() - i,
    {
        let rec = &records[i];
        proof {
            assert(cm_bounded(records@[i as int].moments));
        }
        let a: i128 = if rec.moments.area >= 0 {
            rec.moments.area
        } else {
            -rec.moments.area
        };
        a_sum = a_sum + a;
        proof {
            assert(0 <= a * (rec.advance as i128) <= 0x2000_0000_0000_0000_0000)
                by (nonlinear_arith)
                requires
                    0 <= a <= 110_000_000_000_000_000,
                    0 <= rec.advance <= 0xFFFF,
            ;
        }
        wa_sum = wa_sum + a * (rec.advance as i128);
        w_sum = w_sum + (rec.advance as i128);
        let s = crate::green::slant_milli(&rec.moments);
        let sc: i128 = if s > SLANT_CLAMP {
            SLANT_CLAMP
        } else if s < -SLANT_CLAMP {
            -SLANT_CLAMP
        } else {
            s
        };
        s_sum = s_sum + sc;
        i = i + 1;
    }
    if w_sum == 0 {
        return None;
    }
    let n = records.len();
    proof {
        assert(0 <= a_sum * (upem as int) <= 0x10_0000_0000_0000_0000_0000_0000_0000)
            by (nonlinear_arith)
            requires
                0 <= a_sum <= 100_000 * 110_000_000_000_000_000,
                1 <= upem <= 0xFFFF,
        ;
        assert(0 < (upem as int) * (n as int) <= 0x1_0000_0000_0000) by (nonlinear_arith)
            requires
                1 <= upem <= 0xFFFF,
                1 <= n <= 100_000,
        ;
    }
    Some(
        WholeFontStatistics {
            weight: Rational::new(a_sum * (upem as i128), 60_000_000 * w_sum),
            weight_perceptual: Rational::new(wa_sum, 60_000_000 * w_sum),
            width: Rational::new(w_sum, (upem as i128) * (n as i128)),
            slant_ratio: Rational::new(s_sum, 1000 * (n as i128)),
        },
    )
}

} // verus!
