//! Stroke contrast, by two methods.
//!
//! The ray-cast method compares the stroke thickness measured by a
//! northward cast with that of an eastward cast, both under the ink policy:
//! per northward probe only the smallest pair distance counts, outliers are
//! rejected, and the contrast is the ratio of the two medians.
//!
//! The antiqua method works on measured chords of the thickest subpath's
//! skeleton: for each skeleton vertex the sweep's candidate chords arrive
//! with their lengths, outliers are rejected per vertex and the shortest
//! chord kept as that vertex's stroke; after a second, global rejection the
//! contrast is the longest over the shortest stroke, and the contrast angle
//! is read off the vector between the shortest stroke and a second minimum
//! found at least a quarter of the vertex count away.

use crate::outline::Pt;
use crate::raycaster::{
    median_pair_distance_spec, pairs_spec, snap_view, CastSnapshot, ProportionalPoint, Raycaster,
    Winding,
};
use crate::results::Rational;
use crate::stats::{
    median_spec, quartile1, quartile3, reject_outliers, reject_outliers_spec, within_fences,
};
use vstd::prelude::*;

verus! {

/// The distance of one crossing pair.
pub open spec fn gap_of(p: (i64, i64)) -> i64 {
    (p.1 - p.0) as i64
}

/// The smallest pair distance of one probe, from pair `i` on.
pub open spec fn min_gap_from(ps: Seq<(i64, i64)>, i: int) -> Option<i64>
    decreases ps.len() - i,
{
    if i < 0 || i >= ps.len() {
        Option::None
    } else {
        match min_gap_from(ps, i + 1) {
            Option::None => Some(gap_of(ps[i])),
            Some(m) => Some(
                if gap_of(ps[i]) <= m {
                    gap_of(ps[i])
                } else {
                    m
                },
            ),
        }
    }
}

/// The smallest pair distance each probe keeps, probes without pairs left
/// out.
pub open spec fn probe_min_gaps(rays: Seq<Seq<i64>>, w: Option<Winding>) -> Seq<i64> {
    Seq::new(rays.len(), |i: int| min_gap_from(pairs_spec(rays[i], w), 0)).filter(
        |o: Option<i64>| o is Some,
    ).map_values(|o: Option<i64>| o->0)
}

/// The ray-cast stroke contrast: the eastward reduction over the median of
/// the per-probe minimum northward distances, after outlier rejection.
/// Nothing when the north cast keeps no distance or its median is not
/// positive.
pub open spec fn raycaster_contrast_spec(
    north: Seq<Seq<i64>>,
    east: Seq<Seq<i64>>,
) -> Option<Rational> {
    let kept = reject_outliers_spec(probe_min_gaps(north, Some(Winding::Ink)));
    if kept.len() == 0 {
        Option::None
    } else {
        let h = median_spec(kept);
        if h <= 0 {
            Option::None
        } else {
            Some(
                Rational {
                    num: median_pair_distance_spec(east, Some(Winding::Ink), true) as i128,
                    den: h as i128,
                },
            )
        }
    }
}

fn min_gap_exec(ps: &Vec<(i64, i64)>) -> (r: Option<i64>)
    ensures
        r == min_gap_from(ps@, 0),
{
    if ps.len() == 0 {
        return None;
    }
    let mut i: usize = ps.len();
    let mut best: Option<i64> = None;
    while i > 0
        invariant
            0 <= i <= ps@.len(),
            best == min_gap_from(ps@, i as int),
        decreases i,
    {
        i = i - 1;
        let (a, b) = ps[i];
        let g: i64 = (((b as i128) - (a as i128)) as i64);
        proof {
            assert(g == gap_of(ps@[i as int]));
        }
        best = match best {
            None => Some(g),
            Some(m) => Some(
                if g <= m {
                    g
                } else {
                    m
                },
            ),
        };
    }
    best
}

/// The smallest pair distance of each probe that has one.
pub fn per_probe_min_gaps(snap_pairs: &Vec<Vec<(i64, i64)>>, Ghost(rays): Ghost<Seq<Seq<i64>>>, Ghost(
    w,
): Ghost<Option<Winding>>) -> (r: Vec<i64>)
    requires
        snap_pairs@.len() == rays.len(),
        forall|i: int| 0 <= i < rays.len() ==> (#[trigger] snap_pairs@[i])@ == pairs_spec(rays[i], w),
    ensures
        r@ == probe_min_gaps(rays, w),
{
    let ghost opts = Seq::new(rays.len(), |i: int| min_gap_from(pairs_spec(rays[i], w), 0));
    let ghost pred = |o: Option<i64>| o is Some;
    let mut out: Vec<i64> = Vec::new();
    let mut i: usize = 0;
    proof {
        reveal(Seq::filter);
        assert(opts.take(0).filter(pred) =~= Seq::<Option<i64>>::empty());
        assert(out@ =~= opts.take(0).filter(pred).map_values(|o: Option<i64>| o->0));
    }
    while i < snap_pairs.len()
        invariant
            0 <= i <= rays.len(),
            snap_pairs@.len() == rays.len(),
            forall|k: int|
                0 <= k < rays.len() ==> (#[trigger] snap_pairs@[k])@ == pairs_spec(rays[k], w),
            opts == Seq::new(rays.len(), |k: int| min_gap_from(pairs_spec(rays[k], w), 0)),
            pred == (|o: Option<i64>| o is Some),
            out@ == opts.take(i as int).filter(pred).map_values(|o: Option<i64>| o->0),
        decreases rays.len() - i,
    {
        let m = min_gap_exec(&snap_pairs[i]);
        proof {
            assert(opts[i as int] == m);
            crate::stats::lemma_filter_push(opts.take(i as int), pred, opts[i as int]);
            assert(opts.take(i as int).push(opts[i as int]) =~= opts.take(i as int + 1));
        }
        match m {
            Some(g) => {
                proof {
                    assert(opts.take(i as int + 1).filter(pred).map_values(|o: Option<i64>| o->0)
                        =~= out@.push(g));
                }
                out.push(g);
            },
            None => {
                proof {
                    assert(opts.take(i as int + 1).filter(pred).map_values(|o: Option<i64>| o->0)
                        =~= out@);
                }
            },
        }
        i = i + 1;
    }
    proof {
        assert(opts.take(rays.len() as int) =~= opts);
    }
    out
}

/// The ray-cast stroke contrast of a northward and an eastward cast, both
/// already under the ink policy.
pub fn stroke_contrast_raycaster(
    north: &Raycaster,
    north_snap: &CastSnapshot,
    east: &Raycaster,
    east_snap: &CastSnapshot,
) -> (r: Option<Rational>)
    requires
        north.winding == Some(Winding::Ink),
        east.winding == Some(Winding::Ink),
    ensures
        r == raycaster_contrast_spec(snap_view(*north_snap), snap_view(*east_snap)),
        r is Some ==> r->0.wf(),
{
    let ps = north.pairs(north_snap);
    proof {
        assert(ps@.len() == snap_view(*north_snap).len());
    }
    let mins = per_probe_min_gaps(&ps, Ghost(snap_view(*north_snap)), Ghost(Some(Winding::Ink)));
    let kept = reject_outliers(&mins);
    if kept.len() == 0 {
        return None;
    }
    let h = crate::stats::median(&kept);
    if h <= 0 {
        return None;
    }
    let v = east.median_pair_distance(east_snap, true);
    Some(Rational::new(v as i128, h as i128))
}

/// One ray-cast contrast preset: the glyph, its weight in the combination,
/// the two probe starts in millionths of the box span, and each caster's
/// jitter amplitude and sample count; no jitter keeps the caster's defaults.
pub struct ContrastPreset {
    pub glyph: char,
    pub weight: u8,
    pub north_start: ProportionalPoint,
    pub east_start: ProportionalPoint,
    pub north_jitter: Option<(i64, usize)>,
    pub east_jitter: Option<(i64, usize)>,
}

/// Whether a contrast preset is exactly the given configuration.
pub open spec fn contrast_preset_is(
    p: ContrastPreset,
    glyph: char,
    weight: u8,
    north_start: ProportionalPoint,
    east_start: ProportionalPoint,
    north_jitter: Option<(i64, usize)>,
    east_jitter: Option<(i64, usize)>,
) -> bool {
    &&& p.glyph == glyph
    &&& p.weight == weight
    &&& p.north_start == north_start
    &&& p.east_start == east_start
    &&& p.north_jitter == north_jitter
    &&& p.east_jitter == east_jitter
}

/// The fixed glyph presets of the ray-cast contrast, in their weighted
/// order: the lowercase o with dense jittered probes, then the capital H and
/// T and the lowercase n at the caster's default jitter.
pub fn contrast_presets() -> (r: Vec<ContrastPreset>)
    ensures
        r@.len() == 4,
        contrast_preset_is(
            r@[0],
            'o',
            5,
            (ProportionalPoint { x_ppm: 500_000, y_ppm: 0 }),
            (ProportionalPoint { x_ppm: 0, y_ppm: 500_000 }),
            Some((200_000i64, 20usize)),
            Some((200_000i64, 50usize)),
        ),
        contrast_preset_is(
            r@[1],
            'H',
            3,
            (ProportionalPoint { x_ppm: 500_000, y_ppm: 0 }),
            (ProportionalPoint { x_ppm: 0, y_ppm: 150_000 }),
            Option::<(i64, usize)>::None,
            Option::<(i64, usize)>::None,
        ),
        contrast_preset_is(
            r@[2],
            'T',
            2,
            (ProportionalPoint { x_ppm: 100_000, y_ppm: 0 }),
            (ProportionalPoint { x_ppm: 0, y_ppm: 500_000 }),
            Option::<(i64, usize)>::None,
            Option::<(i64, usize)>::None,
        ),
        contrast_preset_is(
            r@[3],
            'n',
            4,
            (ProportionalPoint { x_ppm: 400_000, y_ppm: 500_000 }),
            (ProportionalPoint { x_ppm: 0, y_ppm: 500_000 }),
            Option::<(i64, usize)>::None,
            Option::<(i64, usize)>::None,
        ),
{
    let mut out: Vec<ContrastPreset> = Vec::new();
    out.push(
        ContrastPreset {
            glyph: 'o',
            weight: 5,
            north_start: ProportionalPoint::new(500_000, 0),
            east_start: ProportionalPoint::new(0, 500_000),
            north_jitter: Some((200_000, 20)),
            east_jitter: Some((200_000, 50)),
        },
    );
    out.push(
        ContrastPreset {
            glyph: 'H',
            weight: 3,
            north_start: ProportionalPoint::new(500_000, 0),
            east_start: ProportionalPoint::new(0, 150_000),
            north_jitter: None,
            east_jitter: None,
        },
    );
    out.push(
        ContrastPreset {
            glyph: 'T',
            weight: 2,
            north_start: ProportionalPoint::new(100_000, 0),
            east_start: ProportionalPoint::new(0, 500_000),
            north_jitter: None,
            east_jitter: None,
        },
    );
    out.push(
        ContrastPreset {
            glyph: 'n',
            weight: 4,
            north_start: ProportionalPoint::new(400_000, 500_000),
            east_start: ProportionalPoint::new(0, 500_000),
            north_jitter: None,
            east_jitter: None,
        },
    );
    out
}

/// A contrast ratio quantized to thousandths.
pub open spec fn contrast_milli(c: Rational) -> int {
    crate::fixed::div_round(1000 * c.num, c.den as int)
}

/// The weighted sum of the quantized contrasts of the first `i` glyphs.
pub open spec fn contrast_weighted_sum(cs: Seq<(Rational, u8)>, i: int) -> int
    decreases i,
{
    if i <= 0 {
        0
    } else {
        contrast_weighted_sum(cs, i - 1) + (cs[i - 1].1 as int) * contrast_milli(cs[i - 1].0)
    }
}

/// The sum of the glyph weights of the first `i` entries.
pub open spec fn contrast_weight_total(cs: Seq<(Rational, u8)>, i: int) -> int
    decreases i,
{
    if i <= 0 {
        0
    } else {
        contrast_weight_total(cs, i - 1) + cs[i - 1].1 as int
    }
}

/// Combines the per-glyph contrasts under their fixed weights: each ratio
/// quantized to thousandths, then averaged. Nothing when no weight was
/// gathered.
pub fn combined_contrast(contrasts: &Vec<(Rational, u8)>) -> (r: Option<Rational>)
    requires
        contrasts@.len() <= 16,
        forall|i: int|
            0 <= i < contrasts@.len() ==> (#[trigger] contrasts@[i]).0.wf()
                && -0x1000_0000_0000_0000_0000 <= contrasts@[i].0.num
                <= 0x1000_0000_0000_0000_0000 && contrasts@[i].0.den
                <= 0x1000_0000_0000_0000_0000,
    ensures
        match r {
            Some(v) => contrast_weight_total(contrasts@, contrasts@.len() as int) > 0 && v.num
                == contrast_weighted_sum(contrasts@, contrasts@.len() as int) && v.den == 1000
                * contrast_weight_total(contrasts@, contrasts@.len() as int) && v.wf(),
            None => contrast_weight_total(contrasts@, contrasts@.len() as int) == 0,
        },
{
    let mut sum: i128 = 0;
    let mut total: i128 = 0;
    let mut i: usize = 0;
    while i < contrasts.len()
        invariant
            0 <= i <= contrasts@.len(),
            contrasts@.len() <= 16,
            forall|k: int|
                0 <= k < contrasts@.len() ==> (#[trigger] contrasts@[k]).0.wf()
                    && -0x1000_0000_0000_0000_0000 <= contrasts@[k].0.num
                    <= 0x1000_0000_0000_0000_0000 && contrasts@[k].0.den
                    <= 0x1000_0000_0000_0000_0000,
            sum == contrast_weighted_sum(contrasts@, i as int),
            total == contrast_weight_total(contrasts@, i as int),
            -(i as int) * 0x4_0000_0000_0000_0000_0000_0000 <= sum <= (i as int)
                * 0x4_0000_0000_0000_0000_0000_0000,
            0 <= total <= (i as int) * 255,
        decreases contrasts@.len() - i,
    {
        let (c, w) = contrasts[i];
        proof {
            crate::fixed::lemma_div_round_bound(
                1000 * c.num as int,
                c.den as int,
                0x400_0000_0000_0000_0000_0000,
            );
            assert((0x400_0000_0000_0000_0000_0000) * (c.den as int)
                >= 0x400_0000_0000_0000_0000_0000 && (-0x400_0000_0000_0000_0000_0000) * (
            c.den as int) <= -0x400_0000_0000_0000_0000_0000) by (nonlinear_arith)
                requires
                    c.den >= 1,
            ;
        }
        let q = crate::fixed::div_round_i128(1000 * c.num, c.den);
        proof {
            assert(-255 * 0x400_0000_0000_0000_0000_0000 <= (w as int) * (q as int) <= 255
                * 0x400_0000_0000_0000_0000_0000) by (nonlinear_arith)
                requires
                    0 <= w <= 255,
                    -0x400_0000_0000_0000_0000_0000 <= q <= 0x400_0000_0000_0000_0000_0000,
            ;
        }
        sum = sum + (w as i128) * q;
        total = total + (w as i128);
        i = i + 1;
    }
    if total == 0 {
        return None;
    }
    Some(Rational::new(sum, 1000 * total))
}

/// One measured chord offered for a skeleton vertex: its two boundary
/// points, its midpoint and its length in milliunits.
#[derive(Clone, Copy, Debug, PartialEq, Eq, Structural)]
pub struct StrokeCandidate {
    pub p1: Pt,
    pub p2: Pt,
    pub half_way: Pt,
    pub distance: i64,
}

/// One chosen stroke: a measured chord at a skeleton vertex.
#[derive(Clone, Copy, Debug, PartialEq, Eq, Structural)]
pub struct Stroke {
    pub half_way: Pt,
    pub p1: Pt,
    pub p2: Pt,
    pub distance: i64,
    pub position: usize,
}

/// The candidate distances.
pub open spec fn cand_distances(cs: Seq<StrokeCandidate>) -> Seq<i64> {
    cs.map_values(|c: StrokeCandidate| c.distance)
}

/// The stroke distances.
pub open spec fn stroke_distances(cs: Seq<Stroke>) -> Seq<i64> {
    cs.map_values(|c: Stroke| c.distance)
}

/// Outlier rejection keyed by candidate distance: fewer than three
/// candidates are unchanged, and otherwise exactly those within the quartile
/// fences of the distances stay.
pub open spec fn reject_candidates_spec(cs: Seq<StrokeCandidate>) -> Seq<StrokeCandidate> {
    if cs.len() < 3 {
        cs
    } else {
        cs.filter(
            |c: StrokeCandidate|
                within_fences(
                    c.distance,
                    quartile1(cand_distances(cs)),
                    quartile3(cand_distances(cs)),
                ),
        )
    }
}

/// Outlier rejection keyed by stroke distance.
pub open spec fn reject_strokes_spec(cs: Seq<Stroke>) -> Seq<Stroke> {
    if cs.len() < 3 {
        cs
    } else {
        cs.filter(
            |c: Stroke|
                within_fences(
                    c.distance,
                    quartile1(stroke_distances(cs)),
                    quartile3(stroke_distances(cs)),
                ),
        )
    }
}

fn distances_of_candidates(cs: &Vec<StrokeCandidate>) -> (r: Vec<i64>)
    ensures
        r@ == cand_distances(cs@),
{
    let mut out: Vec<i64> = Vec::new();
    let mut i: usize = 0;
    while i < cs.len()
        invariant
            0 <= i <= cs@.len(),
            out@.len() == i,
            forall|k: int| 0 <= k < i ==> out@[k] == cs@[k].distance,
        decreases cs@.len() - i,
    {
        out.push(cs[i].distance);
        i = i + 1;
    }
    proof {
        assert(out@ =~= cand_distances(cs@));
    }
    out
}

/// Rejects outlier candidates by their distances.
pub fn reject_candidates(cs: &Vec<StrokeCandidate>) -> (r: Vec<StrokeCandidate>)
    ensures
        r@ == reject_candidates_spec(cs@),
        forall|i: int| 0 <= i < r@.len() ==> cs@.contains(#[trigger] r@[i]),
{
    if cs.len() < 3 {
        let r = cs.clone();
        proof {
            assert(r@ =~= cs@);
            assert forall|i: int| 0 <= i < r@.len() implies cs@.contains(#[trigger] r@[i]) by {
                assert(cs@[i] == r@[i]);
            }
        }
        return r;
    }
    let ds = distances_of_candidates(cs);
    let t = crate::stats::sort_values(&ds);
    let q1 = t[ds.len() / 4];
    let q3i: usize = ((ds.len() as u128) * 3 / 4) as usize;
    let q3 = t[q3i];
    proof {
        assert(q1 == quartile1(cand_distances(cs@)));
        assert(q3i == cand_distances(cs@).len() as int * 3 / 4);
        assert(q3 == quartile3(cand_distances(cs@)));
    }
    let ghost pred = |c: StrokeCandidate|
        within_fences(
            c.distance,
            quartile1(cand_distances(cs@)),
            quartile3(cand_distances(cs@)),
        );
    let mut out: Vec<StrokeCandidate> = Vec::new();
    let mut i: usize = 0;
    proof {
        reveal(Seq::filter);
        assert(cs@.take(0).filter(pred) =~= Seq::<StrokeCandidate>::empty());
    }
    while i < cs.len()
        invariant
            0 <= i <= cs@.len(),
            cs@.len() >= 3,
            q1 == quartile1(cand_distances(cs@)),
            q3 == quartile3(cand_distances(cs@)),
            pred == (|c: StrokeCandidate|
                within_fences(
                    c.distance,
                    quartile1(cand_distances(cs@)),
                    quartile3(cand_distances(cs@)),
                )),
            out@ == cs@.take(i as int).filter(pred),
            forall|k: int| 0 <= k < out@.len() ==> cs@.contains(#[trigger] out@[k]),
        decreases cs@.len() - i,
    {
        let c = cs[i];
        let iqr: i128 = (q3 as i128) - (q1 as i128);
        let keep = 2 * (c.distance as i128) >= 2 * (q1 as i128) - 3 * iqr && 2 * (
        c.distance as i128) <= 2 * (q3 as i128) + 3 * iqr;
        proof {
            assert(keep == pred(c));
            crate::stats::lemma_filter_push(cs@.take(i as int), pred, c);
            assert(cs@.take(i as int).push(c) =~= cs@.take(i as int + 1));
        }
        if keep {
            proof {
                assert(cs@.contains(c)) by {
                    assert(cs@[i as int] == c);
                }
            }
            out.push(c);
        }
        i = i + 1;
    }
    proof {
        assert(cs@.take(cs@.len() as int) =~= cs@);
    }
    out
}

/// The first position of the smallest candidate distance, from `i` on with
/// leader `m`.
pub open spec fn argmin_from(cs: Seq<StrokeCandidate>, i: int, m: int) -> int
    decreases cs.len() - i,
{
    if i < 0 || i >= cs.len() || m < 0 || m >= cs.len() {
        m
    } else if cs[i].distance < cs[m].distance {
        argmin_from(cs, i + 1, i)
    } else {
        argmin_from(cs, i + 1, m)
    }
}

/// The stroke each vertex keeps: its candidates rejected for outliers, the
/// first shortest of what stays. Vertices with nothing left are skipped.
pub open spec fn vertex_stroke(cs: Seq<StrokeCandidate>) -> Option<Stroke> {
    let kept = reject_candidates_spec(cs);
    if kept.len() == 0 {
        Option::None
    } else {
        let m = argmin_from(kept, 1, 0);
        Some(
            Stroke {
                half_way: kept[m].half_way,
                p1: kept[m].p1,
                p2: kept[m].p2,
                distance: kept[m].distance,
                position: 0,
            },
        )
    }
}

/// The strokes of all skeleton vertices, in order.
pub open spec fn strokes_spec(lists: Seq<Seq<StrokeCandidate>>) -> Seq<Stroke> {
    Seq::new(lists.len(), |i: int| vertex_stroke(lists[i])).filter(
        |o: Option<Stroke>| o is Some,
    ).map_values(|o: Option<Stroke>| o->0)
}

/// Chooses each vertex's stroke from its candidate chords.
pub fn antiqua_strokes(lists: &Vec<Vec<StrokeCandidate>>) -> (r: Vec<Stroke>)
    ensures
        r@ == strokes_spec(lists@.map_values(|v: Vec<StrokeCandidate>| v@)),
{
    let ghost lview = lists@.map_values(|v: Vec<StrokeCandidate>| v@);
    let ghost opts = Seq::new(lview.len(), |i: int| vertex_stroke(lview[i]));
    let ghost pred = |o: Option<Stroke>| o is Some;
    let mut out: Vec<Stroke> = Vec::new();
    let mut i: usize = 0;
    proof {
        reveal(Seq::filter);
        assert(opts.take(0).filter(pred) =~= Seq::<Option<Stroke>>::empty());
        assert(out@ =~= opts.take(0).filter(pred).map_values(|o: Option<Stroke>| o->0));
    }
    while i < lists.len()
        invariant
            0 <= i <= lview.len(),
            lists@.len() == lview.len(),
            lview == lists@.map_values(|v: Vec<StrokeCandidate>| v@),
            opts == Seq::new(lview.len(), |k: int| vertex_stroke(lview[k])),
            pred == (|o: Option<Stroke>| o is Some),
            out@ == opts.take(i as int).filter(pred).map_values(|o: Option<Stroke>| o->0),
        decreases lview.len() - i,
    {
        let kept = reject_candidates(&lists[i]);
        proof {
            assert(lview[i as int] == lists@[i as int]@);
            crate::stats::lemma_filter_push(opts.take(i as int), pred, opts[i as int]);
            assert(opts.take(i as int).push(opts[i as int]) =~= opts.take(i as int + 1));
        }
        if kept.len() > 0 {
            let mut m: usize = 0;
            let mut k: usize = 1;
            while k < kept.len()
                invariant
                    0 <= m < kept@.len(),
                    1 <= k <= kept@.len(),
                    argmin_from(kept@, k as int, m as int) == argmin_from(kept@, 1, 0),
                decreases kept@.len() - k,
            {
                if kept[k].distance < kept[m].distance {
                    m = k;
                }
                k = k + 1;
            }
            let c = kept[m];
            let st = Stroke {
                half_way: c.half_way,
                p1: c.p1,
                p2: c.p2,
                distance: c.distance,
                position: 0,
            };
            proof {
                assert(opts[i as int] == Some(st));
                assert(opts.take(i as int + 1).filter(pred).map_values(|o: Option<Stroke>| o->0)
                    =~= out@.push(st));
            }
            out.push(st);
        } else {
            proof {
                assert(opts[i as int] is None);
                assert(opts.take(i as int + 1).filter(pred).map_values(|o: Option<Stroke>| o->0)
                    =~= out@);
            }
        }
        i = i + 1;
    }
    proof {
        assert(opts.take(lview.len() as int) =~= opts);
    }
    out
}

/// The lexicographic order on a distance paired with its position: the
/// stable order of strokes by distance.
pub open spec fn rank_le(a: (i64, usize), b: (i64, usize)) -> bool {
    a.0 < b.0 || (a.0 == b.0 && a.1 <= b.1)
}

/// The distance ranks of a stroke list: each distance with its position,
/// sorted ascending, positions breaking ties.
pub open spec fn ranks_of(cs: Seq<Stroke>) -> Seq<(i64, usize)> {
    Seq::new(cs.len(), |i: int| (cs[i].distance, i as usize)).sort_by(
        |a: (i64, usize), b: (i64, usize)| rank_le(a, b),
    )
}

proof fn lemma_rank_le_total()
    ensures
        vstd::relations::total_ordering(|a: (i64, usize), b: (i64, usize)| rank_le(a, b)),
{
    let leq = |a: (i64, usize), b: (i64, usize)| rank_le(a, b);
    assert forall|x: (i64, usize), y: (i64, usize)| #[trigger] leq(x, y) && #[trigger] leq(
        y,
        x,
    ) implies x == y by {}
    assert(vstd::relations::reflexive(leq)) by {
        assert forall|x: (i64, usize)| #[trigger] leq(x, x) by {}
    }
    assert(vstd::relations::transitive(leq)) by {
        assert forall|x: (i64, usize), y: (i64, usize), z: (i64, usize)|
            #[trigger] leq(x, y) && #[trigger] leq(y, z) implies leq(x, z) by {}
    }
    assert(vstd::relations::antisymmetric(leq)) by {
        assert forall|x: (i64, usize), y: (i64, usize)| #[trigger] leq(x, y) && #[trigger] leq(
            y,
            x,
        ) implies x == y by {}
    }
    assert(vstd::relations::strongly_connected(leq)) by {
        assert forall|x: (i64, usize), y: (i64, usize)| #[trigger] leq(x, y) || #[trigger] leq(
            y,
            x,
        ) by {}
    }
}

/// Sorts the distance ranks of the strokes.
fn sort_ranks(cs: &Vec<Stroke>) -> (r: Vec<(i64, usize)>)
    ensures
        r@ == ranks_of(cs@),
        r@.len() == cs@.len(),
{
    let ghost base = Seq::new(cs@.len(), |i: int| (cs@[i].distance, i as usize));
    let mut rest: Vec<(i64, usize)> = Vec::new();
    let mut i: usize = 0;
    while i < cs.len()
        invariant
            0 <= i <= cs@.len(),
            base == Seq::new(cs@.len(), |k: int| (cs@[k].distance, k as usize)),
            rest@ == base.take(i as int),
        decreases cs@.len() - i,
    {
        rest.push((cs[i].distance, i));
        proof {
            assert(base.take(i as int).push((cs@[i as int].distance, i as usize)) =~= base.take(
                i as int + 1,
            ));
        }
        i = i + 1;
    }
    proof {
        assert(base.take(cs@.len() as int) =~= base);
    }
    let ghost leq = |a: (i64, usize), b: (i64, usize)| rank_le(a, b);
    let mut out: Vec<(i64, usize)> = Vec::new();
    proof {
        broadcast use vstd::seq_lib::group_to_multiset_ensures;

        assert(out@.to_multiset().add(rest@.to_multiset()) =~= base.to_multiset());
    }
    while rest.len() > 0
        invariant
            out@.to_multiset().add(rest@.to_multiset()) == base.to_multiset(),
            out@.len() + rest@.len() == base.len(),
            vstd::relations::sorted_by(out@, leq),
            leq == (|a: (i64, usize), b: (i64, usize)| rank_le(a, b)),
            forall|a: int, b: int|
                0 <= a < out@.len() && 0 <= b < rest@.len() ==> rank_le(out@[a], rest@[b]),
        decreases rest@.len(),
    {
        let mut m: usize = 0;
        let mut k: usize = 1;
        while k < rest.len()
            invariant
                0 <= m < k <= rest@.len(),
                rest@.len() > 0,
                forall|j: int| 0 <= j < k ==> rank_le(rest@[m as int], #[trigger] rest@[j]),
            decreases rest@.len() - k,
        {
            let better = rest[k].0 < rest[m].0 || (rest[k].0 == rest[m].0 && rest[k].1 < rest[m].1);
            if better {
                m = k;
            }
            k = k + 1;
        }
        let x = rest.remove(m);
        out.push(x);
        proof {
            broadcast use vstd::seq_lib::group_to_multiset_ensures;
        }
    }
    proof {
        broadcast use vstd::seq_lib::group_to_multiset_ensures;

        lemma_rank_le_total();
        base.lemma_sort_by_ensures(leq);
        assert(out@.to_multiset() =~= base.to_multiset());
        vstd::seq_lib::lemma_sorted_unique(out@, base.sort_by(leq), leq);
        assert(out@ =~= ranks_of(cs@));
    }
    out
}

/// The second minimum's position: the first rank past the smallest whose
/// position lies more than a quarter of the stroke count past the smallest
/// one's, so that two adjacent, nearly identical minima are not compared.
pub open spec fn second_min_from(ranks: Seq<(i64, usize)>, i: int, min_pos: int, n: int) -> Option<
    int,
>
    decreases ranks.len() - i,
{
    if i < 1 || i >= ranks.len() {
        Option::None
    } else if ranks[i].1 - min_pos > n / 4 {
        Some(ranks[i].1 as int)
    } else {
        second_min_from(ranks, i + 1, min_pos, n)
    }
}

/// Whether a stroke is valid: a measured chord of positive length. A chord
/// whose two crossings coincide carries no thickness and never counts.
pub open spec fn stroke_valid(c: Stroke) -> bool {
    c.distance > 0
}

/// The antiqua contrast of the chosen strokes: after a global outlier
/// rejection and with invalid strokes left out, the longest over the
/// shortest valid stroke, with the vector from the second minimum's midpoint
/// to the shortest stroke's midpoint for the contrast angle. Nothing exactly
/// when fewer than two valid strokes remain.
pub open spec fn antiqua_contrast_spec(strokes: Seq<Stroke>) -> Option<
    (Rational, Option<(int, int)>),
> {
    let kept = reject_strokes_spec(strokes).filter(|c: Stroke| stroke_valid(c));
    if kept.len() < 2 {
        Option::None
    } else {
        let ranks = ranks_of(kept);
        let min_i = ranks[0].1 as int;
        let max_i = ranks[ranks.len() - 1].1 as int;
        let angle = match second_min_from(ranks, 1, min_i, kept.len() as int) {
            Option::None => Option::None,
            Some(s) => Some(
                (
                    kept[min_i].half_way.x - kept[s].half_way.x,
                    kept[min_i].half_way.y - kept[s].half_way.y,
                ),
            ),
        };
        Some(
            (
                Rational {
                    num: kept[max_i].distance as i128,
                    den: kept[min_i].distance as i128,
                },
                angle,
            ),
        )
    }
}

/// Rejects outlier strokes by their distances.
pub fn reject_strokes(cs: &Vec<Stroke>) -> (r: Vec<Stroke>)
    ensures
        r@ == reject_strokes_spec(cs@),
        forall|i: int| 0 <= i < r@.len() ==> cs@.contains(#[trigger] r@[i]),
{
    if cs.len() < 3 {
        let r = cs.clone();
        proof {
            assert(r@ =~= cs@);
            assert forall|i: int| 0 <= i < r@.len() implies cs@.contains(#[trigger] r@[i]) by {
                assert(cs@[i] == r@[i]);
            }
        }
        return r;
    }
    let mut ds: Vec<i64> = Vec::new();
    let mut i: usize = 0;
    while i < cs.len()
        invariant
            0 <= i <= cs@.len(),
            ds@.len() == i,
            forall|k: int| 0 <= k < i ==> ds@[k] == cs@[k].distance,
        decreases cs@.len() - i,
    {
        ds.push(cs[i].distance);
        i = i + 1;
    }
    proof {
        assert(ds@ =~= stroke_distances(cs@));
    }
    let t = crate::stats::sort_values(&ds);
    let q1 = t[ds.len() / 4];
    let q3i: usize = ((ds.len() as u128) * 3 / 4) as usize;
    let q3 = t[q3i];
    proof {
        assert(q1 == quartile1(stroke_distances(cs@)));
        assert(q3i == stroke_distances(cs@).len() as int * 3 / 4);
        assert(q3 == quartile3(stroke_distances(cs@)));
    }
    let ghost pred = |c: Stroke|
        within_fences(
            c.distance,
            quartile1(stroke_distances(cs@)),
            quartile3(stroke_distances(cs@)),
        );
    let mut out: Vec<Stroke> = Vec::new();
    let mut i: usize = 0;
    proof {
        reveal(Seq::filter);
        assert(cs@.take(0).filter(pred) =~= Seq::<Stroke>::empty());
    }
    while i < cs.len()
        invariant
            0 <= i <= cs@.len(),
            cs@.len() >= 3,
            q1 == quartile1(stroke_distances(cs@)),
            q3 == quartile3(stroke_distances(cs@)),
            pred == (|c: Stroke|
                within_fences(
                    c.distance,
                    quartile1(stroke_distances(cs@)),
                    quartile3(stroke_distances(cs@)),
                )),
            out@ == cs@.take(i as int).filter(pred),
            forall|k: int| 0 <= k < out@.len() ==> cs@.contains(#[trigger] out@[k]),
        decreases cs@.len() - i,
    {
        let c = cs[i];
        let iqr: i128 = (q3 as i128) - (q1 as i128);
        let keep = 2 * (c.distance as i128) >= 2 * (q1 as i128) - 3 * iqr && 2 * (
        c.distance as i128) <= 2 * (q3 as i128) + 3 * iqr;
        proof {
            assert(keep == pred(c));
            crate::stats::lemma_filter_push(cs@.take(i as int), pred, c);
            assert(cs@.take(i as int).push(c) =~= cs@.take(i as int + 1));
            assert(cs@.contains(c)) by {
                assert(cs@[i as int] == c);
            }
        }
        if keep {
            out.push(c);
        }
        i = i + 1;
    }
    proof {
        assert(cs@.take(cs@.len() as int) =~= cs@);
    }
    out
}

/// The antiqua contrast and the contrast-angle vector of the chosen strokes.
pub fn antiqua_contrast(strokes: &Vec<Stroke>) -> (r: Option<(Rational, Option<(i64, i64)>)>)
    requires
        forall|i: int|
            0 <= i < strokes@.len() ==> -0x2000_0000_0000_0000 <= (
            #[trigger] strokes@[i]).half_way.x <= 0x2000_0000_0000_0000
                && -0x2000_0000_0000_0000 <= strokes@[i].half_way.y <= 0x2000_0000_0000_0000,
    ensures
        match (r, antiqua_contrast_spec(strokes@)) {
            (Some((c, a)), Some((cs, as_))) => c == cs && (match (a, as_) {
                (Some(v), Some(vs)) => v.0 as int == vs.0 && v.1 as int == vs.1,
                (None, None) => true,
                _ => false,
            }) && c.wf(),
            (None, None) => true,
            _ => false,
        },
{
    let survivors = reject_strokes(strokes);
    let ghost pred = |c: Stroke| stroke_valid(c);
    let mut kept: Vec<Stroke> = Vec::new();
    let mut j: usize = 0;
    proof {
        reveal(Seq::filter);
        assert(survivors@.take(0).filter(pred) =~= Seq::<Stroke>::empty());
    }
    while j < survivors.len()
        invariant
            0 <= j <= survivors@.len(),
            pred == (|c: Stroke| stroke_valid(c)),
            kept@ == survivors@.take(j as int).filter(pred),
            forall|k: int| 0 <= k < survivors@.len() ==> strokes@.contains(#[trigger] survivors@[k]),
            forall|k: int| 0 <= k < kept@.len() ==> strokes@.contains(#[trigger] kept@[k]),
        decreases survivors@.len() - j,
    {
        let c = survivors[j];
        proof {
            crate::stats::lemma_filter_push(survivors@.take(j as int), pred, c);
            assert(survivors@.take(j as int).push(c) =~= survivors@.take(j as int + 1));
            assert(strokes@.contains(c)) by {
                assert(survivors@[j as int] == c);
            }
        }
        if c.distance > 0 {
            kept.push(c);
        }
        j = j + 1;
    }
    proof {
        assert(survivors@.take(survivors@.len() as int) =~= survivors@);
        assert(kept@ == reject_strokes_spec(strokes@).filter(pred));
    }
    if kept.len() < 2 {
        return None;
    }
    proof {
        assert forall|i: int| 0 <= i < kept@.len() implies -0x2000_0000_0000_0000 <= (
        #[trigger] kept@[i]).half_way.x <= 0x2000_0000_0000_0000 && -0x2000_0000_0000_0000
            <= kept@[i].half_way.y <= 0x2000_0000_0000_0000 by {
            assert(strokes@.contains(kept@[i]));
            let w = choose|w: int| 0 <= w < strokes@.len() && #[trigger] strokes@[w] == kept@[i];
        }
    }
    let ranks = sort_ranks(&kept);
    proof {
        lemma_ranks_positions(kept@);
    }
    let min_i = ranks[0].1;
    let max_i = ranks[ranks.len() - 1].1;
    let smallest = kept[min_i];
    proof {
        assert(pred(kept@[min_i as int])) by {
            reject_strokes_spec(strokes@).lemma_filter_pred(pred, min_i as int);
        }
        assert(smallest.distance > 0);
    }
    let mut second: Option<usize> = None;
    let mut i: usize = 1;
    let n = kept.len();
    while i < ranks.len() && second.is_none()
        invariant
            1 <= i <= ranks@.len(),
            ranks@ == ranks_of(kept@),
            n == kept@.len(),
            forall|k: int| 0 <= k < ranks@.len() ==> (#[trigger] ranks@[k]).1 < kept@.len(),
            match second {
                Some(sv) => second_min_from(ranks@, 1, min_i as int, n as int) == Some(sv as int)
                    && sv < kept@.len(),
                None => second_min_from(ranks@, i as int, min_i as int, n as int)
                    == second_min_from(ranks@, 1, min_i as int, n as int),
            },
        decreases ranks@.len() - i,
    {
        let past = ranks[i].1 > min_i && ranks[i].1 - min_i > n / 4;
        proof {
            assert((ranks@[i as int].1 - min_i as int > n as int / 4) == past);
        }
        if past {
            second = Some(ranks[i].1);
        }
        i = i + 1;
    }
    proof {
        if second is None {
            assert(second_min_from(ranks@, ranks@.len() as int, min_i as int, n as int) is None);
        }
    }
    let angle: Option<(i64, i64)> = match second {
        Some(s) => {
            let sm = kept[s];
            Some((smallest.half_way.x - sm.half_way.x, smallest.half_way.y - sm.half_way.y))
        },
        None => None,
    };
    let largest = kept[max_i];
    Some((Rational::new(largest.distance as i128, smallest.distance as i128), angle))
}

/// Every rank's position indexes the stroke list.
proof fn lemma_ranks_positions(cs: Seq<Stroke>)
    ensures
        ranks_of(cs).len() == cs.len(),
        forall|k: int| 0 <= k < ranks_of(cs).len() ==> (#[trigger] ranks_of(cs)[k]).1 < cs.len(),
{
    let base = Seq::new(cs.len(), |i: int| (cs[i].distance, i as usize));
    let leq = |a: (i64, usize), b: (i64, usize)| rank_le(a, b);
    base.lemma_sort_by_ensures(leq);
    broadcast use vstd::seq_lib::group_to_multiset_ensures;

    assert(base.to_multiset().len() == base.len());
    assert(base.sort_by(leq).to_multiset().len() == base.sort_by(leq).len());
    assert forall|k: int| 0 <= k < ranks_of(cs).len() implies (#[trigger] ranks_of(cs)[k]).1
        < cs.len() by {
        assert(base.sort_by(leq).to_multiset().contains(base.sort_by(leq)[k]));
        assert(base.to_multiset().contains(base.sort_by(leq)[k]));
        assert(base.contains(base.sort_by(leq)[k]));
        let w = choose|w: int| 0 <= w < base.len() && #[trigger] base[w] == base.sort_by(leq)[k];
        assert(base[w].1 == w as usize);
    }
}

} // verus!
