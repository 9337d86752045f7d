//! The ray caster: probe segments cast across an outline's bounding box in a
//! chosen direction, with optional jittered sampling, a winding policy that
//! pairs the crossing points, and an outlier-robust reduction of the pair
//! distances to one scalar.
//!
//! Coordinates are milliunits (a thousandth of a font unit); proportional
//! positions are millionths of the bounding box span. The caster builds the
//! probe geometry and reduces crossing offsets; the numerical intersection of
//! a probe with curve segments is the collaborator's part: the caller hands
//! back, for each probe, the crossing offsets along the probe measured in
//! milliunits from the short segment's start, together with the short
//! segment's length.
//!
//! The caster is used in two explicit phases: `probes` yields the probe
//! segments, and `cast` turns the crossing offsets into an immutable
//! snapshot that the pairing and reduction queries read.

use crate::fixed::{div_trunc, div_trunc_i128};
use crate::outline::{coords_bounded, Box2, Outline, Pt};
use crate::stats::{median, median_spec, reject_outliers, reject_outliers_spec};
use vstd::arithmetic::div_mod::{lemma_div_pos_is_pos, lemma_fundamental_div_mod};
use vstd::arithmetic::mul::{lemma_mul_inequality, lemma_mul_is_commutative};
use vstd::prelude::*;

verus! {

/// Millionths in one whole: the scale of proportional positions.
pub const PPM: i64 = 1_000_000;

/// Milliunits in one font unit: the scale of direction vectors.
pub const UNIT: i64 = 1000;

/// Crossings closer than this are merged, and crossings this close to the
/// probe's start are dropped: five font units, in milliunits.
pub const PROBE_EPSILON: i64 = 5000;

/// The margin added around the glyph's box so probes start and end outside
/// the shape: ten font units, in milliunits.
pub const BOX_MARGIN: i64 = 10_000;

/// The stride, in direction lengths, by which a probe is extended until it
/// leaves the bounding box.
pub const EXTEND_STRIDE: i64 = 300;

/// The largest coordinate magnitude an outline handed to the caster may have.
pub const RAY_INPUT_LIMIT: i64 = 0x1_0000_0000;

/// The largest proportional magnitude of a start or end position.
pub const FRACTION_LIMIT: i64 = 4_000_000;

/// The largest direction component magnitude.
pub const DIRECTION_LIMIT: i64 = 0x10_0000;

/// The most probes one cast may take.
pub const SAMPLE_LIMIT: usize = 10_000;

/// A point given as fractions of the bounding box span, in millionths.
#[derive(Clone, Copy, Debug, PartialEq, Eq, Structural)]
pub struct ProportionalPoint {
    pub x_ppm: i64,
    pub y_ppm: i64,
}

impl ProportionalPoint {
    /// A proportional point from its two fractions.
    pub fn new(x_ppm: i64, y_ppm: i64) -> (r: ProportionalPoint)
        ensures
            r.x_ppm == x_ppm && r.y_ppm == y_ppm,
    {
        ProportionalPoint { x_ppm, y_ppm }
    }
}

/// The direction of a probe: a vector in milliunits, or an explicit end
/// position from which the vector is derived.
#[derive(Clone, Copy, Debug)]
pub enum RayDirection {
    Vector(i64, i64),
    EndPoint(ProportionalPoint),
}

/// The eastward direction: one unit along the x axis.
pub fn east() -> (r: RayDirection)
    ensures
        r is Vector && r->Vector_0 == UNIT && r->Vector_1 == 0,
{
    RayDirection::Vector(UNIT, 0)
}

/// The northward direction: one unit along the y axis.
pub fn north() -> (r: RayDirection)
    ensures
        r is Vector && r->Vector_0 == 0 && r->Vector_1 == UNIT,
{
    RayDirection::Vector(0, UNIT)
}

/// The winding policy: which spans between consecutive crossings count.
#[derive(Clone, Copy, Debug, PartialEq, Eq, Structural)]
pub enum Winding {
    /// Interior spans: the shape's ink.
    Ink,
    /// Exterior spans: the gaps.
    Transparent,
}

/// One probe: the short segment bounding the measured region and the long
/// segment extended past the bounding box for robust intersection search.
#[derive(Clone, Copy, Debug, PartialEq, Eq, Structural)]
pub struct Probe {
    pub long_a: Pt,
    pub long_b: Pt,
    pub short_a: Pt,
    pub short_b: Pt,
}

/// The crossing data the collaborator hands back for one probe: the offsets
/// along the probe, in milliunits from the short segment's start, and the
/// short segment's length.
#[derive(Clone, Debug)]
pub struct ProbeCrossings {
    pub offsets: Vec<i64>,
    pub span: i64,
}

/// The processed crossings of all probes of one cast.
#[derive(Clone, Debug)]
pub struct CastSnapshot {
    pub rays: Vec<Vec<i64>>,
}

/// The direction vector a start and end position denote.
pub open spec fn endpoint_dir(s: ProportionalPoint, e: ProportionalPoint) -> (int, int) {
    (div_trunc(e.x_ppm - s.x_ppm, UNIT as int), div_trunc(e.y_ppm - s.y_ppm, UNIT as int))
}

/// The ray caster's configuration.
#[derive(Clone, Debug)]
pub struct Raycaster {
    pub bbox: Box2,
    pub start: ProportionalPoint,
    pub end: Option<ProportionalPoint>,
    pub dir_x: i64,
    pub dir_y: i64,
    pub winding: Option<Winding>,
    pub jitter_ppm: Option<i64>,
    pub samples: usize,
}

/// The caster's well-formedness: every field within the bounds the probe
/// arithmetic needs, and a direction that actually moves.
pub open spec fn rc_wf(rc: Raycaster) -> bool {
    &&& -0x100_0000_0000 <= rc.bbox.min_x <= rc.bbox.max_x <= 0x100_0000_0000
    &&& -0x100_0000_0000 <= rc.bbox.min_y <= rc.bbox.max_y <= 0x100_0000_0000
    &&& !(rc.dir_x == 0 && rc.dir_y == 0)
    &&& -DIRECTION_LIMIT <= rc.dir_x <= DIRECTION_LIMIT
    &&& -DIRECTION_LIMIT <= rc.dir_y <= DIRECTION_LIMIT
    &&& -FRACTION_LIMIT <= rc.start.x_ppm <= FRACTION_LIMIT
    &&& -FRACTION_LIMIT <= rc.start.y_ppm <= FRACTION_LIMIT
    &&& (rc.end is Some ==> -FRACTION_LIMIT <= rc.end->0.x_ppm <= FRACTION_LIMIT
        && -FRACTION_LIMIT <= rc.end->0.y_ppm <= FRACTION_LIMIT)
    &&& (rc.jitter_ppm is Some ==> 0 <= rc.jitter_ppm->0 <= PPM)
    &&& 1 <= rc.samples <= SAMPLE_LIMIT
}

impl Raycaster {
    /// A caster over the outline's bounding box, expanded by the margin, from
    /// a start position and a direction. Jitter starts at a tenth of the box
    /// with twelve samples and no winding policy, as sensible defaults.
    ///
    /// An end-point direction must denote a nonzero vector, and positions
    /// must stay within four box spans: a degenerate direction would never
    /// leave the box.
    pub fn new(outline: &Outline, start: ProportionalPoint, direction: RayDirection) -> (r:
        Raycaster)
        requires
            coords_bounded(outline@, RAY_INPUT_LIMIT as int),
            -FRACTION_LIMIT <= start.x_ppm <= FRACTION_LIMIT,
            -FRACTION_LIMIT <= start.y_ppm <= FRACTION_LIMIT,
            match direction {
                RayDirection::Vector(dx, dy) => !(dx == 0 && dy == 0) && -DIRECTION_LIMIT <= dx
                    <= DIRECTION_LIMIT && -DIRECTION_LIMIT <= dy <= DIRECTION_LIMIT,
                RayDirection::EndPoint(e) => {
                    &&& -FRACTION_LIMIT <= e.x_ppm <= FRACTION_LIMIT
                    &&& -FRACTION_LIMIT <= e.y_ppm <= FRACTION_LIMIT
                    &&& endpoint_dir(start, e) != (0int, 0int)
                },
            },
        ensures
            rc_wf(r),
            r.start == start,
            r.winding is None,
            r.jitter_ppm == Some(100_000i64),
            r.samples == 12,
            match direction {
                RayDirection::Vector(dx, dy) => r.dir_x == dx && r.dir_y == dy && r.end is None,
                RayDirection::EndPoint(e) => r.end == Some(e) && r.dir_x as int == endpoint_dir(
                    start,
                    e,
                ).0 && r.dir_y as int == endpoint_dir(start, e).1,
            },
            outline@.len() == 0 ==> r.bbox == (Box2 {
                min_x: (-BOX_MARGIN) as i64,
                min_y: (-BOX_MARGIN) as i64,
                max_x: BOX_MARGIN,
                max_y: BOX_MARGIN,
            }),
            outline@.len() > 0 ==> {
                &&& forall|p: Pt|
                    crate::outline::has_pt(outline@, p) ==> r.bbox.min_x + BOX_MARGIN <= p.x
                        <= r.bbox.max_x - BOX_MARGIN && r.bbox.min_y + BOX_MARGIN <= p.y
                        <= r.bbox.max_y - BOX_MARGIN
                &&& (exists|p: Pt|
                    crate::outline::has_pt(outline@, p) && p.x == r.bbox.min_x + BOX_MARGIN)
                &&& (exists|p: Pt|
                    crate::outline::has_pt(outline@, p) && p.x == r.bbox.max_x - BOX_MARGIN)
                &&& (exists|p: Pt|
                    crate::outline::has_pt(outline@, p) && p.y == r.bbox.min_y + BOX_MARGIN)
                &&& (exists|p: Pt|
                    crate::outline::has_pt(outline@, p) && p.y == r.bbox.max_y - BOX_MARGIN)
            },
    {
        let base = match outline.bbox() {
            Some(b) => b,
            None => Box2 { min_x: 0, min_y: 0, max_x: 0, max_y: 0 },
        };
        proof {
            if outline@.len() > 0 {
                lemma_box_of_bounded(outline@, base);
            }
        }
        let bbox = base.expanded(BOX_MARGIN);
        let (dir_x, dir_y, end) = match direction {
            RayDirection::Vector(dx, dy) => (dx, dy, None),
            RayDirection::EndPoint(e) => {
                let dx = div_trunc_i128((e.x_ppm as i128) - (start.x_ppm as i128), UNIT as i128);
                let dy = div_trunc_i128((e.y_ppm as i128) - (start.y_ppm as i128), UNIT as i128);
                (dx as i64, dy as i64, Some(e))
            },
        };
        Raycaster {
            bbox,
            start,
            end,
            dir_x,
            dir_y,
            winding: None,
            jitter_ppm: Some(100_000),
            samples: 12,
        }
    }

    /// Sets the winding policy.
    pub fn winding(&mut self, w: Winding)
        ensures
            *final(self) == (Raycaster { winding: Some(w), ..*old(self) }),
    {
        self.winding = Some(w);
    }

    /// Sets the jitter amplitude, in millionths of the box span, and the
    /// sample count.
    pub fn jitter(&mut self, jitter_ppm: i64, samples: usize)
        requires
            0 <= jitter_ppm <= PPM,
            1 <= samples <= SAMPLE_LIMIT,
        ensures
            *final(self) == (Raycaster { jitter_ppm: Some(jitter_ppm), samples, ..*old(self) }),
    {
        self.jitter_ppm = Some(jitter_ppm);
        self.samples = samples;
    }
}

proof fn lemma_box_of_bounded(v: Seq<crate::outline::SubView>, b: Box2)
    requires
        coords_bounded(v, RAY_INPUT_LIMIT as int),
        v.len() > 0,
        forall|p: Pt|
            crate::outline::has_pt(v, p) ==> b.min_x <= p.x <= b.max_x && b.min_y <= p.y
                <= b.max_y,
        exists|p: Pt| crate::outline::has_pt(v, p) && p.x == b.min_x,
        exists|p: Pt| crate::outline::has_pt(v, p) && p.x == b.max_x,
        exists|p: Pt| crate::outline::has_pt(v, p) && p.y == b.min_y,
        exists|p: Pt| crate::outline::has_pt(v, p) && p.y == b.max_y,
    ensures
        -RAY_INPUT_LIMIT <= b.min_x <= b.max_x <= RAY_INPUT_LIMIT,
        -RAY_INPUT_LIMIT <= b.min_y <= b.max_y <= RAY_INPUT_LIMIT,
{
    let p1 = choose|p: Pt| crate::outline::has_pt(v, p) && p.x == b.min_x;
    lemma_bounded_pt(v, p1);
    let p2 = choose|p: Pt| crate::outline::has_pt(v, p) && p.x == b.max_x;
    lemma_bounded_pt(v, p2);
    let p3 = choose|p: Pt| crate::outline::has_pt(v, p) && p.y == b.min_y;
    lemma_bounded_pt(v, p3);
    let p4 = choose|p: Pt| crate::outline::has_pt(v, p) && p.y == b.max_y;
    lemma_bounded_pt(v, p4);
}

proof fn lemma_bounded_pt(v: Seq<crate::outline::SubView>, p: Pt)
    requires
        coords_bounded(v, RAY_INPUT_LIMIT as int),
        crate::outline::has_pt(v, p),
    ensures
        -RAY_INPUT_LIMIT <= p.x <= RAY_INPUT_LIMIT,
        -RAY_INPUT_LIMIT <= p.y <= RAY_INPUT_LIMIT,
{
    let i = choose|i: int| 0 <= i < v.len() && crate::outline::sub_points(#[trigger] v[i]).contains(
        p,
    );
    let s = v[i];
    let k = choose|k: int|
        0 <= k < crate::outline::sub_points(s).len() && #[trigger] crate::outline::sub_points(s)[k]
            == p;
    if k == 0 {
        assert(p == s.start);
    } else {
        let f = |g: crate::outline::Segment| crate::outline::segment_points(g);
        let flat = s.segs.flat_map(f);
        assert(flat[k - 1] == p);
        lemma_flat_elem_origin(s.segs, f, k - 1);
        let (j, m) = choose|j: int, m: int|
            0 <= j < s.segs.len() && 0 <= m < f(s.segs[j]).len() && #[trigger] f(s.segs[j])[m]
                == flat[k - 1];
        assert(crate::outline::segment_bounded(s.segs[j], RAY_INPUT_LIMIT as int));
        assert(crate::outline::pt_bounded(f(s.segs[j])[m], RAY_INPUT_LIMIT as int));
    }
}

/// A probe point's largest coordinate magnitude.
pub const PROBE_PT_LIMIT: i64 = 0x200_0000_0000_0000;

/// The jitter offset of sample `i` of `n`, in millionths: the samples span
/// the jitter amplitude evenly on both sides of the start.
pub open spec fn jitter_ix_ppm(n: int, j: i64, i: int) -> int {
    div_trunc((2 * i - n) * (j as int), n)
}

/// A proportional position shifted along the perpendicular of the direction
/// by the sample's jitter offset.
pub open spec fn shifted_pp(pp: ProportionalPoint, dx: i64, dy: i64, ix: int) -> ProportionalPoint {
    ProportionalPoint {
        x_ppm: (pp.x_ppm + div_trunc((-(dy as int)) * ix, UNIT as int)) as i64,
        y_ppm: (pp.y_ppm + div_trunc((dx as int) * ix, UNIT as int)) as i64,
    }
}

/// The start and optional end position of sample `i`: jitter shifts both.
pub open spec fn sample_pp(rc: Raycaster, i: int) -> (ProportionalPoint, Option<
    ProportionalPoint,
>) {
    match rc.jitter_ppm {
        Some(j) => {
            let ix = jitter_ix_ppm(rc.samples as int, j, i);
            (
                shifted_pp(rc.start, rc.dir_x, rc.dir_y, ix),
                match rc.end {
                    Some(e) => Some(shifted_pp(e, rc.dir_x, rc.dir_y, ix)),
                    None => None,
                },
            )
        },
        None => (rc.start, rc.end),
    }
}

/// A proportional position resolved to absolute milliunits over the box.
pub open spec fn resolve_pp(pp: ProportionalPoint, b: Box2) -> Pt {
    Pt {
        x: (div_trunc((pp.x_ppm as int) * (b.max_x - b.min_x), PPM as int) + b.min_x) as i64,
        y: (div_trunc((pp.y_ppm as int) * (b.max_y - b.min_y), PPM as int) + b.min_y) as i64,
    }
}

/// The point displaced by `k` times the direction.
pub open spec fn pt_stepped(p: Pt, dx: i64, dy: i64, k: int) -> Pt {
    Pt { x: (p.x + k * (dx as int)) as i64, y: (p.y + k * (dy as int)) as i64 }
}

/// How many strides along one axis until the value leaves the half-open
/// range, or nothing when the stride does not move on this axis.
pub open spec fn axis_steps(v: int, s: int, lo: int, hi: int) -> Option<int> {
    if s > 0 {
        Some((hi - 1 - v) / s + 1)
    } else if s < 0 {
        Some((v - lo) / (-s) + 1)
    } else {
        Option::None
    }
}

/// How many strides until the point leaves the box: none when it is already
/// outside, else the first axis to leave decides.
pub open spec fn exit_steps(p: Pt, sx: i64, sy: i64, b: Box2) -> int {
    if !b.holds_spec(p) {
        0
    } else {
        match (
            axis_steps(p.x as int, sx as int, b.min_x as int, b.max_x as int),
            axis_steps(p.y as int, sy as int, b.min_y as int, b.max_y as int),
        ) {
            (Some(nx), Some(ny)) => if nx <= ny {
                nx
            } else {
                ny
            },
            (Some(nx), Option::None) => nx,
            (Option::None, Some(ny)) => ny,
            (Option::None, Option::None) => 0,
        }
    }
}

/// The first point outside the box reached by repeatedly adding the stride.
pub open spec fn exit_pt(p: Pt, sx: i64, sy: i64, b: Box2) -> Pt {
    let n = exit_steps(p, sx, sy, b);
    Pt { x: (p.x + n * (sx as int)) as i64, y: (p.y + n * (sy as int)) as i64 }
}

/// The box bound the exit arithmetic needs.
pub open spec fn exit_box_wf(b: Box2) -> bool {
    &&& -0x100_0000_0000 <= b.min_x <= b.max_x <= 0x100_0000_0000
    &&& -0x100_0000_0000 <= b.min_y <= b.max_y <= 0x100_0000_0000
}

/// Walks the point out of the box by whole strides, in closed form.
fn exit_point(p: Pt, sx: i64, sy: i64, b: Box2) -> (r: Pt)
    requires
        exit_box_wf(b),
        -PROBE_PT_LIMIT / 4 <= p.x <= PROBE_PT_LIMIT / 4,
        -PROBE_PT_LIMIT / 4 <= p.y <= PROBE_PT_LIMIT / 4,
        -0x4000_0000 <= sx <= 0x4000_0000,
        -0x4000_0000 <= sy <= 0x4000_0000,
        !(sx == 0 && sy == 0),
    ensures
        r == exit_pt(p, sx, sy, b),
        p.x - 0x340_0000_0000 <= r.x <= p.x + 0x340_0000_0000,
        p.y - 0x340_0000_0000 <= r.y <= p.y + 0x340_0000_0000,
{
    if !b.holds(p) {
        proof {
            assert(exit_steps(p, sx, sy, b) == 0);
        }
        return p;
    }
    let nx: Option<i128> = axis_steps_exec(p.x, sx, b.min_x, b.max_x);
    let ny: Option<i128> = axis_steps_exec(p.y, sy, b.min_y, b.max_y);
    let n: i128 = match (nx, ny) {
        (Some(a), Some(c)) => if a <= c {
            a
        } else {
            c
        },
        (Some(a), None) => a,
        (None, Some(c)) => c,
        (None, None) => 0,
    };
    proof {
        assert(n == exit_steps(p, sx, sy, b));
    }
    proof {
        assert(-0x1000_0000_0000_0000_0000 <= (n as int) * (sx as int) <= 0x1000_0000_0000_0000_0000
            && -0x1000_0000_0000_0000_0000 <= (n as int) * (sy as int)
            <= 0x1000_0000_0000_0000_0000) by (nonlinear_arith)
            requires
                0 <= n <= 0x400_0000_0000,
                -0x4000_0000 <= sx <= 0x4000_0000,
                -0x4000_0000 <= sy <= 0x4000_0000,
        ;
    }
    let mx: i128 = n * (sx as i128);
    let my: i128 = n * (sy as i128);
    proof {
        lemma_step_product_bound(p.x as int, sx as int, b.min_x as int, b.max_x as int, n as int);
        lemma_step_product_bound(p.y as int, sy as int, b.min_y as int, b.max_y as int, n as int);
    }
    Pt { x: ((p.x as i128) + mx) as i64, y: ((p.y as i128) + my) as i64 }
}

/// Steps along one axis, in executable form.
fn axis_steps_exec(v: i64, s: i64, lo: i64, hi: i64) -> (r: Option<i128>)
    requires
        lo <= v < hi,
        -0x100_0000_0000 <= lo <= hi <= 0x100_0000_0000,
        -PROBE_PT_LIMIT / 4 <= v <= PROBE_PT_LIMIT / 4,
        -0x4000_0000 <= s <= 0x4000_0000,
    ensures
        match r {
            Some(n) => axis_steps(v as int, s as int, lo as int, hi as int) == Some(n as int) && 1
                <= n <= 0x400_0000_0000,
            None => s == 0 && axis_steps(v as int, s as int, lo as int, hi as int) is None,
        },
{
    if s > 0 {
        let a: u128 = ((hi as i128) - 1 - (v as i128)) as u128;
        let q = a / (s as u128);
        proof {
            assert(q == (hi - 1 - v) as int / s as int);
            lemma_div_nonneg_le(a as int, s as int);
        }
        Some((q + 1) as i128)
    } else if s < 0 {
        let a: u128 = ((v as i128) - (lo as i128)) as u128;
        let q = a / ((-(s as i128)) as u128);
        proof {
            assert(q == (v - lo) as int / (-(s as int)));
            lemma_div_nonneg_le(a as int, -(s as int));
        }
        Some((q + 1) as i128)
    } else {
        None
    }
}

proof fn lemma_div_nonneg_le(a: int, b: int)
    requires
        a >= 0,
        b > 0,
    ensures
        0 <= a / b <= a,
{
    lemma_div_pos_is_pos(a, b);
    vstd::arithmetic::div_mod::lemma_div_nonincreasing(a, b);
}

/// The product of the chosen step count with one axis stride stays within
/// the walked-out distance: the count is at most that axis's own count, so
/// the product is at most one range plus one stride.
proof fn lemma_step_product_bound(v: int, s: int, lo: int, hi: int, n: int)
    requires
        lo <= v < hi,
        -0x100_0000_0000 <= lo <= hi <= 0x100_0000_0000,
        -0x8_0000_0000_0000_00 <= v <= 0x8_0000_0000_0000_00,
        -0x4000_0000 <= s <= 0x4000_0000,
        0 <= n,
        s != 0 ==> match axis_steps(v, s, lo, hi) {
            Some(m) => n <= m,
            Option::None => false,
        },
    ensures
        -0x300_0000_0000 - 0x4000_0000 <= n * s <= 0x300_0000_0000 + 0x4000_0000,
{
    if s == 0 {
        assert(n * s == 0) by (nonlinear_arith)
            requires
                s == 0,
        ;
    } else if s > 0 {
        let a = hi - 1 - v;
        let q = a / s;
        lemma_fundamental_div_mod(a, s);
        assert(s * q <= a);
        assert(n <= q + 1);
        lemma_mul_inequality(n, q + 1, s);
        assert((q + 1) * s == q * s + s) by (nonlinear_arith);
        lemma_mul_is_commutative(q, s);
        assert(n * s <= a + s);
        assert(n * s >= 0) by (nonlinear_arith)
            requires
                n >= 0,
                s > 0,
        ;
    } else {
        let t = -s;
        let a = v - lo;
        let q = a / t;
        lemma_fundamental_div_mod(a, t);
        assert(t * q <= a);
        assert(n <= q + 1);
        lemma_mul_inequality(n, q + 1, t);
        assert((q + 1) * t == q * t + t) by (nonlinear_arith);
        lemma_mul_is_commutative(q, t);
        assert(n * t <= a + t);
        assert(n * s == -(n * t)) by (nonlinear_arith)
            requires
                t == -s,
        ;
        assert(n * t >= 0) by (nonlinear_arith)
            requires
                n >= 0,
                t > 0,
        ;
    }
}

/// The largest proportional magnitude after a jitter shift.
pub const SHIFTED_PPM_LIMIT: i64 = 1_100_000_000;

/// The probe of sample `i`: the start resolved over the box; the end resolved
/// likewise or, without one, the first multiple of the direction outside the
/// box; the short segment widened by five direction lengths on each side; and
/// the long segment pushed outside the box by strides of three hundred
/// direction lengths.
pub open spec fn probe_of(rc: Raycaster, i: int) -> Probe {
    let (spp, epp) = sample_pp(rc, i);
    let s = resolve_pp(spp, rc.bbox);
    let e = match epp {
        Some(pp) => resolve_pp(pp, rc.bbox),
        Option::None => exit_pt(
            pt_stepped(s, rc.dir_x, rc.dir_y, 1),
            rc.dir_x,
            rc.dir_y,
            rc.bbox,
        ),
    };
    let s1 = pt_stepped(s, rc.dir_x, rc.dir_y, -5);
    let e1 = pt_stepped(e, rc.dir_x, rc.dir_y, 5);
    let bx = (-(EXTEND_STRIDE as int) * rc.dir_x) as i64;
    let by = (-(EXTEND_STRIDE as int) * rc.dir_y) as i64;
    let fx = ((EXTEND_STRIDE as int) * rc.dir_x) as i64;
    let fy = ((EXTEND_STRIDE as int) * rc.dir_y) as i64;
    let la = exit_pt(pt_stepped(s1, rc.dir_x, rc.dir_y, -(EXTEND_STRIDE as int)), bx, by, rc.bbox);
    let lb = exit_pt(pt_stepped(e1, rc.dir_x, rc.dir_y, EXTEND_STRIDE as int), fx, fy, rc.bbox);
    Probe { long_a: la, long_b: lb, short_a: s1, short_b: e1 }
}

/// How many probes one cast takes: the sample count under jitter, one
/// otherwise.
pub open spec fn sample_count(rc: Raycaster) -> int {
    if rc.jitter_ppm is Some {
        rc.samples as int
    } else {
        1
    }
}

/// The probes of one cast, in sample order.
pub open spec fn probes_spec(rc: Raycaster) -> Seq<Probe> {
    Seq::new(sample_count(rc) as nat, |i: int| probe_of(rc, i))
}

/// The jitter offset of one sample, in executable form.
fn jitter_ix_exec(n: usize, j: i64, i: usize) -> (r: i64)
    requires
        1 <= n <= SAMPLE_LIMIT,
        0 <= j <= PPM,
        i < n,
    ensures
        r as int == jitter_ix_ppm(n as int, j, i as int),
        -PPM <= r <= PPM,
{
    proof {
        assert(-((n as int) * (j as int)) <= (2 * (i as int) - (n as int)) * (j as int) <= (
        n as int) * (j as int)) by (nonlinear_arith)
            requires
                0 <= i < n,
                0 <= j,
        ;
        assert((n as int) * (j as int) <= SAMPLE_LIMIT as int * PPM as int) by (nonlinear_arith)
            requires
                0 <= n <= SAMPLE_LIMIT,
                0 <= j <= PPM,
        ;
        assert((n as int) * (j as int) == (j as int) * (n as int)) by (nonlinear_arith);
        assert((-(j as int)) * (n as int) == -((j as int) * (n as int))) by (nonlinear_arith);
        assert(-((n as int) * (j as int)) == (-(j as int)) * (n as int));
    }
    let a: i128 = (2 * (i as i128) - (n as i128)) * (j as i128);
    proof {
        crate::fixed::lemma_div_trunc_bound(a as int, n as int, j as int);
    }
    let q = div_trunc_i128(a, n as i128);
    q as i64
}

/// A proportional position shifted by one jitter offset, in executable form.
fn shift_pp_exec(pp: ProportionalPoint, dx: i64, dy: i64, ix: i64) -> (r: ProportionalPoint)
    requires
        -FRACTION_LIMIT <= pp.x_ppm <= FRACTION_LIMIT,
        -FRACTION_LIMIT <= pp.y_ppm <= FRACTION_LIMIT,
        -DIRECTION_LIMIT <= dx <= DIRECTION_LIMIT,
        -DIRECTION_LIMIT <= dy <= DIRECTION_LIMIT,
        -PPM <= ix <= PPM,
    ensures
        r == shifted_pp(pp, dx, dy, ix as int),
        -SHIFTED_PPM_LIMIT <= r.x_ppm <= SHIFTED_PPM_LIMIT,
        -SHIFTED_PPM_LIMIT <= r.y_ppm <= SHIFTED_PPM_LIMIT,
{
    proof {
        assert(-0x10_0000i64 * 1_000_000 <= (-(dy as int)) * (ix as int) <= 0x10_0000i64
            * 1_000_000 && -0x10_0000i64 * 1_000_000 <= (dx as int) * (ix as int) <= 0x10_0000i64
            * 1_000_000) by (nonlinear_arith)
            requires
                -DIRECTION_LIMIT <= dx <= DIRECTION_LIMIT,
                -DIRECTION_LIMIT <= dy <= DIRECTION_LIMIT,
                -PPM <= ix <= PPM,
                DIRECTION_LIMIT == 0x10_0000i64,
                PPM == 1_000_000i64,
        ;
        assert(0x10_0000i64 * 1_000_000 == 1_048_576_000_000);
        crate::fixed::lemma_div_trunc_bound(
            (-(dy as int)) * (ix as int),
            UNIT as int,
            1_048_576_000,
        );
        crate::fixed::lemma_div_trunc_bound((dx as int) * (ix as int), UNIT as int, 1_048_576_000);
    }
    let sx = div_trunc_i128((-(dy as i128)) * (ix as i128), UNIT as i128);
    let sy = div_trunc_i128((dx as i128) * (ix as i128), UNIT as i128);
    ProportionalPoint {
        x_ppm: pp.x_ppm + (sx as i64),
        y_ppm: pp.y_ppm + (sy as i64),
    }
}

/// A proportional position resolved over the box, in executable form.
fn resolve_exec(pp: ProportionalPoint, b: Box2) -> (r: Pt)
    requires
        exit_box_wf(b),
        -SHIFTED_PPM_LIMIT <= pp.x_ppm <= SHIFTED_PPM_LIMIT,
        -SHIFTED_PPM_LIMIT <= pp.y_ppm <= SHIFTED_PPM_LIMIT,
    ensures
        r == resolve_pp(pp, b),
        -0x40_0000_0000_0000 <= r.x <= 0x40_0000_0000_0000,
        -0x40_0000_0000_0000 <= r.y <= 0x40_0000_0000_0000,
{
    let w: i128 = (b.max_x as i128) - (b.min_x as i128);
    let h: i128 = (b.max_y as i128) - (b.min_y as i128);
    proof {
        assert(-1_100_000_000i64 as int * 0x200_0000_0000 <= (pp.x_ppm as int) * (w as int) <= (
        1_100_000_000i64 as int) * 0x200_0000_0000 && -1_100_000_000i64 as int * 0x200_0000_0000
            <= (pp.y_ppm as int) * (h as int) <= (1_100_000_000i64 as int)
            * 0x200_0000_0000) by (nonlinear_arith)
            requires
                0 <= w <= 0x200_0000_0000,
                0 <= h <= 0x200_0000_0000,
                -1_100_000_000 <= pp.x_ppm <= 1_100_000_000,
                -1_100_000_000 <= pp.y_ppm <= 1_100_000_000,
        ;
        assert(1_100_000_000i64 as int * 0x200_0000_0000 == 0x200_0000_0000 * 1_100_000_000
            && (0x200_0000_0000 * 1_100_000_000) as int / 1_000_000 * 1_000_000 <= 0x200_0000_0000
            * 1_100_000_000);
        crate::fixed::lemma_div_trunc_bound(
            (pp.x_ppm as int) * (w as int),
            PPM as int,
            (0x200_0000_0000 * 1_100_000_000 / 1_000_000) as int,
        );
        crate::fixed::lemma_div_trunc_bound(
            (pp.y_ppm as int) * (h as int),
            PPM as int,
            (0x200_0000_0000 * 1_100_000_000 / 1_000_000) as int,
        );
    }
    let qx = div_trunc_i128((pp.x_ppm as i128) * w, PPM as i128);
    let qy = div_trunc_i128((pp.y_ppm as i128) * h, PPM as i128);
    Pt { x: (qx + (b.min_x as i128)) as i64, y: (qy + (b.min_y as i128)) as i64 }
}

/// The point displaced by `k` direction lengths, in executable form.
fn step_pt_exec(p: Pt, dx: i64, dy: i64, k: i64) -> (r: Pt)
    requires
        -0x100_0000_0000_0000 <= p.x <= 0x100_0000_0000_0000,
        -0x100_0000_0000_0000 <= p.y <= 0x100_0000_0000_0000,
        -DIRECTION_LIMIT <= dx <= DIRECTION_LIMIT,
        -DIRECTION_LIMIT <= dy <= DIRECTION_LIMIT,
        -512 <= k <= 512,
    ensures
        r == pt_stepped(p, dx, dy, k as int),
        r.x == p.x + k * dx,
        r.y == p.y + k * dy,
{
    proof {
        assert(-512 * 0x10_0000 <= (k as int) * (dx as int) <= 512 * 0x10_0000 && -512 * 0x10_0000
            <= (k as int) * (dy as int) <= 512 * 0x10_0000) by (nonlinear_arith)
            requires
                -DIRECTION_LIMIT <= dx <= DIRECTION_LIMIT,
                -DIRECTION_LIMIT <= dy <= DIRECTION_LIMIT,
                -512 <= k <= 512,
                DIRECTION_LIMIT == 0x10_0000i64,
        ;
    }
    Pt { x: p.x + k * dx, y: p.y + k * dy }
}

impl Raycaster {
    /// The probe segments of one cast, in sample order: as many as the sample
    /// count under jitter, one otherwise.
    pub fn probes(&self) -> (r: Vec<Probe>)
        requires
            rc_wf(*self),
        ensures
            r@ =~= probes_spec(*self),
            r@.len() == sample_count(*self),
    {
        let count: usize = if self.jitter_ppm.is_some() {
            self.samples
        } else {
            1
        };
        let mut out: Vec<Probe> = Vec::new();
        let mut i: usize = 0;
        while i < count
            invariant
                rc_wf(*self),
                count == sample_count(*self),
                0 <= i <= count,
                out@.len() == i,
                forall|k: int| 0 <= k < i ==> out@[k] == probe_of(*self, k),
            decreases count - i,
        {
            out.push(self.one_probe(i));
            i = i + 1;
        }
        out
    }

    /// One probe of the cast.
    fn one_probe(&self, i: usize) -> (r: Probe)
        requires
            rc_wf(*self),
            i < sample_count(*self),
        ensures
            r == probe_of(*self, i as int),
    {
        let (spp, epp): (ProportionalPoint, Option<ProportionalPoint>) = match self.jitter_ppm {
            Some(j) => {
                let ix = jitter_ix_exec(self.samples, j, i);
                let s = shift_pp_exec(self.start, self.dir_x, self.dir_y, ix);
                let e = match self.end {
                    Some(epp0) => Some(shift_pp_exec(epp0, self.dir_x, self.dir_y, ix)),
                    None => None,
                };
                (s, e)
            },
            None => (self.start, self.end),
        };
        let s = resolve_exec(spp, self.bbox);
        let e: Pt = match epp {
            Some(pp) => resolve_exec(pp, self.bbox),
            None => exit_point(
                step_pt_exec(s, self.dir_x, self.dir_y, 1),
                self.dir_x,
                self.dir_y,
                self.bbox,
            ),
        };
        let s1 = step_pt_exec(s, self.dir_x, self.dir_y, -5);
        let e1 = step_pt_exec(e, self.dir_x, self.dir_y, 5);
        let la = exit_point(
            step_pt_exec(s1, self.dir_x, self.dir_y, -EXTEND_STRIDE),
            -EXTEND_STRIDE * self.dir_x,
            -EXTEND_STRIDE * self.dir_y,
            self.bbox,
        );
        let lb = exit_point(
            step_pt_exec(e1, self.dir_x, self.dir_y, EXTEND_STRIDE),
            EXTEND_STRIDE * self.dir_x,
            EXTEND_STRIDE * self.dir_y,
            self.bbox,
        );
        Probe { long_a: la, long_b: lb, short_a: s1, short_b: e1 }
    }
}

/// The tail of the crossing merge from index `i` on, with `last` the last
/// kept offset: offsets within the epsilon of the last kept one are merged
/// away.
pub open spec fn merge_from(s: Seq<i64>, i: int, last: i64) -> Seq<i64>
    decreases s.len() - i,
{
    if i < 0 || i >= s.len() {
        Seq::empty()
    } else {
        let d = if s[i] >= last {
            s[i] - last
        } else {
            last as int - s[i]
        };
        if d < PROBE_EPSILON {
            merge_from(s, i + 1, last)
        } else {
            seq![s[i]] + merge_from(s, i + 1, s[i])
        }
    }
}

/// Offsets merged within the epsilon: the first is kept; each later one only
/// when it lies at least the epsilon from the last kept one.
pub open spec fn merge_eps(s: Seq<i64>) -> Seq<i64> {
    if s.len() == 0 {
        s
    } else {
        seq![s[0]] + merge_from(s, 1, s[0])
    }
}

/// Whether an offset lies inside the measured window: past the epsilon from
/// the probe's start and before its end.
pub open spec fn window_keep(o: i64, span: i64) -> bool {
    PROBE_EPSILON < o < span
}

/// One probe's crossings processed: sorted ascending, merged within the
/// epsilon, and bounded to the measured window.
pub open spec fn process_crossings(offsets: Seq<i64>, span: i64) -> Seq<i64> {
    merge_eps(crate::stats::ascending_of(offsets)).filter(|o: i64| window_keep(o, span))
}

impl Raycaster {
    /// Turns the collaborator's crossing offsets into a snapshot: each
    /// probe's offsets sorted, merged within the epsilon, and bounded to the
    /// measured window.
    pub fn cast(&self, crossings: &Vec<ProbeCrossings>) -> (r: CastSnapshot)
        ensures
            r.rays@.len() == crossings@.len(),
            forall|i: int|
                0 <= i < crossings@.len() ==> (#[trigger] r.rays@[i])@ == process_crossings(
                    crossings@[i].offsets@,
                    crossings@[i].span,
                ),
    {
        let mut rays: Vec<Vec<i64>> = Vec::new();
        let mut i: usize = 0;
        while i < crossings.len()
            invariant
                0 <= i <= crossings@.len(),
                rays@.len() == i,
                forall|k: int|
                    0 <= k < i ==> (#[trigger] rays@[k])@ == process_crossings(
                        crossings@[k].offsets@,
                        crossings@[k].span,
                    ),
            decreases crossings@.len() - i,
        {
            let c = &crossings[i];
            rays.push(process_one(&c.offsets, c.span));
            i = i + 1;
        }
        CastSnapshot { rays }
    }
}

/// Processes one probe's crossings.
fn process_one(offsets: &Vec<i64>, span: i64) -> (r: Vec<i64>)
    ensures
        r@ == process_crossings(offsets@, span),
{
    let t = crate::stats::sort_values(offsets);
    let ghost tv = t@;
    let mut merged: Vec<i64> = Vec::new();
    if t.len() > 0 {
        merged.push(t[0]);
        let mut last: i64 = t[0];
        let mut i: usize = 1;
        proof {
            assert(merged@ =~= seq![tv[0]]);
        }
        while i < t.len()
            invariant
                1 <= i <= tv.len(),
                tv.len() > 0,
                t@ == tv,
                merged@ + merge_from(tv, i as int, last) == merge_eps(tv),
            decreases tv.len() - i,
        {
            let v = t[i];
            let d: i128 = if v >= last {
                (v as i128) - (last as i128)
            } else {
                (last as i128) - (v as i128)
            };
            if d >= PROBE_EPSILON as i128 {
                proof {
                    assert(seq![tv[i as int]] + merge_from(tv, i as int + 1, tv[i as int])
                        == merge_from(tv, i as int, last));
                    assert(merged@.push(v) + merge_from(tv, i as int + 1, v) =~= merged@ + (
                    seq![tv[i as int]] + merge_from(tv, i as int + 1, tv[i as int])));
                }
                merged.push(v);
                last = v;
            }
            i = i + 1;
        }
        proof {
            assert(merge_from(tv, tv.len() as int, last) =~= Seq::<i64>::empty());
            assert(merged@ + Seq::<i64>::empty() =~= merged@);
        }
    }
    let ghost pred = |o: i64| window_keep(o, span);
    let mut out: Vec<i64> = Vec::new();
    let mut k: usize = 0;
    proof {
        reveal(Seq::filter);
        assert(merged@.subrange(0, 0) =~= Seq::<i64>::empty());
    }
    while k < merged.len()
        invariant
            0 <= k <= merged@.len(),
            pred == (|o: i64| window_keep(o, span)),
            out@ == merged@.subrange(0, k as int).filter(pred),
        decreases merged@.len() - k,
    {
        let o = merged[k];
        if PROBE_EPSILON < o && o < span {
            out.push(o);
        }
        proof {
            crate::stats::lemma_filter_push(merged@.subrange(0, k as int), pred, o);
            assert(merged@.subrange(0, k as int).push(o) =~= merged@.subrange(0, k as int + 1));
        }
        k = k + 1;
    }
    proof {
        assert(merged@.subrange(0, merged@.len() as int) =~= merged@);
    }
    out
}

/// Whether the pairing policy skips the span that begins at crossing `i`:
/// ink keeps the even-indexed spans, transparent the odd ones.
pub open spec fn skip_span(w: Option<Winding>, i: int) -> bool {
    ||| (w == Some(Winding::Ink) && i % 2 == 1)
    ||| (w == Some(Winding::Transparent) && i % 2 == 0)
}

/// The consecutive pairs from crossing `i` on that the policy keeps, each
/// with positive distance.
pub open spec fn spans_from(pts: Seq<i64>, w: Option<Winding>, i: int) -> Seq<(i64, i64)>
    decreases pts.len() - i,
{
    if i < 0 || i + 1 >= pts.len() {
        Seq::empty()
    } else {
        let rest = spans_from(pts, w, i + 1);
        if skip_span(w, i) || pts[i + 1] - pts[i] <= 0 {
            rest
        } else {
            seq![(pts[i], pts[i + 1])] + rest
        }
    }
}

/// The pairing policy for one probe's crossings: exactly two crossings under
/// no policy or the ink policy pair directly; otherwise the consecutive
/// spans the policy keeps.
pub open spec fn pairs_spec(pts: Seq<i64>, w: Option<Winding>) -> Seq<(i64, i64)> {
    if pts.len() < 2 {
        Seq::empty()
    } else if pts.len() == 2 && (w is None || w == Some(Winding::Ink)) {
        seq![(pts[0], pts[1])]
    } else {
        spans_from(pts, w, 0)
    }
}

/// The distances of a probe's kept pairs.
pub open spec fn pair_gaps(ps: Seq<(i64, i64)>) -> Seq<i64> {
    ps.map(|k: int, p: (i64, i64)| (p.1 - p.0) as i64)
}

/// The pair distances of the probes before probe `i`, flattened in order.
pub open spec fn gaps_prefix(rays: Seq<Seq<i64>>, w: Option<Winding>, i: int) -> Seq<i64>
    decreases i,
{
    if i <= 0 {
        Seq::empty()
    } else {
        gaps_prefix(rays, w, i - 1) + pair_gaps(pairs_spec(rays[i - 1], w))
    }
}

/// All pair distances of a cast, in probe order.
pub open spec fn all_gaps(rays: Seq<Seq<i64>>, w: Option<Winding>) -> Seq<i64> {
    gaps_prefix(rays, w, rays.len() as int)
}

/// The mathematical value of a snapshot: each probe's processed offsets.
pub open spec fn snap_view(s: CastSnapshot) -> Seq<Seq<i64>> {
    s.rays@.map(|i: int, v: Vec<i64>| v@)
}

/// The scalar a cast reduces to: the median of the pair distances, after
/// outlier rejection when asked for, and zero when no pair is left.
pub open spec fn median_pair_distance_spec(
    rays: Seq<Seq<i64>>,
    w: Option<Winding>,
    reject: bool,
) -> int {
    let ds = all_gaps(rays, w);
    let kept = if reject {
        reject_outliers_spec(ds)
    } else {
        ds
    };
    if kept.len() == 0 {
        0
    } else {
        median_spec(kept)
    }
}

/// The pairs of one probe, in executable form.
fn pairs_one(pts: &Vec<i64>, w: Option<Winding>) -> (r: Vec<(i64, i64)>)
    ensures
        r@ == pairs_spec(pts@, w),
{
    let n = pts.len();
    if n < 2 {
        proof {
            assert(pairs_spec(pts@, w) =~= Seq::<(i64, i64)>::empty());
        }
        return Vec::new();
    }
    if n == 2 && (w.is_none() || matches!(w, Some(Winding::Ink))) {
        let mut r: Vec<(i64, i64)> = Vec::new();
        r.push((pts[0], pts[1]));
        proof {
            assert(r@ =~= pairs_spec(pts@, w));
        }
        return r;
    }
    let mut out: Vec<(i64, i64)> = Vec::new();
    let mut i: usize = 0;
    while i + 1 < n
        invariant
            0 <= i <= pts@.len(),
            n == pts@.len(),
            n >= 2,
            i + 1 <= n,
            out@ + spans_from(pts@, w, i as int) == spans_from(pts@, w, 0),
        decreases n - i,
    {
        let skip: bool = match w {
            Some(Winding::Ink) => i % 2 == 1,
            Some(Winding::Transparent) => i % 2 == 0,
            None => false,
        };
        let a = pts[i];
        let b = pts[i + 1];
        let positive = (b as i128) - (a as i128) > 0;
        proof {
            assert(skip == skip_span(w, i as int));
            if !skip && positive {
                assert(seq![(a, b)] + spans_from(pts@, w, i as int + 1) == spans_from(
                    pts@,
                    w,
                    i as int,
                ));
                assert(out@.push((a, b)) + spans_from(pts@, w, i as int + 1) =~= out@ + (seq![
                    (a, b),
                ] + spans_from(pts@, w, i as int + 1)));
            }
        }
        if !skip && positive {
            out.push((a, b));
        }
        i = i + 1;
    }
    proof {
        assert(spans_from(pts@, w, i as int) =~= Seq::<(i64, i64)>::empty());
        assert(out@ + Seq::<(i64, i64)>::empty() =~= out@);
        assert(pairs_spec(pts@, w) == spans_from(pts@, w, 0));
    }
    out
}

impl Raycaster {
    /// The kept pairs of every probe of the snapshot, under the caster's
    /// winding policy.
    pub fn pairs(&self, snap: &CastSnapshot) -> (r: Vec<Vec<(i64, i64)>>)
        ensures
            r@.len() == snap_view(*snap).len(),
            forall|i: int|
                0 <= i < snap_view(*snap).len() ==> (#[trigger] r@[i])@ == pairs_spec(
                    snap_view(*snap)[i],
                    self.winding,
                ),
    {
        let mut out: Vec<Vec<(i64, i64)>> = Vec::new();
        let mut i: usize = 0;
        while i < snap.rays.len()
            invariant
                0 <= i <= snap.rays@.len(),
                out@.len() == i,
                forall|k: int|
                    0 <= k < i ==> (#[trigger] out@[k])@ == pairs_spec(
                        snap_view(*snap)[k],
                        self.winding,
                    ),
            decreases snap.rays@.len() - i,
        {
            out.push(pairs_one(&snap.rays[i], self.winding));
            i = i + 1;
        }
        out
    }

    /// The pair distances of every probe of the snapshot, flattened in probe
    /// order.
    pub fn distances(&self, snap: &CastSnapshot) -> (r: Vec<i64>)
        ensures
            r@ == all_gaps(snap_view(*snap), self.winding),
    {
        let mut out: Vec<i64> = Vec::new();
        let mut i: usize = 0;
        proof {
            assert(gaps_prefix(snap_view(*snap), self.winding, 0) =~= Seq::<i64>::empty());
            assert(out@ =~= gaps_prefix(snap_view(*snap), self.winding, 0));
        }
        while i < snap.rays.len()
            invariant
                0 <= i <= snap.rays@.len(),
                out@ == gaps_prefix(snap_view(*snap), self.winding, i as int),
            decreases snap.rays@.len() - i,
        {
            let ps = pairs_one(&snap.rays[i], self.winding);
            let ghost gaps = pair_gaps(pairs_spec(snap_view(*snap)[i as int], self.winding));
            let mut k: usize = 0;
            while k < ps.len()
                invariant
                    0 <= k <= ps@.len(),
                    ps@ == pairs_spec(snap_view(*snap)[i as int], self.winding),
                    gaps == pair_gaps(ps@),
                    0 <= i < snap.rays@.len(),
                    out@ == gaps_prefix(snap_view(*snap), self.winding, i as int) + gaps.take(
                        k as int,
                    ),
                decreases ps@.len() - k,
            {
                let (a, b) = ps[k];
                let g: i64 = (((b as i128) - (a as i128)) as i64);
                proof {
                    assert(gaps[k as int] == g);
                    assert(gaps.take(k as int).push(g) =~= gaps.take(k as int + 1));
                }
                out.push(g);
                k = k + 1;
            }
            proof {
                assert(gaps.take(ps@.len() as int) =~= gaps);
            }
            i = i + 1;
        }
        out
    }

    /// The scalar the cast reduces to: the median of all pair distances,
    /// after outlier rejection when asked for. Zero when no valid pair
    /// exists.
    pub fn median_pair_distance(&self, snap: &CastSnapshot, drop_outliers: bool) -> (r: i64)
        ensures
            r as int == median_pair_distance_spec(snap_view(*snap), self.winding, drop_outliers),
    {
        let ds = self.distances(snap);
        let kept = if drop_outliers {
            reject_outliers(&ds)
        } else {
            ds
        };
        if kept.len() == 0 {
            0
        } else {
            median(&kept)
        }
    }
}

/// A cast in which every probe keeps exactly two crossings the same distance
/// apart reduces to that distance, with or without outlier rejection, under
/// the ink policy or none: every probe pairs its two crossings directly, and
/// the reduction of a constant list is its value.
pub proof fn lemma_uniform_two_crossing_cast(
    rays: Seq<Seq<i64>>,
    w: Option<Winding>,
    drop_outliers: bool,
    d: i64,
)
    requires
        rays.len() > 0,
        d > 0,
        w is None || w == Some(Winding::Ink),
        forall|i: int|
            0 <= i < rays.len() ==> (#[trigger] rays[i]).len() == 2 && rays[i][1] - rays[i][0]
                == d,
    ensures
        median_pair_distance_spec(rays, w, drop_outliers) == d,
{
    assert forall|i: int| 0 <= i <= rays.len() implies gaps_prefix(rays, w, i) =~= Seq::new(
        i as nat,
        |k: int| d,
    ) by {
        lemma_gaps_prefix_uniform(rays, w, d, i);
    }
    let ds = all_gaps(rays, w);
    assert(ds =~= Seq::new(rays.len(), |k: int| d));
    lemma_constant_reduction(ds, d, drop_outliers);
}

proof fn lemma_gaps_prefix_uniform(rays: Seq<Seq<i64>>, w: Option<Winding>, d: i64, i: int)
    requires
        d > 0,
        w is None || w == Some(Winding::Ink),
        forall|k: int|
            0 <= k < rays.len() ==> (#[trigger] rays[k]).len() == 2 && rays[k][1] - rays[k][0]
                == d,
        0 <= i <= rays.len(),
    ensures
        gaps_prefix(rays, w, i) =~= Seq::new(i as nat, |k: int| d),
    decreases i,
{
    if i > 0 {
        lemma_gaps_prefix_uniform(rays, w, d, i - 1);
        let pts = rays[i - 1];
        assert(pairs_spec(pts, w) =~= seq![(pts[0], pts[1])]);
        assert(pair_gaps(pairs_spec(pts, w)) =~= seq![d]);
    }
}

/// The reduction of a nonempty constant list is its value, with or without
/// outlier rejection.
proof fn lemma_constant_reduction(ds: Seq<i64>, d: i64, drop_outliers: bool)
    requires
        ds.len() > 0,
        forall|i: int| 0 <= i < ds.len() ==> ds[i] == d,
    ensures
        median_pair_distance_spec_of(ds, drop_outliers) == d,
{
    lemma_ascending_constant(ds, d);
    let n = ds.len() as int;
    assert(median_spec(ds) == d) by {
        if ds.len() % 2 == 1 {
        } else {
            assert(crate::stats::midpoint(d as int, d as int) == d);
        }
    }
    if drop_outliers {
        if ds.len() >= 3 {
            assert(crate::stats::quartile1(ds) == d);
            assert(crate::stats::quartile3(ds) == d);
            let pred = |v: i64|
                crate::stats::within_fences(
                    v,
                    crate::stats::quartile1(ds),
                    crate::stats::quartile3(ds),
                );
            assert forall|i: int| 0 <= i < ds.len() implies pred(ds[i]) by {}
            crate::stats::lemma_filter_all(ds, pred);
            assert(reject_outliers_spec(ds) == ds);
        } else {
            assert(reject_outliers_spec(ds) == ds);
        }
    }
}

/// The reduction a distance list denotes, named for the lemmas above.
pub open spec fn median_pair_distance_spec_of(ds: Seq<i64>, drop_outliers: bool) -> int {
    let kept = if drop_outliers {
        reject_outliers_spec(ds)
    } else {
        ds
    };
    if kept.len() == 0 {
        0
    } else {
        median_spec(kept)
    }
}

proof fn lemma_ascending_constant(ds: Seq<i64>, d: i64)
    requires
        forall|i: int| 0 <= i < ds.len() ==> ds[i] == d,
    ensures
        crate::stats::ascending_of(ds) =~= ds,
{
    let leq = |a: i64, b: i64| crate::stats::value_le(a, b);
    ds.lemma_sort_by_ensures(leq);
    crate::stats::lemma_ascending_of(ds);
    assert(vstd::relations::sorted_by(ds, leq));
    vstd::seq_lib::lemma_sorted_unique(
        crate::stats::ascending_of(ds),
        ds,
        leq,
    );
}

proof fn lemma_flat_elem_origin<A, B>(s: Seq<A>, f: spec_fn(A) -> Seq<B>, k: int)
    requires
        0 <= k < s.flat_map(f).len(),
    ensures
        exists|j: int, m: int|
            0 <= j < s.len() && 0 <= m < f(#[trigger] s[j]).len() && #[trigger] f(s[j])[m]
                == s.flat_map(f)[k],
    decreases s.len(),
{
    s.drop_last().lemma_flat_map_push(f, s.last());
    assert(s.drop_last().push(s.last()) =~= s);
    let head = s.drop_last().flat_map(f);
    if k < head.len() {
        lemma_flat_elem_origin(s.drop_last(), f, k);
        let (j, m) = choose|j: int, m: int|
            0 <= j < s.drop_last().len() && 0 <= m < f(s.drop_last()[j]).len() && #[trigger] f(
                s.drop_last()[j],
            )[m] == head[k];
        assert(s[j] == s.drop_last()[j]);
        assert(f(s[j])[m] == s.flat_map(f)[k]);
    } else {
        let j = s.len() - 1;
        let m = k - head.len();
        assert(f(s[j])[m] == s.flat_map(f)[k]);
    }
}

} // verus!
