//! The outline model: an ordered collection of subpaths built from pen-style
//! drawing commands, with integer fixed-point coordinates.
//!
//! Each subpath starts at an anchor point and carries line, quadratic and
//! cubic segments; only a close mark may end it. An empty outline (a glyph
//! with no ink) is valid. The bounding box is taken over all control points,
//! which contains the drawn curves.

use crate::MetrologyError;
use vstd::prelude::*;

verus! {

/// The largest coordinate magnitude the model carries. Keeps all later
/// fixed-point arithmetic within machine bounds.
pub const COORD_LIMIT: i64 = 0x4_0000_0000;

/// A point in fixed-point coordinates.
#[derive(Clone, Copy, Debug, PartialEq, Eq, Structural)]
pub struct Pt {
    pub x: i64,
    pub y: i64,
}

/// One drawing segment of a subpath, ending at its last point.
#[derive(Clone, Copy, Debug, PartialEq, Eq, Structural)]
pub enum Segment {
    /// A straight line to the point.
    LineTo(Pt),
    /// A quadratic curve with one control point, then the end point.
    QuadTo(Pt, Pt),
    /// A cubic curve with two control points, then the end point.
    CurveTo(Pt, Pt, Pt),
}

/// One subpath: an anchor point, its segments, and whether it was closed.
#[derive(Clone, Debug)]
pub struct Subpath {
    pub start: Pt,
    pub body: Vec<Segment>,
    pub closed: bool,
}

/// The mathematical value of a subpath.
pub ghost struct SubView {
    pub start: Pt,
    pub segs: Seq<Segment>,
    pub closed: bool,
}

impl View for Subpath {
    type V = SubView;

    open spec fn view(&self) -> SubView {
        SubView { start: self.start, segs: self.body@, closed: self.closed }
    }
}

/// An outline: an ordered sequence of subpaths.
#[derive(Clone, Debug)]
pub struct Outline {
    pub subpaths: Vec<Subpath>,
}

impl View for Outline {
    type V = Seq<SubView>;

    open spec fn view(&self) -> Seq<SubView> {
        self.subpaths@.map(|i: int, s: Subpath| s@)
    }
}

/// Whether a coordinate is within the model's limit.
pub open spec fn coord_wf(c: i64) -> bool {
    -COORD_LIMIT <= c <= COORD_LIMIT
}

pub open spec fn pt_wf(p: Pt) -> bool {
    coord_wf(p.x) && coord_wf(p.y)
}

pub open spec fn segment_wf(s: Segment) -> bool {
    match s {
        Segment::LineTo(p) => pt_wf(p),
        Segment::QuadTo(c, p) => pt_wf(c) && pt_wf(p),
        Segment::CurveTo(c1, c2, p) => pt_wf(c1) && pt_wf(c2) && pt_wf(p),
    }
}

pub open spec fn sub_wf(s: SubView) -> bool {
    pt_wf(s.start) && forall|i: int| 0 <= i < s.segs.len() ==> segment_wf(#[trigger] s.segs[i])
}

/// Well-formedness of an outline: every coordinate within the model's limit.
pub open spec fn outline_wf(v: Seq<SubView>) -> bool {
    forall|i: int| 0 <= i < v.len() ==> sub_wf(#[trigger] v[i])
}

/// An axis-aligned box.
#[derive(Clone, Copy, Debug, PartialEq, Eq, Structural)]
pub struct Box2 {
    pub min_x: i64,
    pub min_y: i64,
    pub max_x: i64,
    pub max_y: i64,
}

impl Box2 {
    /// Whether the box contains the point; the upper edges are outside,
    /// matching the half-open convention of planar geometry libraries.
    pub open spec fn holds_spec(self, p: Pt) -> bool {
        self.min_x <= p.x < self.max_x && self.min_y <= p.y < self.max_y
    }

    /// Whether the box contains the point.
    pub fn holds(&self, p: Pt) -> (r: bool)
        ensures
            r == self.holds_spec(p),
    {
        self.min_x <= p.x && p.x < self.max_x && self.min_y <= p.y && p.y < self.max_y
    }

    /// The box grown outward by `d` on every side.
    pub fn expanded(&self, d: i64) -> (r: Box2)
        requires
            0 <= d <= COORD_LIMIT,
            coord_wf(self.min_x) && coord_wf(self.min_y),
            coord_wf(self.max_x) && coord_wf(self.max_y),
        ensures
            r.min_x == self.min_x - d,
            r.min_y == self.min_y - d,
            r.max_x == self.max_x + d,
            r.max_y == self.max_y + d,
    {
        Box2 {
            min_x: self.min_x - d,
            min_y: self.min_y - d,
            max_x: self.max_x + d,
            max_y: self.max_y + d,
        }
    }
}

/// The control points of one segment, in drawing order.
pub open spec fn segment_points(s: Segment) -> Seq<Pt> {
    match s {
        Segment::LineTo(p) => seq![p],
        Segment::QuadTo(c, p) => seq![c, p],
        Segment::CurveTo(c1, c2, p) => seq![c1, c2, p],
    }
}

/// All control points of a subpath, the anchor first.
pub open spec fn sub_points(s: SubView) -> Seq<Pt> {
    seq![s.start] + s.segs.flat_map(|g: Segment| segment_points(g))
}

impl Outline {
    /// An outline with no subpaths.
    pub fn new() -> (r: Outline)
        ensures
            r@ =~= Seq::<SubView>::empty(),
    {
        Outline { subpaths: Vec::new() }
    }

    /// The number of subpaths.
    pub fn len(&self) -> (r: usize)
        ensures
            r == self@.len(),
    {
        self.subpaths.len()
    }

    /// Starts a new subpath anchored at the point.
    pub fn move_to(&mut self, x: i64, y: i64)
        requires
            coord_wf(x) && coord_wf(y),
        ensures
            final(self)@ =~= old(self)@.push(
                SubView { start: Pt { x, y }, segs: Seq::empty(), closed: false },
            ),
    {
        self.subpaths.push(Subpath { start: Pt { x, y }, body: Vec::new(), closed: false });
    }

    /// Whether a new segment must open a fresh subpath: there is none yet, or
    /// the last one was closed.
    pub open spec fn needs_fresh(v: Seq<SubView>) -> bool {
        v.len() == 0 || v.last().closed
    }

    /// The outline after appending one segment ending at point `p`: the
    /// segment extends the open last subpath; a drawing that begins without a
    /// move starts its subpath at the segment's end point, recording no
    /// segment.
    pub open spec fn with_segment(v: Seq<SubView>, g: Segment, p: Pt) -> Seq<SubView> {
        if Self::needs_fresh(v) {
            v.push(SubView { start: p, segs: Seq::empty(), closed: false })
        } else {
            v.update(
                v.len() - 1,
                SubView {
                    start: v.last().start,
                    segs: v.last().segs.push(g),
                    closed: false,
                },
            )
        }
    }

    fn push_segment(&mut self, g: Segment, px: i64, py: i64)
        requires
            segment_wf(g),
            coord_wf(px) && coord_wf(py),
        ensures
            final(self)@ =~= Self::with_segment(old(self)@, g, Pt { x: px, y: py }),
    {
        if self.subpaths.len() == 0 {
            self.subpaths.push(
                Subpath { start: Pt { x: px, y: py }, body: Vec::new(), closed: false },
            );
            return ;
        }
        let n = self.subpaths.len();
        if self.subpaths[n - 1].closed {
            self.subpaths.push(
                Subpath { start: Pt { x: px, y: py }, body: Vec::new(), closed: false },
            );
            return ;
        }
        let mut last = self.subpaths.pop().unwrap();
        last.body.push(g);
        self.subpaths.push(last);
    }

    /// Draws a line to the point.
    pub fn line_to(&mut self, x: i64, y: i64)
        requires
            coord_wf(x) && coord_wf(y),
        ensures
            final(self)@ =~= Self::with_segment(
                old(self)@,
                Segment::LineTo(Pt { x, y }),
                Pt { x, y },
            ),
    {
        self.push_segment(Segment::LineTo(Pt { x, y }), x, y);
    }

    /// Draws a quadratic curve through one control point to the end point.
    pub fn quad_to(&mut self, cx: i64, cy: i64, x: i64, y: i64)
        requires
            coord_wf(cx) && coord_wf(cy),
            coord_wf(x) && coord_wf(y),
        ensures
            final(self)@ =~= Self::with_segment(
                old(self)@,
                Segment::QuadTo(Pt { x: cx, y: cy }, Pt { x, y }),
                Pt { x, y },
            ),
    {
        self.push_segment(Segment::QuadTo(Pt { x: cx, y: cy }, Pt { x, y }), x, y);
    }

    /// Draws a cubic curve through two control points to the end point.
    pub fn curve_to(&mut self, c1x: i64, c1y: i64, c2x: i64, c2y: i64, x: i64, y: i64)
        requires
            coord_wf(c1x) && coord_wf(c1y),
            coord_wf(c2x) && coord_wf(c2y),
            coord_wf(x) && coord_wf(y),
        ensures
            final(self)@ =~= Self::with_segment(
                old(self)@,
                Segment::CurveTo(Pt { x: c1x, y: c1y }, Pt { x: c2x, y: c2y }, Pt { x, y }),
                Pt { x, y },
            ),
    {
        self.push_segment(
            Segment::CurveTo(Pt { x: c1x, y: c1y }, Pt { x: c2x, y: c2y }, Pt { x, y }),
            x,
            y,
        );
    }

    /// The outline after a close mark: the last subpath, if any is open, is
    /// marked closed; otherwise nothing changes.
    pub open spec fn with_close(v: Seq<SubView>) -> Seq<SubView> {
        if Self::needs_fresh(v) {
            v
        } else {
            v.update(
                v.len() - 1,
                SubView { start: v.last().start, segs: v.last().segs, closed: true },
            )
        }
    }

    /// Closes the current subpath.
    pub fn close(&mut self)
        ensures
            final(self)@ =~= Self::with_close(old(self)@),
    {
        let n = self.subpaths.len();
        if n == 0 {
            return ;
        }
        if self.subpaths[n - 1].closed {
            return ;
        }
        let mut last = self.subpaths.pop().unwrap();
        last.closed = true;
        self.subpaths.push(last);
    }
}

/// Whether the outline contains the point as a control point.
pub open spec fn has_pt(v: Seq<SubView>, p: Pt) -> bool {
    exists|i: int| 0 <= i < v.len() && sub_points(#[trigger] v[i]).contains(p)
}

impl Outline {
    /// The bounding box of all control points, or nothing for an empty
    /// outline. The box contains every control point and each of its four
    /// bounds is attained by one.
    pub fn bbox(&self) -> (r: Option<Box2>)
        ensures
            r is None <==> self@.len() == 0,
            r is Some ==> {
                let b = r->Some_0;
                &&& forall|p: Pt|
                    has_pt(self@, p) ==> b.min_x <= p.x <= b.max_x && b.min_y <= p.y <= b.max_y
                &&& exists|p: Pt| has_pt(self@, p) && p.x == b.min_x
                &&& exists|p: Pt| has_pt(self@, p) && p.x == b.max_x
                &&& exists|p: Pt| has_pt(self@, p) && p.y == b.min_y
                &&& exists|p: Pt| has_pt(self@, p) && p.y == b.max_y
            },
    {
        if self.subpaths.len() == 0 {
            return None;
        }
        let p0 = self.subpaths[0].start;
        proof {
            assert(sub_points(self@[0])[0] == p0);
            assert(sub_points(self@[0]).contains(p0));
            assert(has_pt(self@, p0));
        }
        let mut b = Box2 { min_x: p0.x, min_y: p0.y, max_x: p0.x, max_y: p0.y };
        let mut i: usize = 0;
        while i < self.subpaths.len()
            invariant
                0 <= i <= self@.len(),
                self@.len() > 0,
                self@.len() == self.subpaths@.len(),
                forall|k: int| 0 <= k < self@.len() ==> self@[k] == self.subpaths@[k]@,
                forall|k: int, p: Pt|
                    0 <= k < i && sub_points(self@[k]).contains(p) ==> b.min_x <= p.x <= b.max_x
                        && b.min_y <= p.y <= b.max_y,
                exists|p: Pt| has_pt(self@, p) && p.x == b.min_x,
                exists|p: Pt| has_pt(self@, p) && p.x == b.max_x,
                exists|p: Pt| has_pt(self@, p) && p.y == b.min_y,
                exists|p: Pt| has_pt(self@, p) && p.y == b.max_y,
                b.min_x <= b.max_x && b.min_y <= b.max_y,
            decreases self@.len() - i,
        {
            let sub = &self.subpaths[i];
            let ghost sv = self@[i as int];
            proof {
                lemma_anchor_in_sub(sv);
            }
            b = Self::grow_box(b, sub.start, Ghost(self@), Ghost(i as int), Ghost(0));
            let mut j: usize = 0;
            while j < sub.body.len()
                invariant
                    0 <= i < self@.len(),
                    0 <= j <= sv.segs.len(),
                    sv == self@[i as int],
                    sub@ == sv,
                    sub.body@ == sv.segs,
                    forall|k: int, p: Pt|
                        0 <= k < i && sub_points(self@[k]).contains(p) ==> b.min_x <= p.x
                            <= b.max_x && b.min_y <= p.y <= b.max_y,
                    forall|p: Pt|
                        covered_points(sv, j as int).contains(p) ==> b.min_x <= p.x <= b.max_x
                            && b.min_y <= p.y <= b.max_y,
                    exists|p: Pt| has_pt(self@, p) && p.x == b.min_x,
                    exists|p: Pt| has_pt(self@, p) && p.x == b.max_x,
                    exists|p: Pt| has_pt(self@, p) && p.y == b.min_y,
                    exists|p: Pt| has_pt(self@, p) && p.y == b.max_y,
                    b.min_x <= b.max_x && b.min_y <= b.max_y,
                decreases sv.segs.len() - j,
            {
                let ghost before = covered_points(sv, j as int);
                let ghost gj = sv.segs[j as int];
                match sub.body[j] {
                    Segment::LineTo(p) => {
                        proof {
                            assert(segment_points(gj)[0] == p);
                            lemma_point_in_sub(sv, j as int, p);
                        }
                        b = Self::grow_box(b, p, Ghost(self@), Ghost(i as int), Ghost(1));
                    },
                    Segment::QuadTo(c, p) => {
                        proof {
                            assert(segment_points(gj)[0] == c);
                            assert(segment_points(gj)[1] == p);
                            lemma_point_in_sub(sv, j as int, c);
                            lemma_point_in_sub(sv, j as int, p);
                        }
                        b = Self::grow_box(b, c, Ghost(self@), Ghost(i as int), Ghost(1));
                        b = Self::grow_box(b, p, Ghost(self@), Ghost(i as int), Ghost(1));
                    },
                    Segment::CurveTo(c1, c2, p) => {
                        proof {
                            assert(segment_points(gj)[0] == c1);
                            assert(segment_points(gj)[1] == c2);
                            assert(segment_points(gj)[2] == p);
                            lemma_point_in_sub(sv, j as int, c1);
                            lemma_point_in_sub(sv, j as int, c2);
                            lemma_point_in_sub(sv, j as int, p);
                        }
                        b = Self::grow_box(b, c1, Ghost(self@), Ghost(i as int), Ghost(1));
                        b = Self::grow_box(b, c2, Ghost(self@), Ghost(i as int), Ghost(1));
                        b = Self::grow_box(b, p, Ghost(self@), Ghost(i as int), Ghost(1));
                    },
                }
                proof {
                    lemma_covered_step(sv, j as int);
                    assert forall|p: Pt|
                        #[trigger] covered_points(sv, j as int + 1).contains(p) implies b.min_x
                        <= p.x <= b.max_x && b.min_y <= p.y <= b.max_y by {
                        if !before.contains(p) {
                            assert(segment_points(sv.segs[j as int]).contains(p));
                        }
                    }
                }
                j = j + 1;
            }
            proof {
                lemma_covered_all(sv);
            }
            i = i + 1;
        }
        Some(b)
    }

    /// Widens the box to hold one more point of the outline. The ghost
    /// arguments name the subpath the point came from, so that attainment of
    /// the bounds survives.
    fn grow_box(b: Box2, p: Pt, Ghost(v): Ghost<Seq<SubView>>, Ghost(i): Ghost<int>, Ghost(
        _kind,
    ): Ghost<int>) -> (r: Box2)
        requires
            0 <= i < v.len(),
            sub_points(v[i]).contains(p),
            b.min_x <= b.max_x && b.min_y <= b.max_y,
            exists|q: Pt| has_pt(v, q) && q.x == b.min_x,
            exists|q: Pt| has_pt(v, q) && q.x == b.max_x,
            exists|q: Pt| has_pt(v, q) && q.y == b.min_y,
            exists|q: Pt| has_pt(v, q) && q.y == b.max_y,
        ensures
            r.min_x <= b.min_x && r.max_x >= b.max_x && r.min_y <= b.min_y && r.max_y >= b.max_y,
            r.min_x <= p.x <= r.max_x && r.min_y <= p.y <= r.max_y,
            r.min_x <= r.max_x && r.min_y <= r.max_y,
            exists|q: Pt| has_pt(v, q) && q.x == r.min_x,
            exists|q: Pt| has_pt(v, q) && q.x == r.max_x,
            exists|q: Pt| has_pt(v, q) && q.y == r.min_y,
            exists|q: Pt| has_pt(v, q) && q.y == r.max_y,
    {
        proof {
            assert(has_pt(v, p));
        }
        Box2 {
            min_x: if p.x < b.min_x {
                p.x
            } else {
                b.min_x
            },
            min_y: if p.y < b.min_y {
                p.y
            } else {
                b.min_y
            },
            max_x: if p.x > b.max_x {
                p.x
            } else {
                b.max_x
            },
            max_y: if p.y > b.max_y {
                p.y
            } else {
                b.max_y
            },
        }
    }
}

proof fn lemma_flat_map_elem<A, B>(s: Seq<A>, f: spec_fn(A) -> Seq<B>, j: int, x: B)
    requires
        0 <= j < s.len(),
        f(s[j]).contains(x),
    ensures
        s.flat_map(f).contains(x),
    decreases s.len(),
{
    s.drop_last().lemma_flat_map_push(f, s.last());
    assert(s.drop_last().push(s.last()) =~= s);
    if j == s.len() - 1 {
        let k = choose|k: int| 0 <= k < f(s.last()).len() && #[trigger] f(s.last())[k] == x;
        assert(s.flat_map(f)[s.drop_last().flat_map(f).len() + k] == x);
    } else {
        lemma_flat_map_elem(s.drop_last(), f, j, x);
        let k = choose|k: int|
            0 <= k < s.drop_last().flat_map(f).len() && #[trigger] s.drop_last().flat_map(f)[k]
                == x;
        assert(s.flat_map(f)[k] == x);
    }
}

/// Any control point of any segment of a subpath is among the subpath's
/// points, as is the anchor.
proof fn lemma_point_in_sub(s: SubView, j: int, p: Pt)
    requires
        0 <= j < s.segs.len(),
        segment_points(s.segs[j]).contains(p),
    ensures
        sub_points(s).contains(p),
{
    let f = |g: Segment| segment_points(g);
    lemma_flat_map_elem(s.segs, f, j, p);
    let k = choose|k: int|
        0 <= k < s.segs.flat_map(f).len() && #[trigger] s.segs.flat_map(f)[k] == p;
    assert(sub_points(s)[1 + k] == p);
}

proof fn lemma_anchor_in_sub(s: SubView)
    ensures
        sub_points(s).contains(s.start),
{
    assert(sub_points(s)[0] == s.start);
}

/// The control points of the anchor and the first `j` segments of a subpath.
pub open spec fn covered_points(s: SubView, j: int) -> Seq<Pt> {
    seq![s.start] + s.segs.take(j).flat_map(|g: Segment| segment_points(g))
}

proof fn lemma_covered_step(s: SubView, j: int)
    requires
        0 <= j < s.segs.len(),
    ensures
        forall|p: Pt|
            covered_points(s, j + 1).contains(p) ==> covered_points(s, j).contains(p)
                || segment_points(s.segs[j]).contains(p),
{
    let f = |g: Segment| segment_points(g);
    assert(s.segs.take(j + 1) =~= s.segs.take(j).push(s.segs[j]));
    assert(s.segs.take(j).push(s.segs[j]).flat_map(f) =~= s.segs.take(j).flat_map(f) + f(
        s.segs[j],
    )) by {
        s.segs.take(j).lemma_flat_map_push(f, s.segs[j]);
    }
    assert forall|p: Pt| covered_points(s, j + 1).contains(p) implies covered_points(
        s,
        j,
    ).contains(p) || segment_points(s.segs[j]).contains(p) by {
        let k = choose|k: int|
            0 <= k < covered_points(s, j + 1).len() && #[trigger] covered_points(s, j + 1)[k]
                == p;
        if k < covered_points(s, j).len() {
            assert(covered_points(s, j)[k] == p);
        } else {
            assert(f(s.segs[j])[k - covered_points(s, j).len()] == p);
        }
    }
}

proof fn lemma_covered_all(s: SubView)
    ensures
        covered_points(s, s.segs.len() as int) == sub_points(s),
{
    assert(s.segs.take(s.segs.len() as int) =~= s.segs);
    assert(covered_points(s, s.segs.len() as int) =~= sub_points(s));
}

/// The largest coordinate magnitude accepted by outline scaling.
pub const SCALE_INPUT_LIMIT: i64 = 0x40_0000;

/// Whether a point is within magnitude `m`.
pub open spec fn pt_bounded(p: Pt, m: int) -> bool {
    -m <= p.x <= m && -m <= p.y <= m
}

pub open spec fn segment_bounded(g: Segment, m: int) -> bool {
    forall|k: int| 0 <= k < segment_points(g).len() ==> pt_bounded(#[trigger] segment_points(g)[k], m)
}

pub open spec fn sub_bounded(s: SubView, m: int) -> bool {
    pt_bounded(s.start, m) && forall|j: int|
        0 <= j < s.segs.len() ==> segment_bounded(#[trigger] s.segs[j], m)
}

/// Whether every control point of the outline is within magnitude `m`.
pub open spec fn coords_bounded(v: Seq<SubView>, m: int) -> bool {
    forall|i: int| 0 <= i < v.len() ==> sub_bounded(#[trigger] v[i], m)
}

/// One coordinate scaled by `num / den`, rounded to nearest, halves away
/// from zero.
pub open spec fn scale_c(c: i64, num: i64, den: i64) -> i64 {
    crate::fixed::div_round(c * num, den as int) as i64
}

pub open spec fn scale_pt(p: Pt, num: i64, den: i64) -> Pt {
    Pt { x: scale_c(p.x, num, den), y: scale_c(p.y, num, den) }
}

pub open spec fn scale_segment(g: Segment, num: i64, den: i64) -> Segment {
    match g {
        Segment::LineTo(p) => Segment::LineTo(scale_pt(p, num, den)),
        Segment::QuadTo(c, p) => Segment::QuadTo(scale_pt(c, num, den), scale_pt(p, num, den)),
        Segment::CurveTo(c1, c2, p) => Segment::CurveTo(
            scale_pt(c1, num, den),
            scale_pt(c2, num, den),
            scale_pt(p, num, den),
        ),
    }
}

pub open spec fn scale_sub(s: SubView, num: i64, den: i64) -> SubView {
    SubView {
        start: scale_pt(s.start, num, den),
        segs: s.segs.map(|j: int, g: Segment| scale_segment(g, num, den)),
        closed: s.closed,
    }
}

/// The outline scaled coordinate-wise by `num / den`.
pub open spec fn scaled_view(v: Seq<SubView>, num: i64, den: i64) -> Seq<SubView> {
    v.map(|i: int, s: SubView| scale_sub(s, num, den))
}

fn scale_coord(c: i64, num: i64, den: i64) -> (r: i64)
    requires
        0 < den <= 0x4000_0000,
        0 < num <= den * 4096,
        -SCALE_INPUT_LIMIT <= c <= SCALE_INPUT_LIMIT,
    ensures
        r == scale_c(c, num, den),
        coord_wf(r),
{
    proof {
        assert((c as int) * (num as int) <= COORD_LIMIT as int * den as int && -(
        COORD_LIMIT as int) * (den as int) <= (c as int) * (num as int) && -0x40_0000_0000_0000_0000
            <= (c as int) * (num as int) <= 0x40_0000_0000_0000_0000) by (nonlinear_arith)
            requires
                0 < den <= 0x4000_0000,
                0 < num <= den * 4096,
                -SCALE_INPUT_LIMIT <= c <= SCALE_INPUT_LIMIT,
                SCALE_INPUT_LIMIT == 0x40_0000,
                COORD_LIMIT == 0x4_0000_0000,
        ;
        crate::fixed::lemma_div_round_bound(
            c as int * num as int,
            den as int,
            COORD_LIMIT as int,
        );
    }
    let prod: i128 = (c as i128) * (num as i128);
    let q = crate::fixed::div_round_i128(prod, den as i128);
    q as i64
}

fn scale_point(p: Pt, num: i64, den: i64) -> (r: Pt)
    requires
        0 < den <= 0x4000_0000,
        0 < num <= den * 4096,
        pt_bounded(p, SCALE_INPUT_LIMIT as int),
    ensures
        r == scale_pt(p, num, den),
        pt_wf(r),
{
    Pt { x: scale_coord(p.x, num, den), y: scale_coord(p.y, num, den) }
}

impl Outline {
    /// A copy of the outline with every coordinate multiplied by `num / den`
    /// and rounded to the nearest fixed-point value, used to normalize an
    /// outline to em-relative units without re-walking its source.
    pub fn scaled(&self, num: i64, den: i64) -> (r: Outline)
        requires
            0 < den <= 0x4000_0000,
            0 < num <= den * 4096,
            coords_bounded(self@, SCALE_INPUT_LIMIT as int),
        ensures
            r@ =~= scaled_view(self@, num, den),
            outline_wf(r@),
    {
        let mut out: Vec<Subpath> = Vec::new();
        let mut i: usize = 0;
        while i < self.subpaths.len()
            invariant
                0 <= i <= self@.len(),
                self@.len() == self.subpaths@.len(),
                forall|k: int| 0 <= k < self@.len() ==> self@[k] == self.subpaths@[k]@,
                coords_bounded(self@, SCALE_INPUT_LIMIT as int),
                0 < den <= 0x4000_0000,
                0 < num <= den * 4096,
                out@.len() == i,
                forall|k: int|
                    0 <= k < i ==> out@[k]@ == scale_sub(self@[k], num, den) && sub_wf(out@[k]@),
            decreases self@.len() - i,
        {
            let sub = &self.subpaths[i];
            let ghost sv = self@[i as int];
            let start = scale_point(sub.start, num, den);
            let mut body: Vec<Segment> = Vec::new();
            let mut j: usize = 0;
            while j < sub.body.len()
                invariant
                    0 <= i < self@.len(),
                    0 <= j <= sv.segs.len(),
                    sv == self@[i as int],
                    sub@ == sv,
                    sub.body@ == sv.segs,
                    sub_bounded(sv, SCALE_INPUT_LIMIT as int),
                    0 < den <= 0x4000_0000,
                    0 < num <= den * 4096,
                    body@.len() == j,
                    forall|k: int|
                        0 <= k < j ==> body@[k] == scale_segment(sv.segs[k], num, den)
                            && segment_wf(#[trigger] body@[k]),
                decreases sv.segs.len() - j,
            {
                let ghost gj = sv.segs[j as int];
                let sg = match sub.body[j] {
                    Segment::LineTo(p) => {
                        proof {
                            assert(segment_points(gj)[0] == p);
                        }
                        Segment::LineTo(scale_point(p, num, den))
                    },
                    Segment::QuadTo(c, p) => {
                        proof {
                            assert(segment_points(gj)[0] == c);
                            assert(segment_points(gj)[1] == p);
                        }
                        Segment::QuadTo(scale_point(c, num, den), scale_point(p, num, den))
                    },
                    Segment::CurveTo(c1, c2, p) => {
                        proof {
                            assert(segment_points(gj)[0] == c1);
                            assert(segment_points(gj)[1] == c2);
                            assert(segment_points(gj)[2] == p);
                        }
                        Segment::CurveTo(
                            scale_point(c1, num, den),
                            scale_point(c2, num, den),
                            scale_point(p, num, den),
                        )
                    },
                };
                body.push(sg);
                j = j + 1;
            }
            proof {
                assert(body@ =~= sv.segs.map(|k: int, g: Segment| scale_segment(g, num, den)));
            }
            out.push(Subpath { start, body, closed: sub.closed });
            i = i + 1;
        }
        let r = Outline { subpaths: out };
        proof {
            assert forall|k: int| 0 <= k < r@.len() implies r@[k] == scale_sub(
                self@[k],
                num,
                den,
            ) && sub_wf(#[trigger] r@[k]) by {
                assert(r@[k] == out@[k]@);
            }
            assert(r@ =~= scaled_view(self@, num, den));
        }
        r
    }
}

/// The verb codes a planar boolean engine hands back for a rebuilt path:
/// move, line, quadratic, conic, cubic and close, in that order.
pub const VERB_MOVE: u8 = 0;

pub const VERB_LINE: u8 = 1;

pub const VERB_QUAD: u8 = 2;

pub const VERB_CONIC: u8 = 3;

pub const VERB_CUBIC: u8 = 4;

pub const VERB_CLOSE: u8 = 5;

/// The outline denoted by the engine's verb array from verb `k` on, with
/// point cursor `c`, continuing the outline `acc`. A conic verb, or one
/// outside the six known codes, is the unsupported segment kind; a verb
/// whose points run out is a geometry engine fault.
pub open spec fn from_verbs_rec(
    verbs: Seq<u8>,
    pts: Seq<Pt>,
    k: int,
    c: int,
    acc: Seq<SubView>,
) -> Result<Seq<SubView>, MetrologyError>
    decreases verbs.len() - k,
{
    if k < 0 || k >= verbs.len() {
        Ok(acc)
    } else {
        let vb = verbs[k];
        if vb == VERB_MOVE {
            if c + 1 <= pts.len() {
                from_verbs_rec(
                    verbs,
                    pts,
                    k + 1,
                    c + 1,
                    acc.push(SubView { start: pts[c], segs: Seq::empty(), closed: false }),
                )
            } else {
                Err(MetrologyError::GeometryEngine)
            }
        } else if vb == VERB_LINE {
            if c + 1 <= pts.len() {
                from_verbs_rec(
                    verbs,
                    pts,
                    k + 1,
                    c + 1,
                    Outline::with_segment(acc, Segment::LineTo(pts[c]), pts[c]),
                )
            } else {
                Err(MetrologyError::GeometryEngine)
            }
        } else if vb == VERB_QUAD {
            if c + 2 <= pts.len() {
                from_verbs_rec(
                    verbs,
                    pts,
                    k + 1,
                    c + 2,
                    Outline::with_segment(acc, Segment::QuadTo(pts[c], pts[c + 1]), pts[c + 1]),
                )
            } else {
                Err(MetrologyError::GeometryEngine)
            }
        } else if vb == VERB_CUBIC {
            if c + 3 <= pts.len() {
                from_verbs_rec(
                    verbs,
                    pts,
                    k + 1,
                    c + 3,
                    Outline::with_segment(
                        acc,
                        Segment::CurveTo(pts[c], pts[c + 1], pts[c + 2]),
                        pts[c + 2],
                    ),
                )
            } else {
                Err(MetrologyError::GeometryEngine)
            }
        } else if vb == VERB_CLOSE {
            from_verbs_rec(verbs, pts, k + 1, c, Outline::with_close(acc))
        } else {
            Err(MetrologyError::UnsupportedSegmentKind)
        }
    }
}

/// The outline denoted by a whole verb and point array.
pub open spec fn from_verbs_spec(verbs: Seq<u8>, pts: Seq<Pt>) -> Result<
    Seq<SubView>,
    MetrologyError,
> {
    from_verbs_rec(verbs, pts, 0, 0, Seq::empty())
}

/// Rebuilds an outline from the verb and point arrays a planar boolean
/// engine hands back after an operation. A conic verb, or an unknown one,
/// yields the unsupported segment kind; a verb whose points run out yields
/// the geometry engine error.
pub fn outline_from_verbs(verbs: &Vec<u8>, pts: &Vec<Pt>) -> (r: Result<Outline, MetrologyError>)
    requires
        forall|i: int| 0 <= i < pts@.len() ==> pt_wf(#[trigger] pts@[i]),
    ensures
        match r {
            Ok(o) => from_verbs_spec(verbs@, pts@) == Ok::<Seq<SubView>, MetrologyError>(o@),
            Err(e) => from_verbs_spec(verbs@, pts@) == Err::<Seq<SubView>, MetrologyError>(e),
        },
{
    let mut out = Outline::new();
    let mut k: usize = 0;
    let mut c: usize = 0;
    proof {
        assert(out@ =~= Seq::<SubView>::empty());
    }
    while k < verbs.len()
        invariant
            0 <= k <= verbs@.len(),
            0 <= c <= pts@.len(),
            forall|i: int| 0 <= i < pts@.len() ==> pt_wf(#[trigger] pts@[i]),
            from_verbs_rec(verbs@, pts@, k as int, c as int, out@) == from_verbs_spec(
                verbs@,
                pts@,
            ),
        decreases verbs@.len() - k,
    {
        let vb = verbs[k];
        if vb == VERB_MOVE {
            if pts.len() - c < 1 {
                return Err(MetrologyError::GeometryEngine);
            }
            let p = pts[c];
            out.move_to(p.x, p.y);
            c = c + 1;
        } else if vb == VERB_LINE {
            if pts.len() - c < 1 {
                return Err(MetrologyError::GeometryEngine);
            }
            let p = pts[c];
            out.line_to(p.x, p.y);
            c = c + 1;
        } else if vb == VERB_QUAD {
            if pts.len() - c < 2 {
                return Err(MetrologyError::GeometryEngine);
            }
            let q = pts[c];
            let p = pts[c + 1];
            out.quad_to(q.x, q.y, p.x, p.y);
            c = c + 2;
        } else if vb == VERB_CUBIC {
            if pts.len() - c < 3 {
                return Err(MetrologyError::GeometryEngine);
            }
            let q1 = pts[c];
            let q2 = pts[c + 1];
            let p = pts[c + 2];
            out.curve_to(q1.x, q1.y, q2.x, q2.y, p.x, p.y);
            c = c + 3;
        } else if vb == VERB_CLOSE {
            out.close();
        } else {
            return Err(MetrologyError::UnsupportedSegmentKind);
        }
        k = k + 1;
    }
    Ok(out)
}

/// The end point of one segment.
pub open spec fn seg_end(g: Segment) -> Pt {
    match g {
        Segment::LineTo(p) => p,
        Segment::QuadTo(_, p) => p,
        Segment::CurveTo(_, _, p) => p,
    }
}

/// The pen position just before segment `j` of a subpath.
pub open spec fn pos_before(s: SubView, j: int) -> Pt {
    if j == 0 {
        s.start
    } else {
        seg_end(s.segs[j - 1])
    }
}

/// Whether segment `j` draws any ink: some control point differs from the
/// position the segment starts at.
pub open spec fn seg_has_ink(s: SubView, j: int) -> bool {
    exists|p: Pt| segment_points(s.segs[j]).contains(p) && p != pos_before(s, j)
}

pub open spec fn sub_has_ink(s: SubView) -> bool {
    exists|j: int| 0 <= j < s.segs.len() && seg_has_ink(s, j)
}

/// Whether the outline draws any ink: some segment leaves its start point,
/// which holds exactly when the total contour length is not zero.
pub open spec fn outline_has_ink(v: Seq<SubView>) -> bool {
    exists|i: int| 0 <= i < v.len() && sub_has_ink(#[trigger] v[i])
}

impl Outline {
    /// Whether the outline draws any ink.
    pub fn has_ink(&self) -> (r: bool)
        ensures
            r == outline_has_ink(self@),
    {
        let mut i: usize = 0;
        while i < self.subpaths.len()
            invariant
                0 <= i <= self@.len(),
                self@.len() == self.subpaths@.len(),
                forall|k: int| 0 <= k < self@.len() ==> self@[k] == self.subpaths@[k]@,
                forall|k: int| 0 <= k < i ==> !sub_has_ink(#[trigger] self@[k]),
            decreases self@.len() - i,
        {
            let sub = &self.subpaths[i];
            let ghost sv = self@[i as int];
            let mut cur = sub.start;
            let mut j: usize = 0;
            while j < sub.body.len()
                invariant
                    0 <= i < self@.len(),
                    0 <= j <= sv.segs.len(),
                    sv == self@[i as int],
                    sub@ == sv,
                    sub.body@ == sv.segs,
                    cur == pos_before(sv, j as int),
                    forall|k: int| 0 <= k < j ==> !seg_has_ink(sv, k),
                decreases sv.segs.len() - j,
            {
                let ghost gj = sv.segs[j as int];
                let inked: bool;
                match sub.body[j] {
                    Segment::LineTo(p) => {
                        inked = p.x != cur.x || p.y != cur.y;
                        proof {
                            assert(segment_points(gj)[0] == p);
                            if inked {
                                assert(segment_points(gj).contains(p));
                                assert(p != pos_before(sv, j as int));
                                assert(seg_has_ink(sv, j as int));
                            } else {
                                assert(p == cur);
                                assert forall|q: Pt|
                                    segment_points(gj).contains(q) implies q == pos_before(
                                    sv,
                                    j as int,
                                ) by {}
                            }
                        }
                        cur = p;
                    },
                    Segment::QuadTo(c, p) => {
                        inked = c.x != cur.x || c.y != cur.y || p.x != cur.x || p.y != cur.y;
                        proof {
                            assert(segment_points(gj)[0] == c);
                            assert(segment_points(gj)[1] == p);
                            if inked {
                                if c.x != cur.x || c.y != cur.y {
                                    assert(segment_points(gj).contains(c));
                                    assert(c != pos_before(sv, j as int));
                                } else {
                                    assert(segment_points(gj).contains(p));
                                    assert(p != pos_before(sv, j as int));
                                }
                                assert(seg_has_ink(sv, j as int));
                            } else {
                                assert forall|q: Pt|
                                    segment_points(gj).contains(q) implies q == pos_before(
                                    sv,
                                    j as int,
                                ) by {}
                            }
                        }
                        cur = p;
                    },
                    Segment::CurveTo(c1, c2, p) => {
                        inked = c1.x != cur.x || c1.y != cur.y || c2.x != cur.x || c2.y != cur.y
                            || p.x != cur.x || p.y != cur.y;
                        proof {
                            assert(segment_points(gj)[0] == c1);
                            assert(segment_points(gj)[1] == c2);
                            assert(segment_points(gj)[2] == p);
                            if inked {
                                if c1.x != cur.x || c1.y != cur.y {
                                    assert(segment_points(gj).contains(c1));
                                    assert(c1 != pos_before(sv, j as int));
                                } else if c2.x != cur.x || c2.y != cur.y {
                                    assert(segment_points(gj).contains(c2));
                                    assert(c2 != pos_before(sv, j as int));
                                } else {
                                    assert(segment_points(gj).contains(p));
                                    assert(p != pos_before(sv, j as int));
                                }
                                assert(seg_has_ink(sv, j as int));
                            } else {
                                assert forall|q: Pt|
                                    segment_points(gj).contains(q) implies q == pos_before(
                                    sv,
                                    j as int,
                                ) by {}
                            }
                        }
                        cur = p;
                    },
                }
                if inked {
                    return true;
                }
                j = j + 1;
            }
            i = i + 1;
        }
        false
    }
}

} // verus!
