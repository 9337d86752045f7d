//! Stencil detection: a glyph is stencil-structured when, after overlap
//! removal, no two distinct subpaths of its outline share any filled area.
//!
//! The planar boolean engine answers the pairwise overlap question; the
//! decision over those answers is made here. A glyph with no subpaths or no
//! ink is not stencil evidence, and a font is reported stencil only when
//! every tested glyph with ink passes.

use crate::outline::{outline_has_ink, Outline, SubView};
use vstd::prelude::*;

verus! {

/// Whether two subpath values are the same drawing.
pub open spec fn sub_same(a: SubView, b: SubView) -> bool {
    a.start == b.start && a.segs == b.segs && a.closed == b.closed
}

/// Whether the pairwise overlap answers allow a stencil structure: the
/// outline has subpaths and ink, and no ordered pair of distinct subpaths
/// overlaps. The answer for the pair `(i, j)` stands at `i * n + j`.
pub open spec fn stencil_glyph_spec(v: Seq<SubView>, overlaps: Seq<bool>) -> bool {
    &&& v.len() > 0
    &&& outline_has_ink(v)
    &&& forall|i: int, j: int|
        0 <= i < v.len() && 0 <= j < v.len() && !sub_same(v[i], v[j]) ==> !overlaps[i * v.len()
            + j]
}

/// Whether two subpaths are the same drawing, in executable form.
fn same_subpath(a: &crate::outline::Subpath, b: &crate::outline::Subpath) -> (r: bool)
    ensures
        r == sub_same(a@, b@),
{
    if a.start.x != b.start.x || a.start.y != b.start.y {
        return false;
    }
    if a.closed != b.closed {
        return false;
    }
    if a.body.len() != b.body.len() {
        return false;
    }
    let mut i: usize = 0;
    while i < a.body.len()
        invariant
            0 <= i <= a.body@.len(),
            a.body@.len() == b.body@.len(),
            forall|k: int| 0 <= k < i ==> a.body@[k] == b.body@[k],
        decreases a.body@.len() - i,
    {
        let ga = a.body[i];
        let gb = b.body[i];
        if !(ga == gb) {
            return false;
        }
        i = i + 1;
    }
    proof {
        assert(a.body@ =~= b.body@);
    }
    true
}

/// Decides whether one cleaned glyph is stencil-structured, from its outline
/// and the boolean engine's pairwise overlap answers: true exactly when the
/// outline has subpaths and ink and no ordered pair of distinct subpaths
/// overlaps.
pub fn is_stencil_glyph(outline: &Outline, overlaps: &Vec<bool>) -> (r: bool)
    requires
        outline@.len() <= 30_000,
        overlaps@.len() == outline@.len() * outline@.len(),
    ensures
        r == stencil_glyph_spec(outline@, overlaps@),
{
    let n = outline.len();
    if n == 0 {
        return false;
    }
    if !outline.has_ink() {
        return false;
    }
    let mut i: usize = 0;
    while i < n
        invariant
            0 <= i <= n,
            n == outline@.len(),
            0 < n <= 30_000,
            overlaps@.len() == n * n,
            outline@.len() == outline.subpaths@.len(),
            forall|k: int| 0 <= k < outline@.len() ==> outline@[k] == outline.subpaths@[k]@,
            forall|a: int, b: int|
                0 <= a < i && 0 <= b < n && !sub_same(outline@[a], outline@[b]) ==> !overlaps@[a * (
                n as int) + b],
        decreases n - i,
    {
        let mut j: usize = 0;
        while j < n
            invariant
                0 <= j <= n,
                0 <= i < n,
                n == outline@.len(),
                0 < n <= 30_000,
                overlaps@.len() == n * n,
                outline@.len() == outline.subpaths@.len(),
                forall|k: int| 0 <= k < outline@.len() ==> outline@[k] == outline.subpaths@[k]@,
                forall|b: int|
                    0 <= b < j && !sub_same(outline@[i as int], outline@[b]) ==> !overlaps@[(
                    i as int) * (n as int) + b],
            decreases n - j,
        {
            let same = same_subpath(&outline.subpaths[i], &outline.subpaths[j]);
            proof {
                assert((i as int) * (n as int) + (j as int) < (n as int) * (n as int))
                    by (nonlinear_arith)
                    requires
                        0 <= i < n,
                        0 <= j < n,
                ;
                assert(0 <= (i as int) * (n as int)) by (nonlinear_arith)
                    requires
                        0 <= i,
                        0 < n,
                ;
                assert((i as int) * (n as int) <= 30_000 * 30_000) by (nonlinear_arith)
                    requires
                        0 <= i < n <= 30_000,
                ;
            }
            if !same {
                if overlaps[i * n + j] {
                    proof {
                        assert(!sub_same(outline@[i as int], outline@[j as int]));
                        assert(overlaps@[(i as int) * (outline@.len() as int) + (j as int)]);
                        assert(!stencil_glyph_spec(outline@, overlaps@));
                    }
                    return false;
                }
            }
            j = j + 1;
        }
        i = i + 1;
    }
    true
}

/// Whether every tested glyph passed: the font is stencil only when each
/// glyph's decision held.
pub fn all_stencil(decisions: &Vec<bool>) -> (r: bool)
    ensures
        r == (forall|i: int| 0 <= i < decisions@.len() ==> decisions@[i]),
{
    let mut i: usize = 0;
    while i < decisions.len()
        invariant
            0 <= i <= decisions@.len(),
            forall|k: int| 0 <= k < i ==> decisions@[k],
        decreases decisions@.len() - i,
    {
        if !decisions[i] {
            return false;
        }
        i = i + 1;
    }
    true
}

} // verus!
