//! Quantifies visual properties of a typeface from the vector outlines of its
//! glyphs: weight, width, slant, stroke contrast, stencil structure, and a set
//! of parametric axis measurements.
//!
//! All geometry is carried in fixed-point integer coordinates so that every
//! measurement rule is stated and proved exactly. Callers that work with
//! floating-point outlines convert to and from the fixed-point representation
//! at the boundary.

pub mod contrast;
pub mod fixed;
pub mod font;
pub mod green;
pub mod outline;
pub mod parametric;
pub mod raycaster;
pub mod results;
pub mod stencil;
pub mod stats;
pub mod wholefont;

use vstd::prelude::*;

verus! {

/// Errors that abort the analysis of one font.
///
/// A missing glyph or an unmet measurement precondition is not an error:
/// quantifiers omit the metric instead.
#[derive(Debug, Clone, PartialEq, Eq, Structural)]
pub enum MetrologyError {
    /// The font reader could not parse the font bytes.
    FontParse,
    /// The glyph id exists but its outline program could not be drawn.
    OutlineDraw,
    /// The planar boolean engine failed to produce a result.
    GeometryEngine,
    /// A curve segment kind that the outline model does not carry
    /// (a conic) came back from the boolean engine.
    UnsupportedSegmentKind,
}

impl MetrologyError {
    /// A short description of the error, for reports.
    pub fn message(&self) -> (r: &'static str)
        ensures
            r@.len() > 0,
    {
        let s: &'static str = match self {
            MetrologyError::FontParse => "the font could not be parsed",
            MetrologyError::OutlineDraw => "a glyph outline could not be drawn",
            MetrologyError::GeometryEngine => "the boolean geometry engine failed",
            MetrologyError::UnsupportedSegmentKind => "an unsupported curve segment kind",
        };
        proof {
            reveal_strlit("the font could not be parsed");
            reveal_strlit("a glyph outline could not be drawn");
            reveal_strlit("the boolean geometry engine failed");
            reveal_strlit("an unsupported curve segment kind");
        }
        s
    }
}

} // verus!
