//! The outline model: pen building, the bounding box, scaling, ink
//! detection and the rebuild from a boolean engine's verb arrays.

use fontquant::outline::{outline_from_verbs, Box2, Outline, Pt, Segment};
use fontquant::MetrologyError;

#[test]
fn pen_builds_subpaths() {
    let mut o = Outline::new();
    o.move_to(10, 20);
    o.line_to(30, 20);
    o.quad_to(40, 25, 30, 40);
    o.close();
    o.move_to(100, 100);
    o.curve_to(110, 110, 120, 110, 130, 100);
    assert_eq!(o.len(), 2);
    assert_eq!(o.subpaths[0].start, Pt { x: 10, y: 20 });
    assert_eq!(o.subpaths[0].body.len(), 2);
    assert!(o.subpaths[0].closed);
    assert!(!o.subpaths[1].closed);
    assert_eq!(
        o.subpaths[1].body[0],
        Segment::CurveTo(Pt { x: 110, y: 110 }, Pt { x: 120, y: 110 }, Pt { x: 130, y: 100 }),
    );
}

#[test]
fn a_segment_before_any_move_starts_at_its_end_point() {
    let mut o = Outline::new();
    o.line_to(50, 60);
    assert_eq!(o.len(), 1);
    assert_eq!(o.subpaths[0].start, Pt { x: 50, y: 60 });
    assert_eq!(o.subpaths[0].body.len(), 0);
}

#[test]
fn bbox_covers_all_control_points() {
    let mut o = Outline::new();
    o.move_to(10, 20);
    o.quad_to(-5, 90, 30, 40);
    o.close();
    let b = o.bbox().unwrap();
    assert_eq!(b, Box2 { min_x: -5, min_y: 20, max_x: 30, max_y: 90 });
    assert!(Outline::new().bbox().is_none());
}

#[test]
fn scaling_rounds_to_nearest() {
    let mut o = Outline::new();
    o.move_to(10, -11);
    o.line_to(25, 3);
    o.close();
    let s = o.scaled(1, 2);
    assert_eq!(s.subpaths[0].start, Pt { x: 5, y: -6 });
    match s.subpaths[0].body[0] {
        Segment::LineTo(p) => assert_eq!(p, Pt { x: 13, y: 2 }),
        _ => panic!("a line was scaled into something else"),
    }
}

#[test]
fn ink_detection() {
    let mut blank = Outline::new();
    blank.move_to(5, 5);
    blank.line_to(5, 5);
    blank.close();
    assert!(!blank.has_ink());

    let mut inked = Outline::new();
    inked.move_to(5, 5);
    inked.line_to(6, 5);
    inked.close();
    assert!(inked.has_ink());

    assert!(!Outline::new().has_ink());
}

#[test]
fn verbs_rebuild_an_outline() {
    // move, line, quad, cubic, close.
    let verbs = vec![0u8, 1, 2, 4, 5];
    let pts = vec![
        Pt { x: 0, y: 0 },
        Pt { x: 10, y: 0 },
        Pt { x: 15, y: 5 },
        Pt { x: 10, y: 10 },
        Pt { x: 8, y: 12 },
        Pt { x: 4, y: 12 },
        Pt { x: 0, y: 10 },
    ];
    let o = outline_from_verbs(&verbs, &pts).unwrap();
    assert_eq!(o.len(), 1);
    assert_eq!(o.subpaths[0].start, Pt { x: 0, y: 0 });
    assert_eq!(o.subpaths[0].body.len(), 3);
    assert!(o.subpaths[0].closed);
}

#[test]
fn a_conic_verb_is_the_unsupported_segment_kind() {
    let verbs = vec![0u8, 3];
    let pts = vec![Pt { x: 0, y: 0 }, Pt { x: 1, y: 1 }, Pt { x: 2, y: 0 }];
    assert!(matches!(
        outline_from_verbs(&verbs, &pts),
        Err(MetrologyError::UnsupportedSegmentKind)
    ));
}

#[test]
fn exhausted_points_are_a_geometry_engine_fault() {
    let verbs = vec![0u8, 1];
    let pts = vec![Pt { x: 0, y: 0 }];
    assert!(matches!(outline_from_verbs(&verbs, &pts), Err(MetrologyError::GeometryEngine)));
}
