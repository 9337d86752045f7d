//! Stroke contrast: the selection pipeline on synthetic chords, and the
//! antiqua scenario on a real two-contour lowercase o outline, its chords
//! measured with a planar geometry library.

use fontquant::contrast::{
    antiqua_contrast, antiqua_strokes, reject_candidates, Stroke, StrokeCandidate,
};
use fontquant::outline::Pt;
use kurbo::{flatten, Affine, BezPath, Line, ParamCurve, PathEl, Point, Shape};

fn cand(d: i64) -> StrokeCandidate {
    StrokeCandidate {
        p1: Pt { x: 0, y: 0 },
        p2: Pt { x: d, y: 0 },
        half_way: Pt { x: d / 2, y: 0 },
        distance: d,
    }
}

fn stroke(d: i64, x: i64, y: i64) -> Stroke {
    Stroke {
        half_way: Pt { x, y },
        p1: Pt { x: 0, y: 0 },
        p2: Pt { x: d, y: 0 },
        distance: d,
        position: 0,
    }
}

#[test]
fn candidate_rejection_drops_far_chords() {
    let cs = vec![cand(30_000), cand(30_000), cand(30_000), cand(30_000), cand(400_000)];
    let kept = reject_candidates(&cs);
    assert_eq!(kept.len(), 4);
    assert!(kept.iter().all(|c| c.distance == 30_000));
}

#[test]
fn each_vertex_keeps_its_shortest_chord() {
    let lists = vec![
        vec![cand(50_000), cand(30_000), cand(40_000)],
        Vec::new(),
        vec![cand(90_000)],
    ];
    let strokes = antiqua_strokes(&lists);
    assert_eq!(strokes.len(), 2);
    assert_eq!(strokes[0].distance, 30_000);
    assert_eq!(strokes[1].distance, 90_000);
}

#[test]
fn contrast_needs_two_strokes() {
    let strokes = vec![stroke(30_000, 0, 0)];
    assert!(antiqua_contrast(&strokes).is_none());
}

#[test]
fn zero_length_strokes_are_invalid_but_do_not_withhold_the_contrast() {
    // A degenerate chord of length zero drops out as invalid; the two valid
    // strokes still yield their ratio.
    let strokes = vec![stroke(0, 0, 0), stroke(5_000, 10, 10), stroke(7_000, 20, 20)];
    let (c, angle) = antiqua_contrast(&strokes).unwrap();
    assert_eq!((c.num, c.den), (7_000, 5_000));
    assert_eq!(angle, Some((-10, -10)));
}

#[test]
fn fewer_than_two_valid_strokes_give_nothing() {
    let strokes = vec![stroke(0, 0, 0), stroke(0, 10, 10), stroke(5_000, 20, 20)];
    assert!(antiqua_contrast(&strokes).is_none());
}

#[test]
fn contrast_is_the_ratio_of_extremes() {
    // Eight strokes around a ring: the shortest at position 0, a second
    // minimum far enough along, the longest elsewhere.
    let strokes = vec![
        stroke(27_000, 0, 0),
        stroke(60_000, 10, 10),
        stroke(80_000, 20, 20),
        stroke(84_000, 30, 30),
        stroke(70_000, 40, 40),
        stroke(28_000, 50, 50),
        stroke(55_000, 60, 60),
        stroke(45_000, 70, 70),
    ];
    let (c, angle) = antiqua_contrast(&strokes).unwrap();
    assert_eq!(c.num, 84_000);
    assert_eq!(c.den, 27_000);
    // The second minimum is the 28000 at position 5, more than a quarter of
    // the ring past the minimum.
    let (dx, dy) = angle.unwrap();
    assert_eq!((dx, dy), (-50, -50));
}

/// The lowercase o of EB Garamond, with a thickest stroke near 84 units and
/// a thinnest near 27.
const GARAMOND_O: &str = "M234 -14Q178 -14 133 12Q88 38 61 83Q35 129 35 187Q35 229 51 269Q68 309 98 342Q128 375 168 394Q208 414 254 414Q312 414 358 386Q405 358 432 312Q460 267 460 213Q460 155 434 103Q409 51 359 18Q309 -14 234 -14ZM255 16Q289 16 316 29Q343 42 358 71Q370 94 374 127Q378 160 378 189Q378 237 360 281Q343 326 311 354Q280 383 237 383Q210 383 188 374Q167 366 149 343Q129 318 123 282Q117 246 117 210Q117 161 135 116Q153 72 184 44Q215 16 255 16Z";

fn garamond_paths() -> Vec<BezPath> {
    let mut paths = Vec::new();
    let mut current = String::new();
    for c in GARAMOND_O.chars() {
        current.push(c);
        if c == 'Z' {
            paths.push(BezPath::from_svg(&current).unwrap());
            current.clear();
        }
    }
    paths
}

fn all_crossings(paths: &[BezPath], line: &Line) -> Vec<Point> {
    let mut pts = Vec::new();
    for path in paths {
        for seg in path.segments() {
            for hit in seg.intersect_line(*line) {
                pts.push(line.eval(hit.line_t));
            }
        }
    }
    pts.sort_by(|a, b| a.x.total_cmp(&b.x).then(a.y.total_cmp(&b.y)));
    pts.dedup();
    pts
}

/// Measures the candidate chords of each skeleton vertex the way the antiqua
/// method asks: the widest subpath flattened to a polyline, and for each
/// consecutive vertex pair a sweep of measurement lines around the
/// perpendicular, each contributing its two crossings nearest the midpoint.
fn garamond_candidates() -> Vec<Vec<StrokeCandidate>> {
    let mut paths = garamond_paths();
    paths.sort_by(|a, b| b.bounding_box().width().total_cmp(&a.bounding_box().width()));
    assert!(paths.len() >= 2);
    let mut skeleton: Vec<Point> = Vec::new();
    // A dense skeleton keeps the quarter-of-vertices rule local, so the
    // second minimum stays within the same thin region.
    flatten(paths[0].iter(), 0.01, |el| match el {
        PathEl::MoveTo(p) => skeleton.push(p),
        PathEl::LineTo(p) => skeleton.push(p),
        PathEl::ClosePath => {},
        _ => {},
    });
    let n = skeleton.len();
    let mut lists = Vec::new();
    for i in 0..n {
        let prev = skeleton[i];
        let point = skeleton[(i + 1) % n];
        if prev.distance(point) == 0.0 {
            continue;
        }
        let half_way = prev.lerp(point, 0.5);
        let mut cands = Vec::new();
        for angle in -30..31 {
            let outside = Affine::rotate_about(((90 + angle) as f64).to_radians(), half_way)
                * point;
            let d = outside.distance(half_way);
            if d == 0.0 {
                continue;
            }
            let far1 = half_way.lerp(outside, 5000.0 / d);
            let far2 = half_way.lerp(outside, -5000.0 / d);
            let mut hits = all_crossings(&paths, &Line::new(far1, far2));
            hits.sort_by(|a, b| {
                a.distance(half_way).total_cmp(&b.distance(half_way))
            });
            if hits.len() > 1 {
                let dist = hits[0].distance(hits[1]);
                if dist != 0.0 {
                    cands.push(StrokeCandidate {
                        p1: milli(hits[0]),
                        p2: milli(hits[1]),
                        half_way: milli(half_way),
                        distance: (dist * 1000.0).round() as i64,
                    });
                }
            }
        }
        lists.push(cands);
    }
    lists
}

fn milli(p: Point) -> Pt {
    Pt { x: (p.x * 1000.0).round() as i64, y: (p.y * 1000.0).round() as i64 }
}

#[test]
fn garamond_o_contrast_and_angle() {
    let lists = garamond_candidates();
    let strokes = antiqua_strokes(&lists);
    let (contrast, angle) = antiqua_contrast(&strokes).unwrap();
    let c = contrast.num as f64 / contrast.den as f64;
    assert!(c > 2.0, "contrast {c}");
    assert!(c < 3.5, "contrast {c}");
    // The angle vector joins the shortest stroke to a second minimum: both
    // ends are thin chords, so the stroke at the vector's far end measures
    // close to the thinnest. Which thin chord is picked, and so the exact
    // direction, moves with the collaborator's flattening of the skeleton.
    let (dx, dy) = angle.unwrap();
    assert!((dx, dy) != (0, 0));
    let min_stroke = strokes.iter().min_by_key(|s| s.distance).unwrap();
    let other = strokes
        .iter()
        .find(|s| {
            s.half_way.x == min_stroke.half_way.x - dx && s.half_way.y == min_stroke.half_way.y - dy
        })
        .unwrap();
    assert!(other.distance < min_stroke.distance * 3 / 2);
}
