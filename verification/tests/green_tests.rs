//! The curve statistics, held against hand-checked moments and against the
//! floating-point Green's-theorem reference on the same paths.

use fontquant::green::{center_of_mass, covariance, green_statistics, slant_milli, variance};
use fontquant::outline::Outline;
use greencurves::{ComputeGreenStatistics, CurveStatistics};

/// A slanted filled polygon: a slash-like parallelogram with straight sides.
fn slash_outline() -> Outline {
    let mut o = Outline::new();
    o.move_to(362, 714);
    o.line_to(96, 0);
    o.line_to(10, 0);
    o.line_to(276, 714);
    o.close();
    o
}

fn slash_bezpath() -> kurbo::BezPath {
    let mut p = kurbo::BezPath::new();
    p.move_to((362.0, 714.0));
    p.line_to((96.0, 0.0));
    p.line_to((10.0, 0.0));
    p.line_to((276.0, 714.0));
    p.close_path();
    p
}

#[test]
fn slash_moments_are_exact() {
    let m = green_statistics(&slash_outline());
    assert_eq!(m.area, -3_684_240);
    assert_eq!(m.mx, -9_593_760_960);
    assert_eq!(m.my, -18_413_831_520);
    assert_eq!(m.mxx, -23_323_945_888_320);
    assert_eq!(m.mxy, -93_309_022_255_680);
    assert_eq!(m.myy, -96_414_821_838_720);
}

#[test]
fn slash_derived_statistics() {
    let m = green_statistics(&slash_outline());
    assert_eq!(center_of_mass(&m), Some((186_000, 357_000)));
    assert_eq!(variance(&m), Some((6_512_666_667, 42_483_000_000)));
    assert_eq!(covariance(&m), Some(15_827_000_000));
    assert_eq!(slant_milli(&m), 373);
}

#[test]
fn slash_matches_float_reference() {
    let m = green_statistics(&slash_outline());
    let g = slash_bezpath().green_statistics();
    assert!((m.area as f64 / 60.0 - g.area()).abs() < 1e-6);
    assert!((m.mx as f64 / 840.0 - g.moment_x).abs() < 1e-3);
    assert!((m.myy as f64 / 9240.0 - g.moment_yy).abs() < 1.0);
}

#[test]
fn cubic_moments_match_float_reference() {
    let mut o = Outline::new();
    o.move_to(0, 0);
    o.curve_to(100, 200, 300, 200, 400, 0);
    o.curve_to(300, -150, 100, -150, 0, 0);
    o.close();
    let m = green_statistics(&o);
    assert_eq!(m.area, -4_410_000);
    assert_eq!(m.mx, -12_348_000_000);
    assert_eq!(m.my, -945_000_000);
    assert_eq!(m.mxx, -32_925_900_000_000);
    assert_eq!(m.mxy, -4_158_000_000_000);
    assert_eq!(m.myy, -2_927_925_000_000);

    let mut p = kurbo::BezPath::new();
    p.move_to((0.0, 0.0));
    p.curve_to((100.0, 200.0), (300.0, 200.0), (400.0, 0.0));
    p.curve_to((300.0, -150.0), (100.0, -150.0), (0.0, 0.0));
    p.close_path();
    let g = p.green_statistics();
    assert!((m.area as f64 / 60.0 - g.area()).abs() < 1e-6);
    assert!((m.mx as f64 / 840.0 - g.moment_x).abs() < 1e-3);
    assert!((m.my as f64 / 840.0 - g.moment_y).abs() < 1e-3);
    assert!((m.mxx as f64 / 9240.0 - g.moment_xx).abs() < 1e-1);
    assert!((m.mxy as f64 / 18480.0 - g.moment_xy).abs() < 1e-1);
    assert!((m.myy as f64 / 9240.0 - g.moment_yy).abs() < 1e-1);
}

#[test]
fn quad_moments_match_float_reference() {
    // A rounded closed shape of quadratics.
    let mut o = Outline::new();
    o.move_to(600, -20);
    o.quad_to(347, -20, 173, 38);
    o.quad_to(110, 340, 110, 530);
    o.quad_to(176, 852, 355, 1034);
    o.quad_to(612, 1092, 694, 1092);
    o.quad_to(894, 1058, 940, 1009);
    o.line_to(840, 888);
    o.quad_to(728, 922, 608, 938);
    o.quad_to(292, 938, 292, 532);
    o.quad_to(292, 338, 369, 235);
    o.quad_to(446, 132, 598, 132);
    o.quad_to(686, 132, 753, 150);
    o.line_to(876, 194);
    o.line_to(822, 10);
    o.quad_to(757, -5, 600, -20);
    o.close();
    let m = green_statistics(&o);
    let mut p = kurbo::BezPath::new();
    p.move_to((600.0, -20.0));
    p.quad_to((347.0, -20.0), (173.0, 38.0));
    p.quad_to((110.0, 340.0), (110.0, 530.0));
    p.quad_to((176.0, 852.0), (355.0, 1034.0));
    p.quad_to((612.0, 1092.0), (694.0, 1092.0));
    p.quad_to((894.0, 1058.0), (940.0, 1009.0));
    p.line_to((840.0, 888.0));
    p.quad_to((728.0, 922.0), (608.0, 938.0));
    p.quad_to((292.0, 938.0), (292.0, 532.0));
    p.quad_to((292.0, 338.0), (369.0, 235.0));
    p.quad_to((446.0, 132.0), (598.0, 132.0));
    p.quad_to((686.0, 132.0), (753.0, 150.0));
    p.line_to((876.0, 194.0));
    p.line_to((822.0, 10.0));
    p.quad_to((757.0, -5.0), (600.0, -20.0));
    p.close_path();
    let g = p.green_statistics();
    assert!((m.area as f64 / 60.0 - g.area()).abs() < 1e-6);
    assert!((m.mx as f64 / 840.0 - g.moment_x).abs() < 1e-2);
    assert!((m.my as f64 / 840.0 - g.moment_y).abs() < 1e-2);
    assert!((m.mxx as f64 / 9240.0 - g.moment_xx).abs() < 1.0);
    assert!((m.mxy as f64 / 18480.0 - g.moment_xy).abs() < 1.0);
    assert!((m.myy as f64 / 9240.0 - g.moment_yy).abs() < 1.0);
}

#[test]
fn empty_outline_has_zero_moments() {
    let o = Outline::new();
    let m = green_statistics(&o);
    assert_eq!(m.area, 0);
    assert_eq!(center_of_mass(&m), None);
    assert_eq!(variance(&m), None);
    assert_eq!(covariance(&m), None);
    assert_eq!(slant_milli(&m), 0);
}
