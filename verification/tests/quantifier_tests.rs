//! The quantifier compositions: stencil decisions, the parametric presets,
//! per-mille normalization, sidebearing search, whole-font statistics, the
//! ray-cast contrast and the metric record.

use fontquant::contrast::{combined_contrast, contrast_presets, stroke_contrast_raycaster};
use fontquant::green::green_statistics;
use fontquant::outline::{Outline, Pt};
use fontquant::parametric::{
    axis_presets, coordinate_per_mille, left_sides, min_value, per_mille_of,
};
use fontquant::raycaster::{
    east, north, CastSnapshot, Probe, ProportionalPoint, RayDirection, Raycaster, Winding,
};
use fontquant::results::{MetricKey, MetricValue, Rational, Results};
use fontquant::stencil::{all_stencil, is_stencil_glyph};
use fontquant::wholefont::{whole_font_statistics, GlyphRecord};

fn two_bars() -> Outline {
    let mut o = Outline::new();
    o.move_to(0, 0);
    o.line_to(400_000, 0);
    o.line_to(400_000, 1_000_000);
    o.line_to(0, 1_000_000);
    o.close();
    o.move_to(600_000, 0);
    o.line_to(1_000_000, 0);
    o.line_to(1_000_000, 1_000_000);
    o.line_to(600_000, 1_000_000);
    o.close();
    o
}

#[test]
fn disjoint_pieces_are_stencil() {
    let o = two_bars();
    let overlaps = vec![false; 4];
    assert!(is_stencil_glyph(&o, &overlaps));
}

#[test]
fn an_overlapping_pair_is_not_stencil() {
    let o = two_bars();
    // The engine reports the two distinct subpaths sharing area.
    let overlaps = vec![false, true, true, false];
    assert!(!is_stencil_glyph(&o, &overlaps));
}

#[test]
fn a_glyph_without_ink_is_not_stencil() {
    let mut o = Outline::new();
    o.move_to(5, 5);
    o.close();
    assert!(!is_stencil_glyph(&o, &vec![false]));
}

#[test]
fn the_font_is_stencil_only_when_every_glyph_is() {
    assert!(all_stencil(&vec![true, true, true]));
    assert!(!all_stencil(&vec![true, false, true]));
    assert!(all_stencil(&Vec::new()));
}

#[test]
fn the_presets_cover_the_nine_axes() {
    let presets = axis_presets();
    let names: Vec<&str> = presets.iter().map(|p| p.name.as_str()).collect();
    assert_eq!(
        names,
        vec!["XOPQ", "XOLC", "XOFI", "XTRA", "XTLC", "XTFI", "YOPQ", "YOLC", "YOFI"],
    );
    assert_eq!(presets[0].glyph, 'H');
    assert_eq!((presets[0].start.x_ppm, presets[0].start.y_ppm), (0, 500_000));
    assert!(matches!(presets[0].direction, RayDirection::Vector(1000, 0)));
    assert_eq!(presets[0].jitter_ppm, Some(200_000));
    assert_eq!(presets[0].samples, 12);
    assert_eq!(presets[2].jitter_ppm, None);
    assert_eq!(presets[4].winding, Winding::Transparent);
    assert_eq!((presets[6].start.x_ppm, presets[6].start.y_ppm), (500_000, 250_000));
    assert!(matches!(presets[6].direction, RayDirection::Vector(0, 1000)));
    assert_eq!(presets[7].glyph, 'f');
    match presets[7].direction {
        RayDirection::EndPoint(e) => assert_eq!((e.x_ppm, e.y_ppm), (750_000, 900_000)),
        _ => panic!("the lowercase f preset lost its end point"),
    }
    assert_eq!((presets[7].jitter_ppm, presets[7].samples), (Some(100_000), 6));
    assert_eq!((presets[8].jitter_ppm, presets[8].samples), (Some(50_000), 12));
}

#[test]
fn the_contrast_presets_carry_their_weights_and_probes() {
    let presets = contrast_presets();
    let shape: Vec<(char, u8)> = presets.iter().map(|p| (p.glyph, p.weight)).collect();
    assert_eq!(shape, vec![('o', 5), ('H', 3), ('T', 2), ('n', 4)]);
    assert_eq!(
        (presets[0].north_start.x_ppm, presets[0].north_start.y_ppm),
        (500_000, 0),
    );
    assert_eq!(presets[0].north_jitter, Some((200_000, 20)));
    assert_eq!(presets[0].east_jitter, Some((200_000, 50)));
    assert_eq!(
        (presets[1].east_start.x_ppm, presets[1].east_start.y_ppm),
        (0, 150_000),
    );
    assert_eq!(presets[1].north_jitter, None);
    assert_eq!(
        (presets[3].north_start.x_ppm, presets[3].north_start.y_ppm),
        (400_000, 500_000),
    );
}

#[test]
fn per_mille_rounds_in_units_then_normalizes() {
    // 96500 milliunits round to 97 units, and 97 of 1000 is 97 per mille.
    assert_eq!(per_mille_of(96_500, 1000), 97);
    // 192 units of a 2048 em: 93.75 rounds away from zero to 94.
    assert_eq!(per_mille_of(192_000, 2048), 94);
    assert_eq!(per_mille_of(-192_000, 2048), -94);
}

#[test]
fn coordinates_carry_an_exact_per_mille_ratio() {
    let r = coordinate_per_mille(734_000, 1000);
    assert_eq!((r.num, r.den), (734_000, 1000));
}

#[test]
fn left_sides_take_the_first_pair_of_each_probe() {
    let probe = |x: i64| Probe {
        long_a: Pt { x: x - 500_000, y: 0 },
        long_b: Pt { x: x + 900_000, y: 0 },
        short_a: Pt { x, y: 0 },
        short_b: Pt { x: x + 800_000, y: 0 },
    };
    let probes = vec![probe(10_000), probe(20_000), probe(30_000)];
    let pairs = vec![
        vec![(100_000i64, 150_000i64)],
        Vec::new(),
        vec![(90_000, 120_000), (200_000, 240_000)],
    ];
    // Eastward: the unit direction carries the offset straight onto x.
    let xs = left_sides(&probes, &pairs, 1000);
    assert_eq!(xs, vec![110_000, 120_000]);
    assert_eq!(min_value(&xs), Some(110_000));
    assert_eq!(min_value(&Vec::new()), None);
}

#[test]
fn whole_font_statistics_aggregate_exactly() {
    // Two glyphs of one square em each: a full-ink square and an empty one.
    let mut full = Outline::new();
    full.move_to(0, 0);
    full.line_to(1000, 0);
    full.line_to(1000, 1000);
    full.line_to(0, 1000);
    full.close();
    let records = vec![
        GlyphRecord { advance: 500, moments: green_statistics(&full) },
        GlyphRecord { advance: 300, moments: green_statistics(&Outline::new()) },
    ];
    let s = whole_font_statistics(&records, 1000).unwrap();
    // One square em of ink over eight hundred units of width, times the em.
    assert_eq!(s.weight.num, 60_000_000 * 1000);
    assert_eq!(s.weight.den, 60_000_000 * 800);
    assert_eq!((s.width.num, s.width.den), (800, 2000));
    assert_eq!((s.slant_ratio.num, s.slant_ratio.den), (0, 2000));
    assert!(whole_font_statistics(&Vec::new(), 1000).is_none());
}

#[test]
fn raycast_contrast_is_the_ratio_of_the_two_medians() {
    let o = two_bars();
    let mut north_rc = Raycaster::new(&o, ProportionalPoint::new(500_000, 0), north());
    north_rc.winding(Winding::Ink);
    let mut east_rc = Raycaster::new(&o, ProportionalPoint::new(0, 500_000), east());
    east_rc.winding(Winding::Ink);
    // Three northward probes, each crossing one bar over its full height;
    // one eastward probe crossing both bars.
    let north_snap = CastSnapshot {
        rays: vec![
            vec![10_000, 1_010_000],
            vec![10_000, 1_010_000],
            vec![10_000, 1_010_000],
        ],
    };
    let east_snap = CastSnapshot { rays: vec![vec![10_000, 410_000, 610_000, 1_010_000]] };
    let c = stroke_contrast_raycaster(&north_rc, &north_snap, &east_rc, &east_snap).unwrap();
    // East pairs under ink: two spans of four hundred units; median four
    // hundred thousand. North: one million per probe.
    assert_eq!((c.num, c.den), (400_000, 1_000_000));
}

#[test]
fn contrasts_combine_under_the_glyph_weights() {
    // Two and a half at weight five with three at weight three: the
    // thousandth-quantized weighted mean.
    let contrasts = vec![
        (Rational::new(5, 2), 5u8),
        (Rational::new(3, 1), 3u8),
    ];
    let avg = combined_contrast(&contrasts).unwrap();
    assert_eq!((avg.num, avg.den), (5 * 2500 + 3 * 3000, 8000));
    assert!(combined_contrast(&Vec::new()).is_none());
}

#[test]
fn results_record_and_replace_in_insertion_order() {
    let mut results = Results::new();
    let weight_key = MetricKey {
        name: "weight".to_owned(),
        description: "the ink share of the em".to_owned(),
        example_value: MetricValue::Integer(1),
    };
    let stencil_key = MetricKey {
        name: "stencil".to_owned(),
        description: "whether the pieces stay apart".to_owned(),
        example_value: MetricValue::Boolean(false),
    };
    results.add_metric(&weight_key, MetricValue::Integer(12));
    results.add_metric(&stencil_key, MetricValue::Boolean(true));
    results.add_metric(&weight_key, MetricValue::Integer(15));
    assert_eq!(results.len(), 2);
    let names = results.keys();
    assert_eq!(names[0], "weight");
    assert_eq!(names[1], "stencil");
    match results.get("weight").unwrap().value {
        MetricValue::Integer(v) => assert_eq!(v, 15),
        _ => panic!("the weight took another shape"),
    }
    match results.get("stencil").unwrap().value {
        MetricValue::Boolean(v) => assert!(v),
        _ => panic!("the flag took another shape"),
    }
    assert!(results.get("slant").is_none());
}
