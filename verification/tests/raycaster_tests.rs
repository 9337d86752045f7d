//! The ray caster: probe geometry, crossing processing, the pairing policy
//! and the reduction to one distance.

use fontquant::outline::Outline;
use fontquant::raycaster::{
    east, north, CastSnapshot, ProbeCrossings, ProportionalPoint, Raycaster, Winding,
};

/// A thousand-unit-wide, three-hundred-unit-tall rectangle, in milliunits.
fn rectangle() -> Outline {
    let mut o = Outline::new();
    o.move_to(0, 0);
    o.line_to(1_000_000, 0);
    o.line_to(1_000_000, 300_000);
    o.line_to(0, 300_000);
    o.close();
    o
}

/// The crossings a vertical probe of the rectangle sees: the two horizontal
/// edges, measured from the short segment's start.
fn rectangle_north_crossings(rc: &Raycaster) -> Vec<ProbeCrossings> {
    let probes = rc.probes();
    let mut out = Vec::new();
    for p in probes {
        let offsets = vec![0 - p.short_a.y, 300_000 - p.short_a.y];
        let span = p.short_b.y - p.short_a.y;
        out.push(ProbeCrossings { offsets, span });
    }
    out
}

#[test]
fn rectangle_short_axis_distance_is_its_height() {
    // A rectangle-like outline probed along its short axis with the ink
    // policy and exactly two edge crossings yields one pair whose distance
    // is the side length, whatever the jitter.
    let o = rectangle();
    for (jitter, samples) in [(100_000i64, 12usize), (300_000, 7), (450_000, 40)] {
        let mut rc = Raycaster::new(&o, ProportionalPoint::new(500_000, 0), north());
        rc.winding(Winding::Ink);
        rc.jitter(jitter, samples);
        let crossings = rectangle_north_crossings(&rc);
        assert_eq!(crossings.len(), samples);
        let snap = rc.cast(&crossings);
        assert_eq!(rc.median_pair_distance(&snap, false), 300_000);
        assert_eq!(rc.median_pair_distance(&snap, true), 300_000);
    }
}

#[test]
fn default_jitter_spreads_probes() {
    let o = rectangle();
    let rc = Raycaster::new(&o, ProportionalPoint::new(500_000, 0), north());
    assert_eq!(rc.probes().len(), 12);
    // The default carries jitter; the probes of one fresh cast share the
    // direction but spread across the box.
    let p = rc.probes();
    assert!(p[0].short_a.x != p[11].short_a.x);
}

#[test]
fn probe_margin_exceeds_the_glyph_box() {
    let o = rectangle();
    let rc = Raycaster::new(&o, ProportionalPoint::new(0, 500_000), east());
    let probes = rc.probes();
    for p in probes {
        // The long segment starts left of the expanded box and ends right of
        // it; the short one is inset by five units around the nominal span.
        assert!(p.long_a.x < -10_000);
        assert!(p.long_b.x > 1_010_000);
        assert!(p.short_a.x < p.short_b.x);
    }
}

#[test]
fn crossings_are_sorted_merged_and_windowed() {
    let o = rectangle();
    let rc = Raycaster::new(&o, ProportionalPoint::new(500_000, 0), north());
    // Offsets arrive unsorted; two of them sit closer than five units and
    // merge; offsets at or before the five-unit threshold, or past the span,
    // are dropped.
    let crossings = vec![ProbeCrossings {
        offsets: vec![200_000, 6_000, 203_000, 4_000, 390_000],
        span: 320_000,
    }];
    let snap = rc.cast(&crossings);
    assert_eq!(snap.rays.len(), 1);
    // Sorted: 4000, 6000, 200000, 203000, 390000. The 6000 merges into the
    // 4000 and the 203000 into the 200000; the 4000 then falls at or before
    // the five-unit threshold and the 390000 past the span.
    assert_eq!(snap.rays[0], vec![200_000]);
}

#[test]
fn ink_pairing_keeps_even_spans() {
    let rc = configured(Some(Winding::Ink));
    let snap = CastSnapshot { rays: vec![vec![10_000, 40_000, 60_000, 100_000]] };
    let pairs = rc.pairs(&snap);
    assert_eq!(pairs[0], vec![(10_000, 40_000), (60_000, 100_000)]);
}

#[test]
fn transparent_pairing_keeps_odd_spans() {
    let rc = configured(Some(Winding::Transparent));
    let snap = CastSnapshot { rays: vec![vec![10_000, 40_000, 60_000, 100_000]] };
    let pairs = rc.pairs(&snap);
    assert_eq!(pairs[0], vec![(40_000, 60_000)]);
}

#[test]
fn two_crossings_pair_directly_without_a_policy() {
    let rc = configured(None);
    let snap = CastSnapshot { rays: vec![vec![10_000, 40_000]] };
    let pairs = rc.pairs(&snap);
    assert_eq!(pairs[0], vec![(10_000, 40_000)]);
}

#[test]
fn a_single_crossing_pairs_nothing() {
    let rc = configured(Some(Winding::Ink));
    let snap = CastSnapshot { rays: vec![vec![10_000]] };
    let pairs = rc.pairs(&snap);
    assert!(pairs[0].is_empty());
}

#[test]
fn no_pairs_reduce_to_zero() {
    let rc = configured(Some(Winding::Ink));
    let snap = CastSnapshot { rays: vec![vec![10_000], vec![]] };
    assert_eq!(rc.median_pair_distance(&snap, true), 0);
}

#[test]
fn distances_flatten_in_probe_order() {
    let rc = configured(None);
    let snap = CastSnapshot { rays: vec![vec![0, 7_000], vec![10_000, 15_000, 30_000, 31_000]] };
    let ds = rc.distances(&snap);
    assert_eq!(ds, vec![7_000, 5_000, 15_000, 1_000]);
}

fn configured(w: Option<Winding>) -> Raycaster {
    let o = rectangle();
    let mut rc = Raycaster::new(&o, ProportionalPoint::new(500_000, 0), north());
    if let Some(w) = w {
        rc.winding(w);
    }
    rc
}
