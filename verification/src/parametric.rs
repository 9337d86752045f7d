//! The parametric axis measurements: a fixed table of nine ray-cast presets
//! named after registered design axes, the per-mille normalization of their
//! measured distances, and the sidebearing search over a cast's pairs.

use crate::fixed::{div_round, div_trunc};
use crate::outline::Pt;
use crate::raycaster::{east, north, Probe, ProportionalPoint, RayDirection, Winding, UNIT};
use crate::results::str_to_string;
use vstd::prelude::*;

verus! {

/// One ray-cast preset: the axis name, the glyph it probes, the probe's
/// start and direction, its winding policy and its jitter.
pub struct AxisPreset {
    pub name: String,
    pub glyph: char,
    pub start: ProportionalPoint,
    pub direction: RayDirection,
    pub winding: Winding,
    pub jitter_ppm: Option<i64>,
    pub samples: usize,
}

/// Whether a preset is exactly the given configuration.
pub open spec fn preset_is(
    p: AxisPreset,
    name: Seq<char>,
    glyph: char,
    start: ProportionalPoint,
    direction: RayDirection,
    w: Winding,
    jitter_ppm: Option<i64>,
    samples: usize,
) -> bool {
    &&& p.name@ == name
    &&& p.glyph == glyph
    &&& p.start == start
    &&& p.direction == direction
    &&& p.winding == w
    &&& p.jitter_ppm == jitter_ppm
    &&& p.samples == samples
}

/// The nine ray-cast presets, in their reporting order: the opaque and
/// transparent horizontal measures of the capital, lowercase and figure
/// forms, and the three vertical opaque measures. Positions are millionths
/// of the box span, jitter amplitudes likewise.
pub fn axis_presets() -> (r: Vec<AxisPreset>)
    ensures
        r@.len() == 9,
        preset_is(
            r@[0],
            "XOPQ"@,
            'H',
            (ProportionalPoint { x_ppm: 0, y_ppm: 500_000 }),
            RayDirection::Vector(UNIT, 0),
            Winding::Ink,
            Some(200_000i64),
            12,
        ),
        preset_is(
            r@[1],
            "XOLC"@,
            'n',
            (ProportionalPoint { x_ppm: 0, y_ppm: 400_000 }),
            RayDirection::Vector(UNIT, 0),
            Winding::Ink,
            Some(200_000i64),
            12,
        ),
        preset_is(
            r@[2],
            "XOFI"@,
            '1',
            (ProportionalPoint { x_ppm: 0, y_ppm: 500_000 }),
            RayDirection::Vector(UNIT, 0),
            Winding::Ink,
            Option::<i64>::None,
            12,
        ),
        preset_is(
            r@[3],
            "XTRA"@,
            'H',
            (ProportionalPoint { x_ppm: 0, y_ppm: 500_000 }),
            RayDirection::Vector(UNIT, 0),
            Winding::Transparent,
            Option::<i64>::None,
            12,
        ),
        preset_is(
            r@[4],
            "XTLC"@,
            'n',
            (ProportionalPoint { x_ppm: 0, y_ppm: 400_000 }),
            RayDirection::Vector(UNIT, 0),
            Winding::Transparent,
            Option::<i64>::None,
            12,
        ),
        preset_is(
            r@[5],
            "XTFI"@,
            '0',
            (ProportionalPoint { x_ppm: 0, y_ppm: 500_000 }),
            RayDirection::Vector(UNIT, 0),
            Winding::Transparent,
            Some(50_000i64),
            10,
        ),
        preset_is(
            r@[6],
            "YOPQ"@,
            'H',
            (ProportionalPoint { x_ppm: 500_000, y_ppm: 250_000 }),
            RayDirection::Vector(0, UNIT),
            Winding::Ink,
            Some(100_000i64),
            10,
        ),
        preset_is(
            r@[7],
            "YOLC"@,
            'f',
            (ProportionalPoint { x_ppm: 750_000, y_ppm: 500_000 }),
            RayDirection::EndPoint(ProportionalPoint { x_ppm: 750_000, y_ppm: 900_000 }),
            Winding::Ink,
            Some(100_000i64),
            6,
        ),
        preset_is(
            r@[8],
            "YOFI"@,
            '0',
            (ProportionalPoint { x_ppm: 500_000, y_ppm: 0 }),
            RayDirection::Vector(0, UNIT),
            Winding::Ink,
            Some(50_000i64),
            12,
        ),
{
    let mut out: Vec<AxisPreset> = Vec::new();
    proof {
        reveal_strlit("XOPQ");
        reveal_strlit("XOLC");
        reveal_strlit("XOFI");
        reveal_strlit("XTRA");
        reveal_strlit("XTLC");
        reveal_strlit("XTFI");
        reveal_strlit("YOPQ");
        reveal_strlit("YOLC");
        reveal_strlit("YOFI");
    }
    let xopq: &str = "XOPQ";
    out.push(
        AxisPreset {
            name: str_to_string(xopq),
            glyph: 'H',
            start: ProportionalPoint::new(0, 500_000),
            direction: east(),
            winding: Winding::Ink,
            jitter_ppm: Some(200_000),
            samples: 12,
        },
    );
    let xolc: &str = "XOLC";
    out.push(
        AxisPreset {
            name: str_to_string(xolc),
            glyph: 'n',
            start: ProportionalPoint::new(0, 400_000),
            direction: east(),
            winding: Winding::Ink,
            jitter_ppm: Some(200_000),
            samples: 12,
        },
    );
    let xofi: &str = "XOFI";
    out.push(
        AxisPreset {
            name: str_to_string(xofi),
            glyph: '1',
            start: ProportionalPoint::new(0, 500_000),
            direction: east(),
            winding: Winding::Ink,
            jitter_ppm: None,
            samples: 12,
        },
    );
    let xtra: &str = "XTRA";
    out.push(
        AxisPreset {
            name: str_to_string(xtra),
            glyph: 'H',
            start: ProportionalPoint::new(0, 500_000),
            direction: east(),
            winding: Winding::Transparent,
            jitter_ppm: None,
            samples: 12,
        },
    );
    let xtlc: &str = "XTLC";
    out.push(
        AxisPreset {
            name: str_to_string(xtlc),
            glyph: 'n',
            start: ProportionalPoint::new(0, 400_000),
            direction: east(),
            winding: Winding::Transparent,
            jitter_ppm: None,
            samples: 12,
        },
    );
    let xtfi: &str = "XTFI";
    out.push(
        AxisPreset {
            name: str_to_string(xtfi),
            glyph: '0',
            start: ProportionalPoint::new(0, 500_000),
            direction: east(),
            winding: Winding::Transparent,
            jitter_ppm: Some(50_000),
            samples: 10,
        },
    );
    let yopq: &str = "YOPQ";
    out.push(
        AxisPreset {
            name: str_to_string(yopq),
            glyph: 'H',
            start: ProportionalPoint::new(500_000, 250_000),
            direction: north(),
            winding: Winding::Ink,
            jitter_ppm: Some(100_000),
            samples: 10,
        },
    );
    let yolc: &str = "YOLC";
    out.push(
        AxisPreset {
            name: str_to_string(yolc),
            glyph: 'f',
            start: ProportionalPoint::new(750_000, 500_000),
            direction: RayDirection::EndPoint(ProportionalPoint::new(750_000, 900_000)),
            winding: Winding::Ink,
            jitter_ppm: Some(100_000),
            samples: 6,
        },
    );
    let yofi: &str = "YOFI";
    out.push(
        AxisPreset {
            name: str_to_string(yofi),
            glyph: '0',
            start: ProportionalPoint::new(500_000, 0),
            direction: north(),
            winding: Winding::Ink,
            jitter_ppm: Some(50_000),
            samples: 12,
        },
    );
    out
}

/// A measured distance in milliunits, rounded to whole units and then
/// normalized to per-mille of the em.
pub open spec fn per_mille_spec(milli: i64, upem: u16) -> int {
    div_round(div_round(milli as int, 1000) * 1000, upem as int)
}

/// Rounds a measured distance to whole units and normalizes it to per-mille
/// of the em.
pub fn per_mille_of(milli: i64, upem: u16) -> (r: i64)
    requires
        upem > 0,
        -0x1000_0000_0000_0000 <= milli <= 0x1000_0000_0000_0000,
    ensures
        r as int == per_mille_spec(milli, upem),
{
    proof {
        crate::fixed::lemma_div_round_bound(milli as int, 1000, 0x1000_0000_0000_0000);
    }
    let units = crate::fixed::div_round_i128(milli as i128, 1000);
    proof {
        crate::fixed::lemma_div_round_bound(
            units as int * 1000,
            upem as int,
            0x4_0000_0000_0000_0000_0000,
        );
        assert(units as int * 1000 <= 0x4_0000_0000_0000_0000_0000 * 1
            && -0x4_0000_0000_0000_0000_0000 * 1 <= units as int * 1000);
        assert(0x4_0000_0000_0000_0000_0000 * (upem as int) >= 0x4_0000_0000_0000_0000_0000 * 1
            && (-0x4_0000_0000_0000_0000_0000) * (upem as int) <= (-0x4_0000_0000_0000_0000_0000)
            * 1) by (nonlinear_arith)
            requires
                upem >= 1,
        ;
    }
    let pm = crate::fixed::div_round_i128(units * 1000, upem as i128);
    pm as i64
}

/// The left side of each probe's first kept pair, as an x coordinate in
/// milliunits: the probe's start plus the offset carried along the nominal
/// unit direction.
pub open spec fn left_sides_spec(
    probes: Seq<Probe>,
    pairs: Seq<Seq<(i64, i64)>>,
    dir_x: i64,
) -> Seq<i64> {
    Seq::new(probes.len(), |i: int| left_side_of(probes[i], pairs[i], dir_x)).filter(
        |o: Option<i64>| o is Some,
    ).map_values(|o: Option<i64>| o->0)
}

/// The left side one probe contributes, when it kept a pair.
pub open spec fn left_side_of(probe: Probe, pairs: Seq<(i64, i64)>, dir_x: i64) -> Option<i64> {
    if pairs.len() == 0 {
        Option::None
    } else {
        Some(
            (probe.short_a.x + div_trunc((pairs[0].0 as int) * (dir_x as int), UNIT as int)) as i64,
        )
    }
}

/// Collects the left side of each probe's first kept pair.
pub fn left_sides(probes: &Vec<Probe>, pairs: &Vec<Vec<(i64, i64)>>, dir_x: i64) -> (r: Vec<i64>)
    requires
        probes@.len() == pairs@.len(),
        -crate::raycaster::DIRECTION_LIMIT <= dir_x <= crate::raycaster::DIRECTION_LIMIT,
        forall|i: int|
            0 <= i < probes@.len() ==> -0x200_0000_0000_0000 <= (#[trigger] probes@[i]).short_a.x
                <= 0x200_0000_0000_0000,
        forall|i: int, k: int|
            0 <= i < pairs@.len() && 0 <= k < (#[trigger] pairs@[i])@.len()
                ==> -0x8_0000_0000_0000 <= (#[trigger] pairs@[i]@[k]).0 <= 0x8_0000_0000_0000,
    ensures
        r@ == left_sides_spec(probes@, pairs@.map_values(|v: Vec<(i64, i64)>| v@), dir_x),
{
    let ghost pview = pairs@.map_values(|v: Vec<(i64, i64)>| v@);
    let ghost opts = Seq::new(
        probes@.len(),
        |i: int| left_side_of(probes@[i], pview[i], dir_x),
    );
    let ghost pred = |o: Option<i64>| o is Some;
    let mut out: Vec<i64> = Vec::new();
    let mut i: usize = 0;
    proof {
        reveal(Seq::filter);
        assert(opts.take(0).filter(pred) =~= Seq::<Option<i64>>::empty());
        assert(out@ =~= opts.take(0).filter(pred).map_values(|o: Option<i64>| o->0));
    }
    while i < probes.len()
        invariant
            0 <= i <= probes@.len(),
            probes@.len() == pairs@.len(),
            -crate::raycaster::DIRECTION_LIMIT <= dir_x <= crate::raycaster::DIRECTION_LIMIT,
            forall|k: int|
                0 <= k < probes@.len() ==> -0x200_0000_0000_0000 <= (
                #[trigger] probes@[k]).short_a.x <= 0x200_0000_0000_0000,
            forall|k: int, m: int|
                0 <= k < pairs@.len() && 0 <= m < (#[trigger] pairs@[k])@.len()
                    ==> -0x8_0000_0000_0000 <= (#[trigger] pairs@[k]@[m]).0 <= 0x8_0000_0000_0000,
            pview == pairs@.map_values(|v: Vec<(i64, i64)>| v@),
            opts == Seq::new(probes@.len(), |k: int| left_side_of(probes@[k], pview[k], dir_x)),
            pred == (|o: Option<i64>| o is Some),
            out@ == opts.take(i as int).filter(pred).map_values(|o: Option<i64>| o->0),
        decreases probes@.len() - i,
    {
        proof {
            crate::stats::lemma_filter_push(opts.take(i as int), pred, opts[i as int]);
            assert(opts.take(i as int).push(opts[i as int]) =~= opts.take(i as int + 1));
        }
        if pairs[i].len() > 0 {
            let (a, _b) = pairs[i][0];
            proof {
                assert(pairs@[i as int]@[0].0 == a);
                assert(-0x8_0000_0000_0000 <= a <= 0x8_0000_0000_0000);
                assert(-0x8_0000_0000_0000i64 as int * 0x10_0000 <= (a as int) * (dir_x as int)
                    <= 0x8_0000_0000_0000i64 as int * 0x10_0000) by (nonlinear_arith)
                    requires
                        -crate::raycaster::DIRECTION_LIMIT <= dir_x
                            <= crate::raycaster::DIRECTION_LIMIT,
                        -0x8_0000_0000_0000 <= a <= 0x8_0000_0000_0000,
                        crate::raycaster::DIRECTION_LIMIT == 0x10_0000i64,
                ;
                assert((0x8_0000_0000_0000i64 as int * 0x10_0000 / 1000 + 1) * 1000
                    >= 0x8_0000_0000_0000i64 as int * 0x10_0000) by {
                    vstd::arithmetic::div_mod::lemma_fundamental_div_mod(
                        0x8_0000_0000_0000i64 as int * 0x10_0000,
                        1000,
                    );
                }
                assert((-(0x8_0000_0000_0000i64 as int * 0x10_0000 / 1000 + 1)) * 1000 == -((
                0x8_0000_0000_0000i64 as int * 0x10_0000 / 1000 + 1) * 1000)) by (nonlinear_arith);
                crate::fixed::lemma_div_trunc_bound(
                    (a as int) * (dir_x as int),
                    UNIT as int,
                    0x8_0000_0000_0000i64 as int * 0x10_0000 / 1000 + 1,
                );
            }
            let shift = crate::fixed::div_trunc_i128(
                (a as i128) * (dir_x as i128),
                UNIT as i128,
            );
            let x: i64 = ((probes[i].short_a.x as i128) + shift) as i64;
            proof {
                assert(opts[i as int] == Some(x));
                assert(opts.take(i as int + 1).filter(pred).map_values(|o: Option<i64>| o->0)
                    =~= out@.push(x));
            }
            out.push(x);
        } else {
            proof {
                assert(pview[i as int].len() == 0);
                assert(opts[i as int] is None);
                assert(opts.take(i as int + 1).filter(pred).map_values(|o: Option<i64>| o->0)
                    =~= out@);
            }
        }
        i = i + 1;
    }
    proof {
        assert(opts.take(probes@.len() as int) =~= opts);
    }
    out
}

/// The smallest value of a list, or nothing for an empty one.
pub fn min_value(values: &Vec<i64>) -> (r: Option<i64>)
    ensures
        match r {
            Some(m) => values@.contains(m) && forall|i: int|
                0 <= i < values@.len() ==> m <= #[trigger] values@[i],
            None => values@.len() == 0,
        },
{
    if values.len() == 0 {
        return None;
    }
    let mut m = values[0];
    let mut i: usize = 1;
    proof {
        assert(values@.contains(values@[0]));
    }
    while i < values.len()
        invariant
            1 <= i <= values@.len(),
            values@.len() > 0,
            values@.contains(m),
            forall|k: int| 0 <= k < i ==> m <= #[trigger] values@[k],
        decreases values@.len() - i,
    {
        if values[i] < m {
            m = values[i];
            proof {
                assert(values@.contains(values@[i as int]));
            }
        }
        i = i + 1;
    }
    Some(m)
}

/// A coordinate in milliunits expressed in per-mille of the em, as an exact
/// rational.
pub fn coordinate_per_mille(milli: i64, upem: u16) -> (r: crate::results::Rational)
    requires
        upem > 0,
    ensures
        r.num == milli as int && r.den == upem as int,
        r.wf(),
{
    crate::results::Rational::new(milli as i128, upem as i128)
}

} // verus!
