//! Grid-generation scenarios: adaptive subdivision, density fallback,
//! negative seeding, and the coordinate mapping round trip.

use timeline_grid::hosts::FixedMeter;
use timeline_grid::ruler::MusicalInfo;
use timeline_grid::rat::Rat;
use timeline_grid::ruler::{Step, Steps};
use timeline_grid::{min_step_gap, tick_to_x, visible_ticks, x_to_tick, TimeSig};

/// Exact rational equality by cross multiplication.
fn rat_is(r: Rat, num: i64, den: i64) -> bool {
    (r.num as i128) * (den as i128) == (num as i128) * (r.den as i128)
}

fn collect_steps(meter: &FixedMeter, visible_len: Rat, gap: Rat) -> Vec<Step> {
    let mut steps = Steps::new(meter, &visible_len, &gap);
    let mut out = Vec::new();
    while let Some(step) = steps.next(meter) {
        out.push(step);
        assert!(out.len() < 100_000, "generator failed to terminate");
    }
    out
}

fn four_four_meter() -> FixedMeter {
    FixedMeter {
        ticks_per_beat: 120,
        sig: TimeSig { top: 4, bottom: 4 },
        bar_len: 480,
        offset: 0,
        zoom: Rat { num: 1, den: 1 },
    }
}

#[test]
fn four_four_at_default_gap() {
    // 4/4 at 120 ticks per beat, min gap 4 px, 800 px visible, 1 tick/point:
    // the densest power-of-two subdivision above the floor is 16 per beat,
    // i.e. a step of 7.5 ticks.
    let meter = four_four_meter();
    let steps = collect_steps(&meter, Rat { num: 800, den: 1 }, min_step_gap());

    assert_eq!(steps[0].index_in_bar, 0);
    assert!(rat_is(steps[0].ticks, 0, 1));
    assert!(rat_is(steps[0].x, 0, 1));
    assert!(rat_is(steps[1].ticks, 15, 2)); // 7.5 ticks
    assert!(rat_is(steps[1].x, 15, 2)); // 7.5 px at 1 tick/point

    // 64 steps in the first bar (480 / 7.5), then steps until 800 ticks:
    // 480 + 42 * 7.5 = 795 <= 800 < 802.5.
    assert_eq!(steps.len(), 64 + 43);
    assert_eq!(steps[64].index_in_bar, 0);
    assert!(rat_is(steps[64].ticks, 480, 1));
    let last = steps[steps.len() - 1];
    assert!(rat_is(last.ticks, 795, 1));
    // Every emitted tick lies within the visible range.
    for s in &steps {
        assert!((s.ticks.num as i128) <= 800 * (s.ticks.den as i128));
        assert!(s.ticks.num >= 0);
    }
}

#[test]
fn ticks_strictly_increase() {
    let meter = four_four_meter();
    let steps = collect_steps(&meter, Rat { num: 800, den: 1 }, min_step_gap());
    for w in steps.windows(2) {
        let (a, b) = (w[0].ticks, w[1].ticks);
        assert!((a.num as i128) * (b.den as i128) < (b.num as i128) * (a.den as i128));
    }
}

#[test]
fn index_resets_exactly_at_bar_starts() {
    let meter = four_four_meter();
    let steps = collect_steps(&meter, Rat { num: 800, den: 1 }, min_step_gap());
    for s in &steps {
        let at_bar_start = (s.ticks.num as i128) % (480 * s.ticks.den as i128) == 0;
        assert_eq!(s.index_in_bar == 0, at_bar_start);
    }
}

#[test]
fn adjacent_steps_keep_min_gap() {
    let meter = four_four_meter();
    let gap = min_step_gap();
    let steps = collect_steps(&meter, Rat { num: 800, den: 1 }, gap);
    for w in steps.windows(2) {
        if w[1].index_in_bar != 0 {
            // Same bar: x difference >= 4 px, exactly.
            let (a, b) = (w[0].x, w[1].x);
            let diff = (b.num as i128) * (a.den as i128) - (a.num as i128) * (b.den as i128);
            assert!(
                diff * (gap.den as i128)
                    >= (gap.num as i128) * (a.den as i128) * (b.den as i128)
            );
        }
    }
}

#[test]
fn fallback_emits_one_step_per_bar() {
    // Natural subdivision of 2 ticks is below the 4-tick floor: one step per
    // bar, at the bar start.
    let meter = FixedMeter {
        ticks_per_beat: 2,
        sig: TimeSig { top: 4, bottom: 4 },
        bar_len: 8,
        offset: 0,
        zoom: Rat { num: 1, den: 1 },
    };
    let steps = collect_steps(&meter, Rat { num: 40, den: 1 }, min_step_gap());
    assert_eq!(steps.len(), 6);
    for (i, s) in steps.iter().enumerate() {
        assert_eq!(s.index_in_bar, 0);
        assert!(rat_is(s.ticks, 8 * i as i64, 1));
    }
}

#[test]
fn negative_seed_skips_steps_before_origin() {
    // The bar containing tick zero starts at -30; with a 7.5-tick step the
    // positions -30, -22.5, -15, -7.5 are skipped and the first emitted step
    // is tick 0 with index 4.
    let meter = FixedMeter {
        ticks_per_beat: 120,
        sig: TimeSig { top: 4, bottom: 4 },
        bar_len: 480,
        offset: -30,
        zoom: Rat { num: 1, den: 1 },
    };
    let steps = collect_steps(&meter, Rat { num: 100, den: 1 }, min_step_gap());
    assert_eq!(steps[0].index_in_bar, 4);
    assert!(rat_is(steps[0].ticks, 0, 1));
    assert!(steps.iter().all(|s| s.ticks.num >= 0));
}

#[test]
fn coarser_zoom_gives_sparser_grid() {
    // At 4 ticks/point the 4 px floor means 16 ticks minimum per step; the
    // chosen subdivision for 120 ticks/beat is 4 per beat (30-tick steps).
    let meter = FixedMeter {
        zoom: Rat { num: 4, den: 1 },
        ..four_four_meter()
    };
    let steps = collect_steps(&meter, Rat { num: 200, den: 1 }, min_step_gap());
    assert!(rat_is(steps[1].ticks, 30, 1));
    assert!(rat_is(steps[1].x, 15, 2)); // 30 ticks at 4 ticks/point
}

#[test]
fn bar_lookup_is_contiguous() {
    let meter = four_four_meter();
    let b0 = meter.bar_at_ticks(0);
    assert_eq!((b0.tick_start, b0.tick_end), (0, 480));
    let b1 = meter.bar_at_ticks(b0.tick_end);
    assert_eq!((b1.tick_start, b1.tick_end), (480, 960));

    let shifted = FixedMeter { offset: -30, ..meter };
    let s0 = shifted.bar_at_ticks(0);
    assert_eq!((s0.tick_start, s0.tick_end), (-30, 450));
}

#[test]
fn beats_per_bar_follows_the_signature() {
    let four_four = TimeSig { top: 4, bottom: 4 };
    assert!(rat_is(four_four.beats_per_bar(), 4, 1));
    let six_eight = TimeSig { top: 6, bottom: 8 };
    assert!(rat_is(six_eight.beats_per_bar(), 3, 1));
    let three_four = TimeSig { top: 3, bottom: 4 };
    assert!(rat_is(three_four.beats_per_bar(), 3, 1));
}

#[test]
fn tick_round_trip_is_exact() {
    let z = Rat { num: 5, den: 2 };
    let t = Rat { num: 37, den: 3 };
    let x = tick_to_x(&t, &z);
    let back = x_to_tick(&x, &z);
    assert!(rat_is(back, 37, 3));

    let x0 = Rat { num: -41, den: 7 };
    let t0 = x_to_tick(&x0, &z);
    let xb = tick_to_x(&t0, &z);
    assert!(rat_is(xb, -41, 7));
}

#[test]
fn visible_ticks_scales_width_by_zoom() {
    let v = visible_ticks(&Rat { num: 800, den: 1 }, &Rat { num: 3, den: 2 });
    assert!(rat_is(v, 1200, 1));
}

#[test]
fn default_min_gap_is_four_points() {
    assert!(rat_is(min_step_gap(), 4, 1));
}

#[test]
fn zero_visible_width_yields_empty_sequence() {
    // A zero-width viewport shows nothing: not even the step at tick zero.
    let meter = four_four_meter();
    let steps = collect_steps(&meter, Rat { num: 0, den: 1 }, min_step_gap());
    assert!(steps.is_empty());
}

#[test]
fn exhausted_generator_keeps_returning_none() {
    let meter = four_four_meter();
    let mut steps = Steps::new(&meter, &Rat { num: 20, den: 1 }, &min_step_gap());
    while let Some(_) = steps.next(&meter) {}
    for _ in 0..4 {
        assert!(steps.next(&meter).is_none());
    }
}

#[test]
fn subpixel_gap_gives_denser_grid() {
    // A half-point floor at 1 tick/point allows 128 subdivisions per beat:
    // steps of 15/16 tick.
    let meter = four_four_meter();
    let steps = collect_steps(&meter, Rat { num: 10, den: 1 }, Rat { num: 1, den: 2 });
    assert!(rat_is(steps[0].ticks, 0, 1));
    assert!(rat_is(steps[1].ticks, 15, 16));
}
