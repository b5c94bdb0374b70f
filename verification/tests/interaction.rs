//! Interaction scenarios: ruler clicks, scroll/zoom gestures, and playhead
//! geometry and dragging.

use timeline_grid::hosts::{ClickRecorder, FixedMeter, ScrollRecorder, Transport};
use timeline_grid::playhead::{
    playhead_bottom, playhead_click, playhead_on_screen, playhead_span, playhead_x, Interaction,
    Playhead,
};
use timeline_grid::rat::Rat;
use timeline_grid::ruler::ruler_click;
use timeline_grid::{handle_scroll, TimeSig};

/// Exact rational equality by cross multiplication.
fn rat_is(r: Rat, num: i64, den: i64) -> bool {
    (r.num as i128) * (den as i128) == (num as i128) * (r.den as i128)
}

fn whole(n: i64) -> Rat {
    Rat { num: n, den: 1 }
}

#[test]
fn ruler_click_maps_pointer_to_tick() {
    // Click at a quarter of a 400 px wide ruler showing 480 ticks: tick 120.
    let mut host = ClickRecorder::new();
    let dispatched = ruler_click(
        &mut host,
        true,
        Some(whole(100)),
        &whole(0),
        &whole(400),
        &whole(480),
    );
    let t = dispatched.expect("an active click with a pointer dispatches");
    assert!(rat_is(t, 120, 1));
    assert_eq!(host.log.len(), 1);
    assert!(rat_is(host.log[0], 120, 1));
}

#[test]
fn ruler_click_clamps_to_zero() {
    // A pointer left of the ruler maps to tick zero, not a negative tick.
    let mut host = ClickRecorder::new();
    let dispatched = ruler_click(
        &mut host,
        true,
        Some(whole(-50)),
        &whole(0),
        &whole(400),
        &whole(480),
    );
    let t = dispatched.unwrap();
    assert_eq!((t.num, t.den), (0, 1));
    assert_eq!(host.log.len(), 1);
}

#[test]
fn ruler_click_needs_pointer_and_activity() {
    let mut host = ClickRecorder::new();
    assert!(ruler_click(&mut host, true, None, &whole(0), &whole(400), &whole(480)).is_none());
    assert!(
        ruler_click(&mut host, false, Some(whole(100)), &whole(0), &whole(400), &whole(480)).is_none()
    );
    assert!(host.log.is_empty());
}

#[test]
fn zoom_gesture_combines_both_axes() {
    // Modifier held, delta (dx=3, dy=-2): one zoom(-5) call, no pan.
    let mut host = ScrollRecorder::new(whole(1));
    handle_scroll(&mut host, &whole(3), &whole(-2), true);
    assert_eq!(host.zoom_log.len(), 1);
    assert!(rat_is(host.zoom_log[0], -5, 1));
    assert!(host.shift_log.is_empty());
}

#[test]
fn pan_gesture_scales_with_zoom() {
    // No modifier, delta (dx=10, dy=0) at 2 ticks/point: one shift of 20
    // ticks, no zoom.
    let mut host = ScrollRecorder::new(whole(2));
    handle_scroll(&mut host, &whole(10), &whole(0), false);
    assert_eq!(host.shift_log.len(), 1);
    assert!(rat_is(host.shift_log[0], 20, 1));
    assert!(host.zoom_log.is_empty());
}

#[test]
fn vertical_scroll_without_modifier_does_nothing() {
    let mut host = ScrollRecorder::new(whole(2));
    handle_scroll(&mut host, &whole(0), &whole(7), false);
    assert!(host.shift_log.is_empty());
    assert!(host.zoom_log.is_empty());
}

#[test]
fn zero_delta_with_modifier_does_nothing() {
    let mut host = ScrollRecorder::new(whole(2));
    handle_scroll(&mut host, &whole(0), &whole(0), true);
    assert!(host.shift_log.is_empty());
    assert!(host.zoom_log.is_empty());
}

#[test]
fn playhead_defaults_and_builders() {
    let p = Playhead::new();
    assert_eq!((p.width.num, p.width.den), (1, 1));
    assert!(!p.extend_to_available_height);
    assert_eq!(
        (p.extend_beyond_last_track.num, p.extend_beyond_last_track.den),
        (0, 1)
    );
    let q = Playhead::new()
        .width(whole(2))
        .extend_to_available_height(true)
        .extend_beyond_last_track(whole(5));
    assert_eq!((q.width.num, q.width.den), (2, 1));
    assert!(q.extend_to_available_height);
    assert_eq!(
        (q.extend_beyond_last_track.num, q.extend_beyond_last_track.den),
        (5, 1)
    );
    assert_eq!(Playhead::default(), Playhead::new());
}

#[test]
fn playhead_geometry() {
    // 240 ticks at 2 ticks/point over a timeline starting at x = 10:
    // the playhead sits at 130 px.
    let x = playhead_x(&whole(240), &Rat { num: 2, den: 1 }, &whole(10));
    assert!(rat_is(x, 130, 1));

    // Two points wide: the rectangle spans [129, 131].
    let (lo, hi) = playhead_span(&x, &whole(2));
    assert!(rat_is(lo, 129, 1));
    assert!(rat_is(hi, 131, 1));

    assert!(playhead_on_screen(&x, &whole(10), &whole(810)));
    assert!(!playhead_on_screen(&x, &whole(200), &whole(810)));

    let tall = Playhead::new().extend_to_available_height(true);
    let b = playhead_bottom(&tall, &whole(600), &whole(200));
    assert!(rat_is(b, 600, 1));
    let short = Playhead::new().extend_beyond_last_track(whole(5));
    let b2 = playhead_bottom(&short, &whole(600), &whole(200));
    assert!(rat_is(b2, 205, 1));
}

fn transport() -> Transport {
    Transport::new(FixedMeter {
        ticks_per_beat: 120,
        sig: TimeSig { top: 4, bottom: 4 },
        bar_len: 480,
        offset: 0,
        zoom: Rat { num: 1, den: 1 },
    })
}

#[test]
fn playhead_drag_sets_ticks() {
    // Drag at a quarter of a 400 px wide timeline showing 480 ticks: the
    // playhead is set to tick 120.
    let mut host = transport();
    let dispatched = playhead_click(
        &mut host,
        true,
        Some(whole(100)),
        &whole(0),
        &whole(400),
        &whole(480),
    );
    let t = dispatched.expect("an active drag with a pointer dispatches");
    assert!(rat_is(t, 120, 1));
    assert_eq!(host.set_history.len(), 1);
    assert!(rat_is(host.set_history[0], 120, 1));
    assert!(rat_is(host.position, 120, 1));
}

#[test]
fn playhead_drag_without_pointer_does_nothing() {
    let mut host = transport();
    assert!(playhead_click(&mut host, true, None, &whole(0), &whole(400), &whole(480)).is_none());
    assert!(playhead_click(&mut host, false, Some(whole(1)), &whole(0), &whole(400), &whole(480))
        .is_none());
    assert!(host.set_history.is_empty());
    assert!(rat_is(host.position, 0, 1));
}

#[test]
fn out_of_range_playhead_write_is_logged_but_not_applied() {
    let mut host = transport();
    host.set_playhead_ticks(Rat { num: i64::MAX, den: 1 });
    assert_eq!(host.set_history.len(), 1);
    assert!(rat_is(host.position, 0, 1));
}
