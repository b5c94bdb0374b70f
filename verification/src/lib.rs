//! A musical-timeline grid engine.
//!
//! Given a musical time model (ticks per beat, time signatures, bar
//! boundaries) and a viewport (pixel width, zoom factor), this crate computes
//! the sequence of grid lines to draw, the bidirectional mapping between
//! pixel positions and musical tick positions, and the interpretation of
//! pointer and scroll gestures (ruler clicks, playhead drags, pan and zoom).
//!
//! All scalars are exact rationals ([`rat::Rat`]), so every contract here is
//! an exact statement rather than an approximation.  The host user interface
//! supplies musical information through the [`ruler::MusicalInfo`] family of
//! traits and owns all drawing; this crate owns the geometry and the
//! decisions.

use vstd::prelude::*;

pub mod hosts;
pub mod playhead;
pub mod rat;
pub mod ruler;

use rat::Rat;

verus! {

/// Largest supported ticks-per-beat (PPQN) value.
pub const TPB_MAX: u32 = 16384;

/// Bound on the numerator and denominator of a zoom factor (ticks per point).
pub const ZOOM_BOUND: i64 = 1024;

/// Bound on the numerator and denominator of a minimum-gap width in points.
pub const GAP_BOUND: i64 = 1024;

/// Bound on the numerator and denominator of a viewport length in points.
pub const LEN_BOUND: i64 = 16384;

/// Bound on the numerator of a pixel coordinate.
pub const PX_NUM_BOUND: i64 = 0x2_0000;

/// Bound on the denominator of a pixel coordinate.
pub const PX_DEN_BOUND: i64 = 1024;

/// Bound on the tick offset at which a bar may be queried.
pub const BAR_QUERY_BOUND: i64 = 0x4000_0000;

/// Bound on the tick offsets of a bar returned by the host.
pub const BAR_TICK_BOUND: i64 = 0x8000_0000;

/// The default minimum gap, in points, kept between adjacent grid lines.
pub fn min_step_gap() -> (r: Rat)
    ensures
        r.num == 4,
        r.den == 1,
{
    Rat { num: 4, den: 1 }
}

/// A zoom factor (ticks per point) the engine can work with exactly: a
/// positive rational with numerator and denominator between 1 and
/// [`ZOOM_BOUND`].
pub open spec fn zoom_wf(z: Rat) -> bool {
    1 <= z.num <= ZOOM_BOUND && 1 <= z.den <= ZOOM_BOUND
}

/// The customary default zoom factor: sixteen points per beat, i.e.
/// `ticks_per_beat / 16` ticks per point.
pub fn default_ticks_per_point(ticks_per_beat: u32) -> (z: Rat)
    requires
        1 <= ticks_per_beat <= ZOOM_BOUND,
    ensures
        z.num == ticks_per_beat,
        z.den == 16,
        zoom_wf(z),
{
    Rat { num: ticks_per_beat as i64, den: 16 }
}

/// Whether the host's own vertical scroll container may handle scroll input:
/// scrolling is suppressed exactly while the zoom modifier is held, so the
/// zoom gesture is not double-handled.
pub fn scroll_enabled(zoom_modifier: bool) -> (r: bool)
    ensures
        r == !zoom_modifier,
{
    !zoom_modifier
}

/// A minimum-gap width the engine can work with exactly: at least one eighth
/// of a point, with numerator and denominator bounded by [`GAP_BOUND`].
///
/// The lower floor is a machine limit: the subdivision search densifies the
/// grid until the step approaches the gap, so an ever-smaller gap demands an
/// ever-larger subdivision, and an eighth of a point (far below anything a
/// screen can show) is where all of the pass's arithmetic still stays exact
/// in 64 bits.
pub open spec fn gap_wf(g: Rat) -> bool {
    1 <= g.num <= GAP_BOUND && 1 <= g.den <= GAP_BOUND && g.den <= 8 * g.num
}

/// A viewport length the engine can work with exactly: nonnegative, with
/// numerator and denominator bounded by [`LEN_BOUND`].
pub open spec fn len_wf(l: Rat) -> bool {
    0 <= l.num <= LEN_BOUND && 1 <= l.den <= LEN_BOUND
}

/// A pixel coordinate the engine can work with exactly: numerator bounded by
/// [`PX_NUM_BOUND`] in magnitude, denominator by [`PX_DEN_BOUND`].
pub open spec fn px_wf(r: Rat) -> bool {
    -PX_NUM_BOUND <= r.num <= PX_NUM_BOUND && 1 <= r.den <= PX_DEN_BOUND
}

/// A time signature: `top` beats of `1/bottom` notes per bar.
#[derive(Clone, Copy, Debug, PartialEq, Eq, Structural)]
pub struct TimeSig {
    pub top: u16,
    pub bottom: u16,
}

impl TimeSig {
    /// Both components are at least one.
    pub open spec fn wf(self) -> bool {
        self.top >= 1 && self.bottom >= 1
    }

    /// The number of beats (quarter notes) per bar of this time signature:
    /// `4 * top / bottom`, exactly.
    pub fn beats_per_bar(&self) -> (r: Rat)
        requires
            self.wf(),
        ensures
            r.num == 4 * self.top,
            r.den == self.bottom,
            r.wf(),
    {
        Rat { num: 4 * (self.top as i64), den: self.bottom as i64 }
    }
}

/// A bar: a half-open tick range `[tick_start, tick_end)` governed by one
/// time signature.
#[derive(Clone, Copy, Debug, PartialEq, Eq, Structural)]
pub struct Bar {
    /// First tick of the bar.
    pub tick_start: i64,
    /// First tick after the bar.
    pub tick_end: i64,
    /// The time signature governing the bar.
    pub time_sig: TimeSig,
}

impl Bar {
    /// A bar is nonempty, lies within the supported tick range, and carries a
    /// well-formed time signature.
    pub open spec fn wf(self) -> bool {
        -BAR_TICK_BOUND <= self.tick_start < self.tick_end <= BAR_TICK_BOUND
            && self.time_sig.wf()
    }
}

/// Convert a tick offset to a pixel offset from the viewport left:
/// `x = tick / ticks_per_point`, exactly.
pub fn tick_to_x(tick: &Rat, ticks_per_point: &Rat) -> (x: Rat)
    requires
        tick.wf(),
        ticks_per_point.wf(),
        ticks_per_point.num >= 1,
        -0x7fff_ffff_ffff_ffff <= tick.num * ticks_per_point.den <= 0x7fff_ffff_ffff_ffff,
        tick.den * ticks_per_point.num <= 0x7fff_ffff_ffff_ffff,
    ensures
        x.num == tick.num * ticks_per_point.den,
        x.den == tick.den * ticks_per_point.num,
        x.wf(),
{
    tick.div(ticks_per_point)
}

/// Convert a pixel offset from the viewport left to a tick offset:
/// `tick = x * ticks_per_point`, exactly.
pub fn x_to_tick(x: &Rat, ticks_per_point: &Rat) -> (tick: Rat)
    requires
        x.wf(),
        ticks_per_point.wf(),
        -0x7fff_ffff_ffff_ffff <= x.num * ticks_per_point.num <= 0x7fff_ffff_ffff_ffff,
        x.den * ticks_per_point.den <= 0x7fff_ffff_ffff_ffff,
    ensures
        tick.num == x.num * ticks_per_point.num,
        tick.den == x.den * ticks_per_point.den,
        tick.wf(),
{
    x.mul(ticks_per_point)
}

/// The number of ticks spanned by a viewport of the given pixel width:
/// `viewport_width * ticks_per_point`, exactly.
pub fn visible_ticks(viewport_width: &Rat, ticks_per_point: &Rat) -> (v: Rat)
    requires
        viewport_width.wf(),
        ticks_per_point.wf(),
        -0x7fff_ffff_ffff_ffff <= viewport_width.num * ticks_per_point.num
            <= 0x7fff_ffff_ffff_ffff,
        viewport_width.den * ticks_per_point.den <= 0x7fff_ffff_ffff_ffff,
    ensures
        v.num == viewport_width.num * ticks_per_point.num,
        v.den == viewport_width.den * ticks_per_point.den,
        v.wf(),
{
    viewport_width.mul(ticks_per_point)
}

/// Law: mapping a tick to a pixel offset and back yields the same tick,
/// exactly, for every tick and every positive zoom factor.
///
/// `x` is the image of `t` under [`tick_to_x`] and `r` the image of `x` under
/// [`x_to_tick`]; then `r` equals `t` as a rational number.
pub proof fn lemma_tick_round_trip(t: Rat, z: Rat, x: Rat, r: Rat)
    by (nonlinear_arith)
    requires
        t.wf(),
        z.wf(),
        z.num >= 1,
        x.num == t.num * z.den,
        x.den == t.den * z.num,
        r.num == x.num * z.num,
        r.den == x.den * z.den,
    ensures
        r.eq_q(t),
{
}

/// Law: mapping a pixel offset to a tick and back yields the same pixel
/// offset, exactly, for every offset and every positive zoom factor.
///
/// `t` is the image of `x` under [`x_to_tick`] and `r` the image of `t` under
/// [`tick_to_x`]; then `r` equals `x` as a rational number.
pub proof fn lemma_x_round_trip(x: Rat, z: Rat, t: Rat, r: Rat)
    by (nonlinear_arith)
    requires
        x.wf(),
        z.wf(),
        z.num >= 1,
        t.num == x.num * z.num,
        t.den == x.den * z.den,
        r.num == t.num * z.den,
        r.den == t.den * z.num,
    ensures
        r.eq_q(x),
{
}

} // verus!

verus! {

/// The host's mutable timeline model, driven by scroll and zoom gestures.
///
/// `shifts` and `zooms` are ghost logs of the delegated calls; each call
/// appends exactly one entry, so a verified caller can state precisely which
/// gestures were delegated and how many times.  The zoom factor is exposed
/// directly here; it is the same value the host's musical information
/// reports.
pub trait TimelineApi {
    /// The host's invariant over its own representation.
    spec fn inv(&self) -> bool;

    /// The zoom factor (ticks per point), as a mathematical value.
    spec fn tpp_spec(&self) -> Rat;

    /// The ghost log of timeline-start shifts delegated so far, in ticks.
    spec fn shifts(&self) -> Seq<Rat>;

    /// The ghost log of zoom deltas delegated so far.
    spec fn zooms(&self) -> Seq<Rat>;

    /// The current zoom factor (ticks per point).
    fn ticks_per_point(&self) -> (z: Rat)
        requires
            self.inv(),
        ensures
            z == self.tpp_spec(),
            zoom_wf(z),
    ;

    /// Shift the timeline start by the given number of ticks, due to a
    /// scroll gesture.
    fn shift_timeline_start(&mut self, ticks: Rat)
        requires
            old(self).inv(),
            ticks.wf(),
        ensures
            final(self).inv(),
            final(self).shifts() == old(self).shifts().push(ticks),
            final(self).zooms() == old(self).zooms(),
            final(self).tpp_spec() == old(self).tpp_spec(),
    ;

    /// The timeline was scrolled with the zoom modifier held: zoom in or out
    /// by the given delta.
    fn zoom(&mut self, y_delta: Rat)
        requires
            old(self).inv(),
            y_delta.wf(),
        ensures
            final(self).inv(),
            final(self).zooms() == old(self).zooms().push(y_delta),
            final(self).shifts() == old(self).shifts(),
    ;
}

/// Interpret a scroll delta over the timeline area.
///
/// With the zoom modifier held and any nonzero delta, the two axes combine
/// into one zoom signal `delta_y - delta_x` and exactly one `zoom` call is
/// delegated.  Without the modifier, a nonzero horizontal delta pans the
/// timeline by `delta_x * ticks_per_point` ticks through exactly one
/// `shift_timeline_start` call.  A vertical-only scroll without the modifier
/// delegates nothing (it is left to the host's own scroll container).
pub fn handle_scroll<T: TimelineApi>(
    timeline: &mut T,
    delta_x: &Rat,
    delta_y: &Rat,
    zoom_modifier: bool,
)
    requires
        old(timeline).inv(),
        px_wf(*delta_x),
        px_wf(*delta_y),
    ensures
        final(timeline).inv(),
        zoom_modifier && (delta_x.num != 0 || delta_y.num != 0) ==> {
            &&& final(timeline).shifts() == old(timeline).shifts()
            &&& final(timeline).zooms().len() == old(timeline).zooms().len() + 1
            &&& final(timeline).zooms() == old(timeline).zooms().push(
                final(timeline).zooms().last(),
            )
            &&& final(timeline).zooms().last().num == delta_y.num * delta_x.den - delta_x.num
                * delta_y.den
            &&& final(timeline).zooms().last().den == delta_y.den * delta_x.den
        },
        zoom_modifier && delta_x.num == 0 && delta_y.num == 0 ==> final(timeline).zooms() == old(
            timeline,
        ).zooms() && final(timeline).shifts() == old(timeline).shifts(),
        !zoom_modifier && delta_x.num != 0 ==> {
            &&& final(timeline).zooms() == old(timeline).zooms()
            &&& final(timeline).shifts().len() == old(timeline).shifts().len() + 1
            &&& final(timeline).shifts() == old(timeline).shifts().push(
                final(timeline).shifts().last(),
            )
            &&& final(timeline).shifts().last().num == delta_x.num * old(timeline).tpp_spec().num
            &&& final(timeline).shifts().last().den == delta_x.den * old(timeline).tpp_spec().den
        },
        !zoom_modifier && delta_x.num == 0 ==> final(timeline).zooms() == old(timeline).zooms()
            && final(timeline).shifts() == old(timeline).shifts(),
{
    if zoom_modifier {
        if delta_x.num != 0 || delta_y.num != 0 {
            proof {
                rat::lemma_mul_abs_bounds(
                    delta_y.num as int,
                    delta_x.den as int,
                    PX_NUM_BOUND as int,
                    PX_DEN_BOUND as int,
                );
                rat::lemma_mul_abs_bounds(
                    delta_x.num as int,
                    delta_y.den as int,
                    PX_NUM_BOUND as int,
                    PX_DEN_BOUND as int,
                );
                rat::lemma_mul_abs_bounds(
                    delta_y.den as int,
                    delta_x.den as int,
                    PX_DEN_BOUND as int,
                    PX_DEN_BOUND as int,
                );
                rat::lemma_pos_mul_pos(delta_y.den as int, delta_x.den as int);
            }
            let signal = delta_y.sub(delta_x);
            timeline.zoom(signal);
        }
    } else {
        if delta_x.num != 0 {
            let z = timeline.ticks_per_point();
            proof {
                rat::lemma_mul_abs_bounds(
                    delta_x.num as int,
                    z.num as int,
                    PX_NUM_BOUND as int,
                    ZOOM_BOUND as int,
                );
                rat::lemma_mul_abs_bounds(
                    delta_x.den as int,
                    z.den as int,
                    PX_DEN_BOUND as int,
                    ZOOM_BOUND as int,
                );
                rat::lemma_pos_mul_pos(delta_x.den as int, z.den as int);
            }
            let ticks = delta_x.mul(&z);
            timeline.shift_timeline_start(ticks);
        }
    }
}

} // verus!
