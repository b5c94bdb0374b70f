//! The playhead: a thin vertical marker showing transport position.
//!
//! The host owns the playhead tick value and exposes it through the [`Info`]
//! trait; interaction writes back through [`Interaction`].  This module
//! computes the playhead's exact pixel geometry (position, vertical extent,
//! the thin hit rectangle) and interprets click and drag events, clamped to
//! nonnegative ticks.

use vstd::prelude::*;

use crate::rat::Rat;
use crate::rat::{lemma_mul_abs_bounds, lemma_pos_mul_pos};
use crate::ruler::MusicalInfo;
use crate::{px_wf, zoom_wf};
use crate::{PX_DEN_BOUND, PX_NUM_BOUND, ZOOM_BOUND};

verus! {

/// Bound on the magnitude of a playhead tick numerator.
pub const PLAYHEAD_NUM_BOUND: i64 = 0x4000_0000;

/// Bound on a playhead tick denominator.
pub const PLAYHEAD_DEN_BOUND: i64 = 1024;

/// Bound on the magnitude of a computed playhead pixel-position numerator.
pub const PLAYHEAD_X_NUM_BOUND: i64 = 0x8_0000_0000_0000;

/// Bound on a computed playhead pixel-position denominator.
pub const PLAYHEAD_X_DEN_BOUND: i64 = 0x4000_0000;

/// A playhead tick value the engine can work with exactly.
pub open spec fn playhead_tick_wf(t: Rat) -> bool {
    -PLAYHEAD_NUM_BOUND <= t.num <= PLAYHEAD_NUM_BOUND && 1 <= t.den <= PLAYHEAD_DEN_BOUND
}

/// For retrieving information about the playhead.
pub trait Info: MusicalInfo {
    /// The playhead tick value, as a mathematical value.
    spec fn playhead_spec(&self) -> Rat;

    /// The location of the playhead in ticks relative to the start of the
    /// timeline.
    fn playhead_ticks(&self) -> (t: Rat)
        requires
            self.inv(),
        ensures
            t == self.playhead_spec(),
            playhead_tick_wf(t),
    ;
}

/// For handling interaction with the playhead.
///
/// `set_log` is the ghost log of ticks handed to the host; each call appends
/// exactly one entry, so a verified caller can state precisely which ticks
/// were dispatched and how many times.
pub trait Interaction {
    /// The host's invariant over its own representation.
    spec fn inv(&self) -> bool;

    /// The ghost log of playhead ticks that have been set so far.
    spec fn set_log(&self) -> Seq<Rat>;

    /// Set the location of the playhead in ticks.
    fn set_playhead_ticks(&mut self, ticks: Rat)
        requires
            old(self).inv(),
            ticks.wf(),
            ticks.is_nonneg(),
        ensures
            final(self).inv(),
            final(self).set_log() == old(self).set_log().push(ticks),
    ;
}

/// For both providing info and handling interaction.
pub trait PlayheadApi: Info + Interaction {
}

impl<T: Info + Interaction> PlayheadApi for T {
}

/// Playhead configuration for a timeline widget.
#[derive(Clone, Copy, Debug, PartialEq, Eq, Structural)]
pub struct Playhead {
    /// How far the playhead extends beyond the last track, in points.  Only
    /// applies when `extend_to_available_height` is false.
    pub extend_beyond_last_track: Rat,
    /// Whether the playhead extends to the total available height rather
    /// than to the bottom of the occupied tracks.
    pub extend_to_available_height: bool,
    /// The width of the playhead rectangle, in points.
    pub width: Rat,
}

impl Playhead {
    /// A configuration is well-formed when its lengths are exact, bounded
    /// pixel values.
    pub open spec fn wf(self) -> bool {
        &&& px_wf(self.extend_beyond_last_track)
        &&& px_wf(self.width)
        &&& self.width.num >= 0
    }

    /// Create a new playhead with the default configuration: one point wide,
    /// extending to the occupied track space and no further.
    pub fn new() -> (r: Playhead)
        ensures
            r == Playhead::default_spec(),
            r.wf(),
    {
        Playhead {
            extend_beyond_last_track: Rat { num: 0, den: 1 },
            extend_to_available_height: false,
            width: Rat { num: 1, den: 1 },
        }
    }

    /// The default configuration.
    pub open spec fn default_spec() -> Playhead {
        Playhead {
            extend_beyond_last_track: Rat { num: 0, den: 1 },
            extend_to_available_height: false,
            width: Rat { num: 1, den: 1 },
        }
    }

    /// Whether or not to extend the playhead to the total available height.
    ///
    /// This is useful when the timeline occupies a whole panel and the
    /// playhead should span the entire available track space rather than
    /// just the occupied one.
    pub fn extend_to_available_height(self, b: bool) -> (r: Playhead)
        ensures
            r == (Playhead { extend_to_available_height: b, ..self }),
    {
        Playhead { extend_to_available_height: b, ..self }
    }

    /// Extend the playhead beyond the last track by the given amount of
    /// points.  Only applies when `extend_to_available_height` is false.
    pub fn extend_beyond_last_track(self, f: Rat) -> (r: Playhead)
        ensures
            r == (Playhead { extend_beyond_last_track: f, ..self }),
    {
        Playhead { extend_beyond_last_track: f, ..self }
    }

    /// Specify the width of the playhead rectangle, in points.
    pub fn width(self, width: Rat) -> (r: Playhead)
        ensures
            r == (Playhead { width: width, ..self }),
    {
        Playhead { width: width, ..self }
    }
}

impl Default for Playhead {
    /// The default playhead configuration.
    fn default() -> (r: Playhead)
        ensures
            r == Playhead::default_spec(),
    {
        Playhead::new()
    }
}

/// The playhead's pixel position: the timeline's left edge plus
/// `playhead_ticks / ticks_per_point`, exactly.
pub fn playhead_x(playhead_ticks: &Rat, ticks_per_point: &Rat, left: &Rat) -> (x: Rat)
    requires
        playhead_tick_wf(*playhead_ticks),
        zoom_wf(*ticks_per_point),
        px_wf(*left),
    ensures
        x.num == (playhead_ticks.num * ticks_per_point.den) * left.den + left.num * (
        playhead_ticks.den * ticks_per_point.num),
        x.den == (playhead_ticks.den * ticks_per_point.num) * left.den,
        x.wf(),
        -PLAYHEAD_X_NUM_BOUND <= x.num <= PLAYHEAD_X_NUM_BOUND,
        1 <= x.den <= PLAYHEAD_X_DEN_BOUND,
{
    proof {
        lemma_mul_abs_bounds(
            playhead_ticks.num as int,
            ticks_per_point.den as int,
            PLAYHEAD_NUM_BOUND as int,
            ZOOM_BOUND as int,
        );
        lemma_mul_abs_bounds(
            playhead_ticks.den as int,
            ticks_per_point.num as int,
            PLAYHEAD_DEN_BOUND as int,
            ZOOM_BOUND as int,
        );
        lemma_pos_mul_pos(playhead_ticks.den as int, ticks_per_point.num as int);
    }
    let q = playhead_ticks.div(ticks_per_point);
    proof {
        lemma_mul_abs_bounds(
            q.num as int,
            left.den as int,
            0x100_0000_0000 as int,
            PX_DEN_BOUND as int,
        );
        lemma_mul_abs_bounds(left.num as int, q.den as int, PX_NUM_BOUND as int, 0x10_0000 as int);
        lemma_mul_abs_bounds(q.den as int, left.den as int, 0x10_0000 as int, PX_DEN_BOUND as int);
        lemma_pos_mul_pos(q.den as int, left.den as int);
    }
    q.add(left)
}

/// The vertical extent of the playhead: down to the bottom of the available
/// area when `extend_to_available_height` is set, otherwise to the bottom of
/// the occupied tracks plus the configured extension.
pub fn playhead_bottom(playhead: &Playhead, available_bottom: &Rat, tracks_bottom: &Rat) -> (b: Rat)
    requires
        playhead.wf(),
        px_wf(*available_bottom),
        px_wf(*tracks_bottom),
    ensures
        playhead.extend_to_available_height ==> b == *available_bottom,
        !playhead.extend_to_available_height ==> {
            &&& b.num == tracks_bottom.num * playhead.extend_beyond_last_track.den
                + playhead.extend_beyond_last_track.num * tracks_bottom.den
            &&& b.den == tracks_bottom.den * playhead.extend_beyond_last_track.den
        },
        b.wf(),
{
    if playhead.extend_to_available_height {
        *available_bottom
    } else {
        proof {
            lemma_mul_abs_bounds(
                tracks_bottom.num as int,
                playhead.extend_beyond_last_track.den as int,
                PX_NUM_BOUND as int,
                PX_DEN_BOUND as int,
            );
            lemma_mul_abs_bounds(
                playhead.extend_beyond_last_track.num as int,
                tracks_bottom.den as int,
                PX_NUM_BOUND as int,
                PX_DEN_BOUND as int,
            );
            lemma_mul_abs_bounds(
                tracks_bottom.den as int,
                playhead.extend_beyond_last_track.den as int,
                PX_DEN_BOUND as int,
                PX_DEN_BOUND as int,
            );
            lemma_pos_mul_pos(
                tracks_bottom.den as int,
                playhead.extend_beyond_last_track.den as int,
            );
        }
        tracks_bottom.add(&playhead.extend_beyond_last_track)
    }
}

/// The horizontal span of the playhead rectangle: half the configured width
/// on each side of the playhead position.
pub fn playhead_span(x: &Rat, width: &Rat) -> (r: (Rat, Rat))
    requires
        x.wf(),
        -PLAYHEAD_X_NUM_BOUND <= x.num <= PLAYHEAD_X_NUM_BOUND,
        x.den <= PLAYHEAD_X_DEN_BOUND,
        px_wf(*width),
        width.num >= 0,
    ensures
        r.0.num == x.num * (2 * width.den) - width.num * x.den,
        r.0.den == x.den * (2 * width.den),
        r.1.num == x.num * (2 * width.den) + width.num * x.den,
        r.1.den == x.den * (2 * width.den),
        r.0.wf(),
        r.1.wf(),
{
    let half = Rat { num: width.num, den: 2 * width.den };
    proof {
        lemma_mul_abs_bounds(
            x.num as int,
            2 * width.den as int,
            PLAYHEAD_X_NUM_BOUND as int,
            2 * PX_DEN_BOUND as int,
        );
        lemma_mul_abs_bounds(
            width.num as int,
            x.den as int,
            PX_NUM_BOUND as int,
            PLAYHEAD_X_DEN_BOUND as int,
        );
        lemma_mul_abs_bounds(
            x.den as int,
            2 * width.den as int,
            PLAYHEAD_X_DEN_BOUND as int,
            2 * PX_DEN_BOUND as int,
        );
        lemma_pos_mul_pos(x.den as int, 2 * width.den as int);
    }
    let lo = x.sub(&half);
    let hi = x.add(&half);
    (lo, hi)
}

/// Whether the playhead is drawn: its pixel position lies within the visible
/// horizontal range.  (It stays hit-testable either way.)
pub fn playhead_on_screen(x: &Rat, left: &Rat, right: &Rat) -> (b: bool)
    requires
        x.wf(),
        left.wf(),
        right.wf(),
    ensures
        b == (left.le_q(*x) && x.le_q(*right)),
{
    left.le(x) && x.le(right)
}

} // verus!

verus! {

/// Interpret a click or drag on the playhead: when the interaction is active
/// and the pointer position is known, map the pointer to a tick (clamped to
/// be at least zero) and dispatch exactly one `set_playhead_ticks` callback
/// with it; otherwise dispatch nothing.
///
/// Returns the dispatched tick, or `None` when nothing was dispatched.
pub fn playhead_click<A: Interaction>(
    api: &mut A,
    active: bool,
    pointer_x: Option<Rat>,
    left: &Rat,
    width: &Rat,
    visible: &Rat,
) -> (r: Option<Rat>)
    requires
        old(api).inv(),
        px_wf(*left),
        px_wf(*width),
        width.num >= 1,
        visible.wf(),
        0 <= visible.num <= crate::ZOOM_BOUND * crate::LEN_BOUND,
        visible.den <= crate::ZOOM_BOUND * crate::LEN_BOUND,
        pointer_x matches Some(px) ==> px_wf(px),
    ensures
        final(api).inv(),
        match r {
            Some(t) => {
                &&& active
                &&& pointer_x is Some
                &&& final(api).set_log() == old(api).set_log().push(t)
                &&& t.wf()
                &&& t.is_nonneg()
                &&& ({
                    let px = pointer_x->Some_0;
                    let rn = ((px.num * left.den - left.num * px.den) * visible.num) * width.den;
                    let rd = ((px.den * left.den) * visible.den) * width.num;
                    if rn >= 0 {
                        t.num == rn && t.den == rd
                    } else {
                        t.num == 0 && t.den == 1
                    }
                })
            },
            None => {
                &&& !(active && pointer_x is Some)
                &&& final(api).set_log() == old(api).set_log()
            },
        },
{
    if active {
        match pointer_x {
            Some(px) => {
                let t = crate::ruler::pointer_to_tick(&px, left, width, visible);
                api.set_playhead_ticks(t);
                Some(t)
            },
            None => None,
        }
    } else {
        None
    }
}

} // verus!
