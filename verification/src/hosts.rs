//! Ready-made hosts for the collaborator traits.
//!
//! [`FixedMeter`] is a musical model with one time signature and equal-length
//! bars, verified against the [`MusicalInfo`](crate::ruler::MusicalInfo)
//! contract — in particular its bars are contiguous.  The recorder types log
//! every interaction callback they receive; they serve as simple hosts and
//! let callers observe exactly which ticks were dispatched.

use vstd::arithmetic::div_mod::{
    lemma_div_by_multiple, lemma_div_pos_is_pos, lemma_fundamental_div_mod,
    lemma_mod_division_less_than_divisor,
};
use vstd::prelude::*;

use crate::playhead::{playhead_tick_wf, Info, Interaction};
use crate::rat::Rat;
use crate::ruler::{MusicalInfo, MusicalInteract};
use crate::{zoom_wf, Bar, TimeSig};
use crate::{BAR_QUERY_BOUND, TPB_MAX};

verus! {

/// Bound on the bar length of a [`FixedMeter`].
pub const FIXED_BAR_LEN_BOUND: i64 = 0x100_0000;

/// A musical model with a single time signature and equal-length bars,
/// optionally phase-shifted so that the bar containing tick zero starts at a
/// nonpositive offset.
#[derive(Clone, Copy, Debug, PartialEq, Eq, Structural)]
pub struct FixedMeter {
    /// Ticks per beat (PPQN).
    pub ticks_per_beat: u32,
    /// The time signature of every bar.
    pub sig: TimeSig,
    /// The length of every bar, in ticks.
    pub bar_len: i64,
    /// The start of the bar containing tick zero; nonpositive.
    pub offset: i64,
    /// The zoom factor, in ticks per point.
    pub zoom: Rat,
}

impl FixedMeter {
    /// The meter's invariant.
    pub open spec fn meter_inv(self) -> bool {
        &&& 1 <= self.ticks_per_beat <= TPB_MAX
        &&& self.sig.wf()
        &&& 1 <= self.bar_len <= FIXED_BAR_LEN_BOUND
        &&& -self.bar_len < self.offset <= 0
        &&& zoom_wf(self.zoom)
    }

    /// The index of the bar containing the given tick.
    pub open spec fn bar_index(self, tick: int) -> int {
        (tick - self.offset) / (self.bar_len as int)
    }
}

impl MusicalInfo for FixedMeter {
    open spec fn inv(&self) -> bool {
        self.meter_inv()
    }

    open spec fn tpb_spec(&self) -> u32 {
        self.ticks_per_beat
    }

    open spec fn tpp_spec(&self) -> Rat {
        self.zoom
    }

    open spec fn bar_at_spec(&self, tick: int) -> Bar {
        Bar {
            tick_start: (self.offset + (self.bar_len as int) * self.bar_index(tick)) as i64,
            tick_end: (self.offset + (self.bar_len as int) * (self.bar_index(tick) + 1)) as i64,
            time_sig: self.sig,
        }
    }

    proof fn bar_at_spec_properties(&self, tick: int) {
        let l = self.bar_len as int;
        let u = tick - self.offset;
        lemma_fundamental_div_mod(u, l);
        lemma_mod_division_less_than_divisor(u, l);
        lemma_div_pos_is_pos(u, l);
        let k = self.bar_index(tick);
        let start = self.offset + l * k;
        let end = self.offset + l * (k + 1);
        assert(l * (k + 1) == l * k + l) by (nonlinear_arith);
        assert(start == tick - (u % l));
        assert(start <= tick < end);
        assert(-crate::BAR_TICK_BOUND <= start && end <= crate::BAR_TICK_BOUND);
        assert(self.bar_at_spec(tick).tick_start == start);
        assert(self.bar_at_spec(tick).tick_end == end);
        if end <= BAR_QUERY_BOUND {
            let u2 = end - self.offset;
            assert(u2 == l * (k + 1));
            assert(u2 == (k + 1) * l) by (nonlinear_arith)
                requires
                    u2 == l * (k + 1),
            ;
            lemma_div_by_multiple(k + 1, l);
            assert(self.bar_index(end as int) == k + 1);
            assert(self.bar_at_spec(end as int).tick_start == end);
        }
    }

    fn ticks_per_beat(&self) -> (t: u32) {
        self.ticks_per_beat
    }

    fn ticks_per_point(&self) -> (z: Rat) {
        self.zoom
    }

    fn bar_at_ticks(&self, tick: i64) -> (b: Bar) {
        proof {
            self.bar_at_spec_properties(tick as int);
            lemma_fundamental_div_mod(tick - self.offset, self.bar_len as int);
            lemma_mod_division_less_than_divisor(tick - self.offset, self.bar_len as int);
            lemma_div_pos_is_pos(tick - self.offset, self.bar_len as int);
        }
        let u: i64 = tick - self.offset;
        let k: i64 = ((u as u64) / (self.bar_len as u64)) as i64;
        proof {
            assert(k == self.bar_index(tick as int));
            assert((self.bar_len as int) * k == u - ((u as int) % (self.bar_len as int)))
                by (nonlinear_arith)
                requires
                    u == (self.bar_len as int) * (self.bar_index(tick as int)) + ((u as int) % (
                    self.bar_len as int)),
                    k == self.bar_index(tick as int),
            ;
        }
        let start: i64 = self.offset + self.bar_len * k;
        let end: i64 = start + self.bar_len;
        proof {
            assert((self.bar_len as int) * (k + 1) == (self.bar_len as int) * k + self.bar_len)
                by (nonlinear_arith);
        }
        Bar { tick_start: start, tick_end: end, time_sig: self.sig }
    }
}

/// A host for the ruler's click callback that records every dispatched tick.
#[derive(Debug)]
pub struct ClickRecorder {
    /// The dispatched ticks, oldest first.
    pub log: Vec<Rat>,
}

impl ClickRecorder {
    /// An empty recorder.
    pub fn new() -> (r: ClickRecorder)
        ensures
            r.log@ =~= Seq::<Rat>::empty(),
    {
        ClickRecorder { log: Vec::new() }
    }
}

impl MusicalInteract for ClickRecorder {
    open spec fn inv(&self) -> bool {
        true
    }

    open spec fn clicks(&self) -> Seq<Rat> {
        self.log@
    }

    fn click_at_tick(&mut self, tick: Rat) {
        self.log.push(tick);
    }
}

/// A timeline model that records every pan and zoom delegation.
#[derive(Debug)]
pub struct ScrollRecorder {
    /// The zoom factor, in ticks per point.
    pub zoom_factor: Rat,
    /// The delegated timeline-start shifts, oldest first.
    pub shift_log: Vec<Rat>,
    /// The delegated zoom deltas, oldest first.
    pub zoom_log: Vec<Rat>,
}

impl ScrollRecorder {
    /// An empty recorder at the given zoom factor.
    pub fn new(zoom_factor: Rat) -> (r: ScrollRecorder)
        requires
            zoom_wf(zoom_factor),
        ensures
            r.zoom_factor == zoom_factor,
            r.shift_log@ =~= Seq::<Rat>::empty(),
            r.zoom_log@ =~= Seq::<Rat>::empty(),
    {
        ScrollRecorder { zoom_factor, shift_log: Vec::new(), zoom_log: Vec::new() }
    }
}

impl crate::TimelineApi for ScrollRecorder {
    open spec fn inv(&self) -> bool {
        zoom_wf(self.zoom_factor)
    }

    open spec fn tpp_spec(&self) -> Rat {
        self.zoom_factor
    }

    open spec fn shifts(&self) -> Seq<Rat> {
        self.shift_log@
    }

    open spec fn zooms(&self) -> Seq<Rat> {
        self.zoom_log@
    }

    fn ticks_per_point(&self) -> (z: Rat) {
        self.zoom_factor
    }

    fn shift_timeline_start(&mut self, ticks: Rat) {
        self.shift_log.push(ticks);
    }

    fn zoom(&mut self, y_delta: Rat) {
        self.zoom_log.push(y_delta);
    }
}

/// A transport: a fixed meter together with a playhead position, recording
/// every playhead write.  Ruler clicks seek the playhead, so a `Transport`
/// serves as a full ruler host as well.
#[derive(Debug)]
pub struct Transport {
    /// The musical model.
    pub meter: FixedMeter,
    /// The playhead position, in ticks.
    pub position: Rat,
    /// The playhead ticks handed to `set_playhead_ticks`, oldest first.
    pub set_history: Vec<Rat>,
    /// The ticks handed to `click_at_tick`, oldest first.
    pub click_history: Vec<Rat>,
}

impl Transport {
    /// A transport over the given meter with the playhead at zero.
    pub fn new(meter: FixedMeter) -> (r: Transport)
        requires
            meter.meter_inv(),
        ensures
            r.meter == meter,
            r.position == (Rat { num: 0, den: 1 }),
            r.set_history@ =~= Seq::<Rat>::empty(),
            r.click_history@ =~= Seq::<Rat>::empty(),
    {
        Transport {
            meter,
            position: Rat { num: 0, den: 1 },
            set_history: Vec::new(),
            click_history: Vec::new(),
        }
    }
}

impl MusicalInfo for Transport {
    open spec fn inv(&self) -> bool {
        self.meter.meter_inv() && playhead_tick_wf(self.position)
    }

    open spec fn tpb_spec(&self) -> u32 {
        self.meter.ticks_per_beat
    }

    open spec fn tpp_spec(&self) -> Rat {
        self.meter.zoom
    }

    open spec fn bar_at_spec(&self, tick: int) -> Bar {
        self.meter.bar_at_spec(tick)
    }

    proof fn bar_at_spec_properties(&self, tick: int) {
        self.meter.bar_at_spec_properties(tick);
    }

    fn ticks_per_beat(&self) -> (t: u32) {
        self.meter.ticks_per_beat()
    }

    fn ticks_per_point(&self) -> (z: Rat) {
        self.meter.ticks_per_point()
    }

    fn bar_at_ticks(&self, tick: i64) -> (b: Bar) {
        self.meter.bar_at_ticks(tick)
    }
}

impl Info for Transport {
    open spec fn playhead_spec(&self) -> Rat {
        self.position
    }

    fn playhead_ticks(&self) -> (t: Rat) {
        self.position
    }
}

impl MusicalInteract for Transport {
    open spec fn inv(&self) -> bool {
        self.meter.meter_inv() && playhead_tick_wf(self.position)
    }

    open spec fn clicks(&self) -> Seq<Rat> {
        self.click_history@
    }

    fn click_at_tick(&mut self, tick: Rat) {
        // A ruler click seeks the playhead when the tick is within the
        // supported range; the click is logged either way.
        if tick.num <= crate::playhead::PLAYHEAD_NUM_BOUND && tick.den
            <= crate::playhead::PLAYHEAD_DEN_BOUND {
            self.position = tick;
        }
        self.click_history.push(tick);
    }
}

impl Interaction for Transport {
    open spec fn inv(&self) -> bool {
        self.meter.meter_inv() && playhead_tick_wf(self.position)
    }

    open spec fn set_log(&self) -> Seq<Rat> {
        self.set_history@
    }

    fn set_playhead_ticks(&mut self, ticks: Rat) {
        // Move the playhead when the tick is within the supported range; the
        // write is logged either way.
        if ticks.num <= crate::playhead::PLAYHEAD_NUM_BOUND && ticks.den
            <= crate::playhead::PLAYHEAD_DEN_BOUND {
            self.position = ticks;
        }
        self.set_history.push(ticks);
    }
}

} // verus!
