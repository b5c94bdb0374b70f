//! The musical ruler: grid-step generation and click-to-seek.
//!
//! The central piece is [`Steps`], the adaptive grid generator.  Constructed
//! from the host's musical information and a viewport, it yields the finite,
//! strictly increasing sequence of grid lines for the visible tick range,
//! choosing per bar the densest power-of-two beat subdivision whose lines
//! stay at least the configured minimum gap apart on screen.
//!
//! The generator records the steps it has emitted in a ghost history
//! (`Steps::hist`); its invariant [`Steps::wf`] pins down, for every emitted
//! step, the exact bar it lies in, the exact subdivision chosen for that bar
//! and the exact tick and pixel position.  The public lemmas at the bottom of
//! the module state the grid laws (monotonicity, minimum gap, one step per
//! bar under the density fallback) over that history.

use vstd::prelude::*;

use crate::rat::Rat;
use crate::rat::lemma_lt_trans;
use crate::{Bar, TimeSig};
use crate::{gap_wf, len_wf, zoom_wf};
use crate::{BAR_QUERY_BOUND, BAR_TICK_BOUND, GAP_BOUND, LEN_BOUND, TPB_MAX, ZOOM_BOUND};

verus! {

/// Bound on the beat-subdivision count (the denominator of a step interval).
pub const SUBDIV_BOUND: i64 = 0x800_0000;

/// Access to musical information required by the timeline, supplied by the
/// host.
///
/// `bar_at_spec` is the host's mathematical bar map; the executable queries
/// must agree with it, and `bar_at_spec_properties` obliges the host to
/// return well-formed, contiguous bars: the bar found at a tick contains that
/// tick, and the bar found at its end tick starts exactly there.  The grid
/// generator is verified only against these obligations; a host that breaks
/// them breaks its contract.
pub trait MusicalInfo {
    /// The host's invariant over its own representation.
    spec fn inv(&self) -> bool;

    /// The number of ticks per beat, as a mathematical value.
    spec fn tpb_spec(&self) -> u32;

    /// The zoom factor (ticks per point), as a mathematical value.
    spec fn tpp_spec(&self) -> Rat;

    /// The bar containing the given tick offset, as a mathematical value.
    spec fn bar_at_spec(&self, tick: int) -> Bar;

    /// The host's bars are well-formed and contiguous.
    proof fn bar_at_spec_properties(&self, tick: int)
        requires
            self.inv(),
            0 <= tick <= BAR_QUERY_BOUND,
        ensures
            self.bar_at_spec(tick).wf(),
            self.bar_at_spec(tick).tick_start <= tick < self.bar_at_spec(tick).tick_end,
            self.bar_at_spec(tick).tick_end <= BAR_QUERY_BOUND ==> self.bar_at_spec(
                self.bar_at_spec(tick).tick_end as int,
            ).tick_start == self.bar_at_spec(tick).tick_end,
    ;

    /// The number of ticks per beat, also known as PPQN (parts per quarter
    /// note).
    fn ticks_per_beat(&self) -> (t: u32)
        requires
            self.inv(),
        ensures
            t == self.tpb_spec(),
            1 <= t <= TPB_MAX,
    ;

    /// How "zoomed" the timeline is, in ticks per point.  A common choice is
    /// `ticks_per_beat / 16`, giving sixteen points per beat.
    fn ticks_per_point(&self) -> (z: Rat)
        requires
            self.inv(),
        ensures
            z == self.tpp_spec(),
            zoom_wf(z),
    ;

    /// The bar at the given tick offset from the beginning (left) of the
    /// timeline view.
    fn bar_at_ticks(&self, tick: i64) -> (b: Bar)
        requires
            self.inv(),
            0 <= tick <= BAR_QUERY_BOUND,
        ensures
            b == self.bar_at_spec(tick as int),
    ;
}

/// Respond to the user clicking on the ruler.
///
/// `clicks` is the ghost log of dispatched clicks; each call appends exactly
/// one entry, so a verified caller can state precisely which ticks were
/// dispatched and how many times.
pub trait MusicalInteract {
    /// The host's invariant over its own representation.
    spec fn inv(&self) -> bool;

    /// The ghost log of ticks that have been dispatched so far.
    spec fn clicks(&self) -> Seq<Rat>;

    /// The given tick location was clicked.
    fn click_at_tick(&mut self, tick: Rat)
        requires
            old(self).inv(),
            tick.wf(),
            tick.is_nonneg(),
        ensures
            final(self).inv(),
            final(self).clicks() == old(self).clicks().push(tick),
    ;
}

/// The full host API for the musical ruler widget: musical information
/// together with click handling.
pub trait MusicalRuler: MusicalInfo + MusicalInteract {
}

impl<T: MusicalInfo + MusicalInteract> MusicalRuler for T {
}

/// One grid line within the visible range.
#[derive(Clone, Copy, Debug, PartialEq, Eq, Structural)]
pub struct Step {
    /// The index of the step within its bar.  A step at a bar's start always
    /// has index zero.
    pub index_in_bar: u64,
    /// The position of the step in ticks from the start of the visible area.
    pub ticks: Rat,
    /// The position of the step along the x axis, in points from the start
    /// of the visible area.
    pub x: Rat,
}

/// Ghost record of one emitted step together with the bar and subdivision it
/// was emitted under.
pub struct EmitRec {
    /// The emitted step.
    pub step: Step,
    /// First tick of the bar the step lies in.
    pub bar_start: int,
    /// First tick after that bar.
    pub bar_end: int,
    /// The bar's time signature.
    pub sig: TimeSig,
    /// Numerator of the step interval used in that bar.
    pub step_num: int,
    /// Denominator of the step interval used in that bar.
    pub den: int,
}

/// The parameters of one grid-generation pass, as mathematical values.
pub struct GridParams {
    /// Ticks per beat.
    pub tpb: int,
    /// Ticks per point (zoom).
    pub tpp: Rat,
    /// Minimum on-screen gap between adjacent lines, in points.
    pub gap: Rat,
    /// Minimum gap converted to ticks: `tpp * gap`.
    pub ms: Rat,
    /// The visible tick range is `[0, visible]`.
    pub visible: Rat,
}

/// Well-formed pass parameters, with the bounds that keep all arithmetic of
/// the pass exact in 64 bits.
pub open spec fn grid_params_wf(p: GridParams) -> bool {
    &&& 1 <= p.tpb <= TPB_MAX
    &&& zoom_wf(p.tpp)
    &&& gap_wf(p.gap)
    &&& p.ms.num == p.tpp.num * p.gap.num
    &&& p.ms.den == p.tpp.den * p.gap.den
    &&& 1 <= p.ms.num <= ZOOM_BOUND * GAP_BOUND
    &&& 1 <= p.ms.den <= ZOOM_BOUND * GAP_BOUND
    &&& p.ms.den <= 8 * ZOOM_BOUND * p.ms.num
    &&& p.visible.wf()
    &&& 0 <= p.visible.num <= ZOOM_BOUND * LEN_BOUND
    &&& p.visible.den <= ZOOM_BOUND * LEN_BOUND
}

/// The number of subdivisions per beat implied by a time signature's note
/// value: `bottom / 4`, never less than one.
pub open spec fn nat_subdivs(sig: TimeSig) -> int {
    if sig.bottom / 4 >= 1 {
        (sig.bottom / 4) as int
    } else {
        1
    }
}

/// The bar's natural beat subdivision is already too fine for the current
/// zoom (its step would be shorter than the minimum step): the generator
/// falls back to one step per bar.
pub open spec fn fallback_bar(tpb: int, ms: Rat, sig: TimeSig) -> bool {
    tpb * ms.den < ms.num * nat_subdivs(sig)
}

/// `den` is reached from `base` by doubling zero or more times.
pub open spec fn doubled_from(base: int, den: int) -> bool
    decreases den,
{
    if den == base {
        true
    } else if den > base && base >= 1 && den % 2 == 0 {
        doubled_from(base, den / 2)
    } else {
        false
    }
}

/// The step interval `step_num / den` is exactly what the subdivision
/// algorithm chooses for a bar of the given signature and length: in the
/// fallback case the whole bar; otherwise `tpb / den` where `den` is the
/// densest subdivision, reached from the natural one by doubling, whose step
/// stays above the minimum-step floor.  These clauses determine `den`
/// uniquely: it is the power-of-two multiple of the natural subdivision whose
/// step is above the floor while the next halving is not.
pub open spec fn step_ok(tpb: int, ms: Rat, sig: TimeSig, bar_len: int, step_num: int, den: int) -> bool {
    if fallback_bar(tpb, ms, sig) {
        step_num == bar_len && den == 1
    } else {
        &&& step_num == tpb
        &&& nat_subdivs(sig) <= den <= SUBDIV_BOUND
        &&& doubled_from(nat_subdivs(sig), den)
        &&& tpb * ms.den <= ms.num * (2 * den)
        &&& den == nat_subdivs(sig) || tpb * ms.den > ms.num * den
    }
}

/// Per-step ghost invariant: the record's step lies exactly on the chosen
/// subdivision grid of its bar, inside the bar, inside the visible range, at
/// its exact pixel position.
pub open spec fn rec_wf(r: EmitRec, p: GridParams) -> bool {
    &&& r.den >= 1
    &&& r.step_num >= 1
    &&& -BAR_TICK_BOUND <= r.bar_start < r.bar_end <= BAR_TICK_BOUND
    &&& r.sig.wf()
    &&& step_ok(p.tpb, p.ms, r.sig, r.bar_end - r.bar_start, r.step_num, r.den)
    &&& r.step.ticks.den == r.den
    &&& r.step.ticks.num == r.bar_start * r.den + r.step.index_in_bar * r.step_num
    &&& r.step.ticks.num >= 0
    &&& r.step.ticks.le_q(p.visible)
    &&& r.step.ticks.lt_int(r.bar_end)
    &&& r.step.x.num == r.step.ticks.num * p.tpp.den
    &&& r.step.x.den == r.den * p.tpp.num
}

/// Invariant of two adjacent emitted steps: ticks strictly increase, and
/// either both lie in the same bar — then the second is the very next
/// subdivision step, which cannot happen in a fallback bar — or the second
/// is the starting step of the immediately following bar.  No grid position
/// and no bar is ever skipped between two emitted steps.
pub open spec fn pair_wf(a: EmitRec, b: EmitRec, p: GridParams) -> bool {
    &&& a.step.ticks.lt_q(b.step.ticks)
    &&& if b.bar_start == a.bar_start {
        &&& b.bar_end == a.bar_end
        &&& b.sig == a.sig
        &&& b.den == a.den
        &&& b.step_num == a.step_num
        &&& b.step.index_in_bar == a.step.index_in_bar + 1
        &&& !fallback_bar(p.tpb, p.ms, a.sig)
    } else {
        &&& b.bar_start == a.bar_end
        &&& b.step.index_in_bar == 0
    }
}

/// Invariant of the whole emitted history.
pub open spec fn hist_wf(h: Seq<EmitRec>, p: GridParams) -> bool {
    &&& forall|i: int| 0 <= i < h.len() ==> #[trigger] rec_wf(h[i], p)
    &&& forall|i: int| 0 <= i && i + 1 < h.len() ==> #[trigger] pair_wf(h[i], h[i + 1], p)
}

/// The emitted step and post-state of a call that settles at the head of bar
/// `b`: the post-state stores `b` and its exact subdivision, and the step is
/// the first position of that subdivision grid at or after tick zero, lying
/// inside the bar and within the visible range.
pub open spec fn head_emission(pre: Steps, b: Bar, post: Steps, step: Step) -> bool {
    &&& post.bar == b
    &&& step_ok(
        pre.ticks_per_beat as int,
        pre.min_step_ticks,
        b.time_sig,
        b.tick_end - b.tick_start,
        post.step_num as int,
        post.den as int,
    )
    &&& step.ticks.den == post.den
    &&& step.ticks.num == b.tick_start * post.den + step.index_in_bar * post.step_num
    &&& step.ticks.num >= 0
    &&& (step.index_in_bar == 0 || step.ticks.num < post.step_num)
    &&& step.ticks.le_q(pre.visible_ticks)
    &&& step.ticks.lt_int(b.tick_end as int)
    &&& step.x.num == step.ticks.num * pre.ticks_per_point.den
    &&& step.x.den == post.den * pre.ticks_per_point.num
    &&& post.index_in_bar == step.index_in_bar + 1
    &&& post.cursor_num == step.ticks.num + post.step_num
}

/// The post-state of a call that settles at the head of bar `b` but finds
/// the bar's first grid position at or after tick zero already beyond the
/// visible range: nothing is emitted and the pass is exhausted.
pub open spec fn head_exhaustion(pre: Steps, b: Bar, post: Steps) -> bool {
    &&& post.bar == b
    &&& step_ok(
        pre.ticks_per_beat as int,
        pre.min_step_ticks,
        b.time_sig,
        b.tick_end - b.tick_start,
        post.step_num as int,
        post.den as int,
    )
    &&& post.cursor_num == b.tick_start * post.den + post.index_in_bar * post.step_num
    &&& post.cursor_num >= 0
    &&& (post.index_in_bar == 0 || post.cursor_num < post.step_num)
    &&& pre.visible_ticks.lt_q(post.cursor())
    &&& (post.index_in_bar == 0 ==> pre.visible_ticks.lt_int(b.tick_start as int))
}

/// A call that settles at the head of bar `b` emits the bar's first grid
/// position at or after tick zero, or emits nothing when that position lies
/// beyond the visible range.
pub open spec fn settles_at_head(pre: Steps, b: Bar, post: Steps, r: Option<Step>) -> bool {
    match r {
        Some(step) => head_emission(pre, b, post, step),
        None => head_exhaustion(pre, b, post),
    }
}

/// Witness that bar `b` contributes no step: the first position of its
/// subdivision grid at or after tick zero lies at or past the bar's end,
/// while still within the visible range.
pub open spec fn skipped_bar_witness(pre: Steps, b: Bar, sn: int, sd: int, k: int) -> bool {
    let p0 = b.tick_start * sd + k * sn;
    &&& step_ok(
        pre.ticks_per_beat as int,
        pre.min_step_ticks,
        b.time_sig,
        b.tick_end - b.tick_start,
        sn,
        sd,
    )
    &&& 0 <= k
    &&& p0 >= 0
    &&& (k == 0 || p0 < sn)
    &&& p0 >= b.tick_end * sd
    &&& p0 * pre.visible_ticks.den <= pre.visible_ticks.num * sd
}

/// Bar `b` contributes no step to the pass, so the walk moves on to the bar
/// that starts at `b`'s end.
pub open spec fn bar_yields_nothing(pre: Steps, b: Bar) -> bool {
    exists|sn: int, sd: int, k: int| #[trigger] skipped_bar_witness(pre, b, sn, sd, k)
}

/// The post-state and emitted step of a call that finds the cursor mid-bar,
/// strictly inside the bar and the visible range: the step sits exactly at
/// the cursor and the cursor advances by one step interval.
pub open spec fn in_bar_emission(pre: Steps, post: Steps, step: Step) -> bool {
    &&& step.index_in_bar == pre.index_in_bar
    &&& step.ticks.num == pre.cursor_num
    &&& step.ticks.den == pre.den
    &&& step.x.num == pre.cursor_num * pre.ticks_per_point.den
    &&& step.x.den == pre.den * pre.ticks_per_point.num
    &&& post.bar == pre.bar
    &&& post.den == pre.den
    &&& post.step_num == pre.step_num
    &&& post.index_in_bar == pre.index_in_bar + 1
    &&& post.cursor_num == pre.cursor_num + pre.step_num
}

/// Loop state of one call: the generator is still skipping the pre-origin
/// positions of the bar it started in.
spec fn mid_skip(pre: Steps, cur: Steps) -> bool {
    &&& pre.index_in_bar == 0
    &&& cur.bar == pre.bar
    &&& cur.index_in_bar >= 1
    &&& cur.cursor_num - cur.step_num < 0
}

/// Loop state of one call: the generator has advanced past one bar that
/// contributed no further step, and now stands at the head of the bar that
/// starts at its end.
spec fn advanced<M: MusicalInfo>(pre: Steps, cur: Steps, api: M) -> bool {
    &&& cur.bar == api.bar_at_spec(pre.bar.tick_end as int)
    &&& cur.bar.tick_start == pre.bar.tick_end
    &&& cur.index_in_bar == 0
    &&& ((pre.index_in_bar > 0 && !pre.visible_ticks.lt_q(pre.cursor()) && !pre.cursor().lt_int(
        pre.bar.tick_end as int,
    )) || (pre.index_in_bar == 0 && bar_yields_nothing(pre, pre.bar)))
}

/// The bar's end tick is bounded by the visible numerator once the cursor has
/// reached it while staying within the visible range.
proof fn lemma_end_within_query_bound(e: int, den: int, cursor_num: int, vn: int, vd: int)
    by (nonlinear_arith)
    requires
        1 <= den,
        1 <= vd,
        0 <= vn,
        1 <= e,
        e * den <= cursor_num,
        cursor_num * vd <= vn * den,
    ensures
        e <= vn,
{
}

/// Bounds on the cursor that keep the step advance exact in 64 bits.
proof fn lemma_cursor_step_bounds(
    t_num: int,
    step_num: int,
    den: int,
    start: int,
    idx: int,
    vn: int,
    vd: int,
)
    by (nonlinear_arith)
    requires
        1 <= den <= SUBDIV_BOUND,
        1 <= vd,
        0 <= vn <= ZOOM_BOUND * LEN_BOUND,
        -BAR_TICK_BOUND <= start,
        0 <= idx,
        1 <= step_num <= 2 * BAR_TICK_BOUND,
        t_num == start * den + idx * step_num,
        t_num * vd <= vn * den,
    ensures
        -0x4000_0000_0000_0000 <= t_num + step_num <= 0x4000_0000_0000_0000,
        -0x4000_0000_0000_0000 <= t_num <= 0x4000_0000_0000_0000,
        t_num >= 0 ==> t_num <= 0x8_0000_0000_0000,
{
}

/// A subdivision still above the minimum-step floor is bounded: from
/// `ms.num * den < tpb * ms.den` and the floor on the minimum step it
/// follows that `den` stays within the subdivision bound.
proof fn lemma_subdiv_bound(tpb: int, msn: int, msd: int, den: int)
    by (nonlinear_arith)
    requires
        1 <= tpb <= TPB_MAX,
        1 <= msn,
        1 <= msd,
        msd <= 8 * ZOOM_BOUND * msn,
        msn * den < tpb * msd,
        0 <= den,
    ensures
        den <= SUBDIV_BOUND,
{
}

/// The minimum step in ticks is at least `1 / (8 * ZOOM_BOUND)`: its
/// denominator is at most `8 * ZOOM_BOUND` times its numerator.
proof fn lemma_min_step_floor(pn: int, pd: int, gn: int, gd: int)
    by (nonlinear_arith)
    requires
        1 <= pn,
        1 <= pd <= ZOOM_BOUND,
        1 <= gn,
        gd <= 8 * gn,
    ensures
        pd * gd <= 8 * ZOOM_BOUND * (pn * gn),
{
}

/// Choose the step interval for one bar: starting from the time signature's
/// natural beat subdivision, keep doubling the subdivision while the next
/// halving would still keep the step above the minimum-step floor; if even
/// the natural subdivision is below the floor, fall back to one step per bar.
///
/// Returns the step interval as `(numerator, denominator)`.
#[verifier::loop_isolation(false)]
fn derive_step(ticks_per_beat: u32, min_step_ticks: &Rat, bar: &Bar) -> (r: (i64, i64))
    requires
        1 <= ticks_per_beat <= TPB_MAX,
        min_step_ticks.wf(),
        1 <= min_step_ticks.num,
        min_step_ticks.den <= 8 * ZOOM_BOUND * min_step_ticks.num,
        bar.wf(),
    ensures
        step_ok(
            ticks_per_beat as int,
            *min_step_ticks,
            bar.time_sig,
            bar.tick_end - bar.tick_start,
            r.0 as int,
            r.1 as int,
        ),
        1 <= r.0 <= 2 * BAR_TICK_BOUND,
        1 <= r.1 <= SUBDIV_BOUND,
{
    let q: u16 = bar.time_sig.bottom / 4;
    let s0: i64 = if q >= 1 {
        q as i64
    } else {
        1
    };
    assert(s0 == nat_subdivs(bar.time_sig));
    let tpb: i64 = ticks_per_beat as i64;
    let natural = Rat { num: tpb, den: s0 };
    if !natural.lt(min_step_ticks) {
        // The natural subdivision respects the floor: densify while the next
        // halving still would.
        let mut den: i64 = s0;
        let mut halved = Rat { num: tpb, den: 2 * s0 };
        while min_step_ticks.lt(&halved)
            invariant
                s0 <= den <= SUBDIV_BOUND,
                halved.num == tpb,
                halved.den == 2 * den,
                doubled_from(s0 as int, den as int),
                den == s0 || (ticks_per_beat as int) * min_step_ticks.den > min_step_ticks.num
                    * den,
                (ticks_per_beat as int) * min_step_ticks.den >= min_step_ticks.num * den,
            decreases SUBDIV_BOUND - den,
        {
            // The halved step is still above the floor: commit the doubling.
            let den2: i64 = 2 * den;
            proof {
                lemma_subdiv_bound(
                    ticks_per_beat as int,
                    min_step_ticks.num as int,
                    min_step_ticks.den as int,
                    den2 as int,
                );
                assert((den2 as int) % 2 == 0 && (den2 as int) / 2 == den as int);
                assert(doubled_from(s0 as int, den2 as int));
            }
            den = den2;
            halved = Rat { num: tpb, den: 2 * den };
        }
        (tpb, den)
    } else {
        // Even the natural subdivision is too fine for this zoom: one step
        // per bar.
        (bar.tick_end - bar.tick_start, 1)
    }
}

/// The adaptive grid-step generator.
///
/// Yields the grid lines for the tick range `[0, visible_ticks]`, in
/// increasing tick order, one bar at a time.  One instance serves a single
/// generation pass: construct it with [`Steps::new`], drain it with
/// [`Steps::next`], and discard it.
pub struct Steps {
    /// Ticks per beat.
    pub ticks_per_beat: u32,
    /// Ticks per point (zoom).
    pub ticks_per_point: Rat,
    /// The visible tick range is `[0, visible_ticks]`.
    pub visible_ticks: Rat,
    /// Minimum step interval in ticks: `ticks_per_point * gap`.
    pub min_step_ticks: Rat,
    /// Index of the next step within the current bar, counting skipped
    /// negative positions.
    pub index_in_bar: u64,
    /// Numerator of the current step interval (`step = step_num / den`).
    pub step_num: i64,
    /// Denominator of the current step interval; also the denominator of the
    /// cursor.
    pub den: i64,
    /// Numerator of the cursor tick (`cursor = cursor_num / den`).
    pub cursor_num: i64,
    /// The bar the cursor currently lies in.
    pub bar: Bar,
    /// Ghost: the configured minimum on-screen gap, in points.
    pub gap: Ghost<Rat>,
    /// Ghost: the tick at which `bar` was queried from the host.
    pub bar_query: Ghost<int>,
    /// Ghost: the history of emitted steps.
    pub hist: Ghost<Seq<EmitRec>>,
}

impl Steps {
    /// The parameters of this pass, as mathematical values.
    pub open spec fn params(self) -> GridParams {
        GridParams {
            tpb: self.ticks_per_beat as int,
            tpp: self.ticks_per_point,
            gap: self.gap@,
            ms: self.min_step_ticks,
            visible: self.visible_ticks,
        }
    }

    /// The cursor tick as a rational.
    pub open spec fn cursor(self) -> Rat {
        Rat { num: self.cursor_num, den: self.den }
    }

    /// The generator was built from, and its stored bar agrees with, the
    /// given host.
    pub open spec fn linked<M: MusicalInfo>(self, api: M) -> bool {
        &&& self.ticks_per_beat == api.tpb_spec()
        &&& self.ticks_per_point == api.tpp_spec()
        &&& 0 <= self.bar_query@ <= BAR_QUERY_BOUND
        &&& self.bar == api.bar_at_spec(self.bar_query@)
    }

    /// The generator's state between calls: well-formed, and once a step of
    /// the current bar has been taken the cursor sits at or after tick zero.
    pub open spec fn ready(self) -> bool {
        self.wf() && (self.index_in_bar > 0 ==> self.cursor_num >= 0)
    }

    /// The generator's invariant.
    pub open spec fn wf(self) -> bool {
        &&& grid_params_wf(self.params())
        &&& hist_wf(self.hist@, self.params())
        &&& self.bar.wf()
        &&& self.bar.tick_end >= 1
        &&& if self.index_in_bar == 0 {
            self.hist@.len() > 0 ==> self.hist@.last().bar_end == self.bar.tick_start
        } else {
            &&& 1 <= self.den <= SUBDIV_BOUND
            &&& 1 <= self.step_num <= 2 * BAR_TICK_BOUND
            &&& step_ok(
                self.ticks_per_beat as int,
                self.min_step_ticks,
                self.bar.time_sig,
                self.bar.tick_end - self.bar.tick_start,
                self.step_num as int,
                self.den as int,
            )
            &&& self.cursor_num == self.bar.tick_start * self.den + self.index_in_bar
                * self.step_num
            &&& (self.cursor_num - self.step_num) * self.visible_ticks.den
                <= self.visible_ticks.num * self.den
            &&& self.hist@.len() > 0 ==> {
                let l = self.hist@.last();
                &&& l.step.ticks.lt_q(self.cursor())
                &&& l.bar_start == self.bar.tick_start
                &&& l.bar_end == self.bar.tick_end
                &&& l.sig == self.bar.time_sig
                &&& l.den == self.den
                &&& l.step_num == self.step_num
                &&& l.step.index_in_bar + 1 == self.index_in_bar
            }
        }
    }

    /// Create a new generator for one pass over the visible range.
    ///
    /// `visible_len` is the width of the visible area in points and
    /// `min_step_gap` the smallest on-screen gap allowed between adjacent
    /// grid lines (at least one point).
    pub fn new<M: MusicalInfo>(api: &M, visible_len: &Rat, min_step_gap: &Rat) -> (s: Steps)
        requires
            api.inv(),
            len_wf(*visible_len),
            gap_wf(*min_step_gap),
        ensures
            s.ready(),
            s.linked(*api),
            s.hist@ =~= Seq::<EmitRec>::empty(),
            s.gap@ == *min_step_gap,
            s.ticks_per_beat == api.tpb_spec(),
            s.ticks_per_point == api.tpp_spec(),
            s.min_step_ticks.num == api.tpp_spec().num * min_step_gap.num,
            s.min_step_ticks.den == api.tpp_spec().den * min_step_gap.den,
            s.visible_ticks.num == api.tpp_spec().num * visible_len.num,
            s.visible_ticks.den == api.tpp_spec().den * visible_len.den,
            s.bar_query@ == 0,
            s.bar == api.bar_at_spec(0),
            s.index_in_bar == 0,
            s.cursor_num == 0,
    {
        let ticks_per_beat = api.ticks_per_beat();
        let ticks_per_point = api.ticks_per_point();
        proof {
            crate::rat::lemma_mul_bounds(
                ticks_per_point.num as int,
                visible_len.num as int,
                ZOOM_BOUND as int,
                LEN_BOUND as int,
            );
            crate::rat::lemma_mul_bounds(
                ticks_per_point.den as int,
                visible_len.den as int,
                ZOOM_BOUND as int,
                LEN_BOUND as int,
            );
            crate::rat::lemma_mul_bounds(
                ticks_per_point.num as int,
                min_step_gap.num as int,
                ZOOM_BOUND as int,
                GAP_BOUND as int,
            );
            crate::rat::lemma_mul_bounds(
                ticks_per_point.den as int,
                min_step_gap.den as int,
                ZOOM_BOUND as int,
                GAP_BOUND as int,
            );
            crate::rat::lemma_pos_mul_pos(
                ticks_per_point.num as int,
                min_step_gap.num as int,
            );
            lemma_min_step_floor(
                ticks_per_point.num as int,
                ticks_per_point.den as int,
                min_step_gap.num as int,
                min_step_gap.den as int,
            );
        }
        let visible = ticks_per_point.mul(visible_len);
        let min_step_ticks = ticks_per_point.mul(min_step_gap);
        let bar = api.bar_at_ticks(0);
        proof {
            api.bar_at_spec_properties(0);
        }
        Steps {
            ticks_per_beat,
            ticks_per_point,
            visible_ticks: visible,
            min_step_ticks,
            index_in_bar: 0,
            step_num: 1,
            den: 1,
            cursor_num: 0,
            bar,
            gap: Ghost(*min_step_gap),
            bar_query: Ghost(0),
            hist: Ghost(Seq::empty()),
        }
    }

    /// Produce the next grid step, if any remains in the visible range.
    ///
    /// The outcome is a function of the previous state and the host's bar
    /// map, and the contract pins it down exactly: mid-bar, the step at the
    /// cursor is emitted while it stays inside the bar and the visible range;
    /// otherwise the call settles at the head of the current bar — or, when
    /// that bar is finished or contributes no position at or after tick zero,
    /// at the head of the bar starting at its end — and emits that bar's
    /// first such grid position.  `None` comes exactly when the next position
    /// lies beyond the visible range (or the range is empty); the emitted
    /// step, if any, is appended to the ghost history.
    #[verifier::loop_isolation(false)]
    #[verifier::rlimit(100)]
    pub fn next<M: MusicalInfo>(&mut self, api: &M) -> (r: Option<Step>)
        requires
            old(self).ready(),
            api.inv(),
            old(self).linked(*api),
        ensures
            final(self).ready(),
            final(self).linked(*api),
            final(self).params() == old(self).params(),
            match r {
                Some(step) => {
                    &&& final(self).hist@.len() == old(self).hist@.len() + 1
                    &&& final(self).hist@ =~= old(self).hist@.push(final(self).hist@.last())
                    &&& final(self).hist@.last().step == step
                },
                None => {
                    &&& final(self).hist@ == old(self).hist@
                    &&& final(self).visible_ticks.num == 0 || final(self).visible_ticks.lt_q(
                        final(self).cursor(),
                    )
                },
            },
            ({
                let s = *old(self);
                let b2 = api.bar_at_spec(s.bar.tick_end as int);
                if s.visible_ticks.num == 0 {
                    r is None && *final(self) == s
                } else if s.index_in_bar > 0 {
                    if s.visible_ticks.lt_q(s.cursor()) {
                        r is None && *final(self) == s
                    } else if s.cursor().lt_int(s.bar.tick_end as int) {
                        r matches Some(step) && in_bar_emission(s, *final(self), step)
                    } else {
                        settles_at_head(s, b2, *final(self), r)
                    }
                } else {
                    settles_at_head(s, s.bar, *final(self), r) || (bar_yields_nothing(s, s.bar)
                        && settles_at_head(s, b2, *final(self), r))
                }
            }),
    {
        if self.visible_ticks.num == 0 {
            // A zero-width viewport shows nothing: the sequence is empty.
            return None;
        }
        loop
            invariant
                self.wf(),
                self.linked(*api),
                self.params() == old(self).params(),
                self.hist@ == old(self).hist@,
                self.visible_ticks.num >= 1,
                (*self == *old(self)) || mid_skip(*old(self), *self) || advanced(
                    *old(self),
                    *self,
                    *api,
                ),
            decreases
                BAR_QUERY_BOUND + BAR_TICK_BOUND - self.bar.tick_start,
                (if self.index_in_bar == 0 {
                    1int
                } else {
                    0int
                }),
                (if self.cursor_num < 0 {
                    0 - self.cursor_num
                } else {
                    0int
                }),
        {
            let ghost pre = *self;
            if self.index_in_bar == 0 {
                let (sn, sd) = derive_step(self.ticks_per_beat, &self.min_step_ticks, &self.bar);
                self.step_num = sn;
                self.den = sd;
                proof {
                    crate::rat::lemma_mul_abs_bounds(
                        self.bar.tick_start as int,
                        sd as int,
                        BAR_TICK_BOUND as int,
                        SUBDIV_BOUND as int,
                    );
                }
                self.cursor_num = self.bar.tick_start * sd;
            }
            let cur = Rat { num: self.cursor_num, den: self.den };
            if self.visible_ticks.lt(&cur) {
                proof {
                    // The cursor exceeds the nonnegative visible range, so it
                    // is itself positive.
                    assert(self.cursor_num >= 1) by (nonlinear_arith)
                        requires
                            self.visible_ticks.num * self.den < self.cursor_num
                                * self.visible_ticks.den,
                            self.visible_ticks.num >= 0,
                            self.den >= 1,
                            self.visible_ticks.den >= 1,
                    ;
                    if self.index_in_bar == 0 {
                        // Exhausted at a bar head: the bar itself starts past
                        // the visible range.
                        assert(self.visible_ticks.lt_int(self.bar.tick_start as int))
                            by (nonlinear_arith)
                            requires
                                self.cursor_num == self.bar.tick_start * self.den,
                                self.visible_ticks.num * self.den < self.cursor_num
                                    * self.visible_ticks.den,
                                self.den >= 1,
                                self.visible_ticks.den >= 1,
                        ;
                    }
                }
                return None;
            }
            // The cursor is within the visible range here.
            let bar_end_rat = Rat { num: self.bar.tick_end, den: 1 };
            if !cur.lt(&bar_end_rat) {
                // The cursor reached the bar's end: advance to the next bar.
                let e = self.bar.tick_end;
                proof {
                    assert(e * self.den <= self.cursor_num) by {
                        assert(!cur.lt_q(bar_end_rat));
                        assert(!(cur.num * bar_end_rat.den < bar_end_rat.num * cur.den));
                        assert(cur.num * 1 == cur.num) by (nonlinear_arith);
                    }
                    assert(self.cursor_num * self.visible_ticks.den <= self.visible_ticks.num
                        * self.den);
                    // e <= visible as a value, so it is a valid query tick.
                    lemma_end_within_query_bound(
                        e as int,
                        self.den as int,
                        self.cursor_num as int,
                        self.visible_ticks.num as int,
                        self.visible_ticks.den as int,
                    );
                    api.bar_at_spec_properties(self.bar_query@);
                    api.bar_at_spec_properties(e as int);
                }
                proof {
                    // The cursor of a freshly derived bar sits at its start,
                    // strictly before its end: the advance can only follow
                    // at least one step of the current bar.
                    if pre.index_in_bar == 0 {
                        assert(false) by (nonlinear_arith)
                            requires
                                self.cursor_num == self.bar.tick_start * self.den,
                                self.cursor_num >= self.bar.tick_end * self.den,
                                self.bar.tick_start < self.bar.tick_end,
                                self.den >= 1,
                        ;
                    }
                    if self.hist@.len() > 0 {
                        assert(rec_wf(self.hist@.last(), self.params()));
                    }
                }
                proof {
                    // Record why the finished bar contributes nothing more:
                    // either the call started mid-bar and its cursor reached
                    // the end, or the bar's whole grid lies past its end.
                    let o = *old(self);
                    if o.index_in_bar == 0 {
                        // The derive-fresh case cannot reach the advance, so
                        // the call is still skipping the starting bar, whose
                        // whole grid turned out to lie at or past its end.
                        assert(mid_skip(o, pre));
                        assert(self.cursor_num >= 1) by (nonlinear_arith)
                            requires
                                self.bar.tick_end * self.den <= self.cursor_num,
                                self.bar.tick_end >= 1,
                                self.den >= 1,
                        ;
                        assert(skipped_bar_witness(
                            o,
                            self.bar,
                            self.step_num as int,
                            self.den as int,
                            self.index_in_bar as int,
                        ));
                        assert(bar_yields_nothing(o, o.bar));
                    } else {
                        assert(pre == o);
                    }
                }
                let new_bar = api.bar_at_ticks(e);
                self.bar = new_bar;
                self.bar_query = Ghost(e as int);
                self.index_in_bar = 0;
                continue;
            }
            // Emit the step at the cursor, or skip it if it lies before the
            // origin; either way the cursor advances by one step interval.
            let t_num = self.cursor_num;
            let idx = self.index_in_bar;
            proof {
                lemma_cursor_step_bounds(
                    t_num as int,
                    self.step_num as int,
                    self.den as int,
                    self.bar.tick_start as int,
                    idx as int,
                    self.visible_ticks.num as int,
                    self.visible_ticks.den as int,
                );
            }
            proof {
                crate::rat::lemma_mul_abs_bounds(
                    self.bar.tick_start as int,
                    self.den as int,
                    BAR_TICK_BOUND as int,
                    SUBDIV_BOUND as int,
                );
                assert(idx < 0x7fff_ffff_ffff_ffff) by (nonlinear_arith)
                    requires
                        idx >= 0,
                        self.step_num >= 1,
                        t_num == self.bar.tick_start * self.den + idx * self.step_num,
                        t_num <= 0x4000_0000_0000_0000,
                        self.bar.tick_start * self.den >= -0x400_0000_0000_0000,
                ;
            }
            self.index_in_bar = idx + 1;
            self.cursor_num = t_num + self.step_num;
            proof {
                assert(self.cursor_num == self.bar.tick_start * self.den + self.index_in_bar
                    * self.step_num) by (nonlinear_arith)
                    requires
                        t_num == self.bar.tick_start * self.den + idx * self.step_num,
                        self.cursor_num == t_num + self.step_num,
                        self.index_in_bar == idx + 1,
                ;
            }
            if t_num < 0 {
                proof {
                    // A position before the origin can only be skipped in the
                    // bar the pass started in: a bar entered later starts at
                    // the previous bar's end, which is positive.
                    if advanced(*old(self), pre, *api) {
                        assert(false) by (nonlinear_arith)
                            requires
                                t_num == pre.bar.tick_start * self.den,
                                pre.bar.tick_start >= 1,
                                self.den >= 1,
                                t_num < 0,
                        ;
                    }
                    // Nor can it be skipped once anything has been emitted:
                    // an emitted step is nonnegative, and every later
                    // position lies above it.
                    if self.hist@.len() > 0 {
                        let l = self.hist@.last();
                        assert(rec_wf(l, self.params()));
                        if pre.index_in_bar == 0 {
                            assert(false) by (nonlinear_arith)
                                requires
                                    0 <= l.step.ticks.num,
                                    l.step.ticks.num < l.bar_end * l.step.ticks.den,
                                    l.bar_end == self.bar.tick_start,
                                    l.step.ticks.den >= 1,
                                    t_num == self.bar.tick_start * self.den,
                                    self.den >= 1,
                                    t_num < 0,
                            ;
                        } else {
                            assert(false) by (nonlinear_arith)
                                requires
                                    l.step.ticks.num == l.bar_start * l.den + l.step.index_in_bar
                                        * l.step_num,
                                    l.bar_start == self.bar.tick_start,
                                    l.den == self.den,
                                    l.step_num == self.step_num,
                                    t_num == self.bar.tick_start * self.den + idx * self.step_num,
                                    idx == l.step.index_in_bar + 1,
                                    l.step.ticks.num >= 0,
                                    self.step_num >= 1,
                                    t_num < 0,
                            ;
                        }
                    }
                }
                continue;
            }
            // Emit.
            let ticks = Rat { num: t_num, den: self.den };
            proof {
                crate::rat::lemma_mul_abs_bounds(
                    ticks.num as int,
                    self.ticks_per_point.den as int,
                    0x8_0000_0000_0000 as int,
                    ZOOM_BOUND as int,
                );
                crate::rat::lemma_mul_abs_bounds(
                    ticks.den as int,
                    self.ticks_per_point.num as int,
                    SUBDIV_BOUND as int,
                    ZOOM_BOUND as int,
                );
                crate::rat::lemma_pos_mul_pos(ticks.den as int, self.ticks_per_point.num as int);
            }
            let x = ticks.div(&self.ticks_per_point);
            let step = Step { index_in_bar: idx, ticks, x };
            let ghost rec = EmitRec {
                step,
                bar_start: self.bar.tick_start as int,
                bar_end: self.bar.tick_end as int,
                sig: self.bar.time_sig,
                step_num: self.step_num as int,
                den: self.den as int,
            };
            proof {
                let p = self.params();
                assert(ticks.num == self.bar.tick_start * self.den + idx * self.step_num);
                assert(rec_wf(rec, p)) by {
                    assert(rec.den >= 1 && rec.step_num >= 1);
                    assert(-BAR_TICK_BOUND <= rec.bar_start < rec.bar_end <= BAR_TICK_BOUND);
                    assert(step_ok(
                        p.tpb,
                        p.ms,
                        rec.sig,
                        rec.bar_end - rec.bar_start,
                        rec.step_num,
                        rec.den,
                    ));
                    assert(rec.step.ticks.num == rec.bar_start * rec.den + rec.step.index_in_bar
                        * rec.step_num);
                    assert(rec.step.ticks.num >= 0);
                    assert(rec.step.ticks.le_q(p.visible)) by {
                        assert(!self.visible_ticks.lt_q(cur));
                    }
                    assert(rec.step.ticks.lt_int(rec.bar_end)) by {
                        assert(cur.lt_q(bar_end_rat));
                        assert(bar_end_rat.num * cur.den == rec.bar_end * rec.den);
                        assert(cur.num * bar_end_rat.den == cur.num) by (nonlinear_arith)
                            requires
                                bar_end_rat.den == 1,
                        ;
                    }
                    assert(rec.step.x.num == rec.step.ticks.num * p.tpp.den);
                    assert(rec.step.x.den == rec.den * p.tpp.num);
                }
                if self.hist@.len() > 0 {
                    let l = self.hist@.last();
                    assert(rec_wf(l, p));
                    if pre.index_in_bar == 0 {
                        // The previous step closed the bar that ends exactly
                        // where this one starts.
                        assert(l.bar_end == rec.bar_start);
                        assert(rec.step.index_in_bar == 0);
                        assert(l.step.ticks.num * rec.den < rec.step.ticks.num * l.step.ticks.den)
                            by (nonlinear_arith)
                            requires
                                l.step.ticks.num < l.bar_end * l.step.ticks.den,
                                l.bar_end <= rec.bar_start,
                                rec.step.ticks.num == rec.bar_start * rec.den + rec.step.index_in_bar
                                    * rec.step_num,
                                rec.step.index_in_bar == 0,
                                l.step.ticks.den >= 1,
                                rec.den >= 1,
                        ;
                        assert(pair_wf(l, rec, p));
                    } else {
                        // The previous step lies in the same bar, one
                        // subdivision interval back.
                        assert(l.step.ticks.lt_q(pre.cursor()));
                        assert(pre.cursor().num == t_num && pre.cursor().den == rec.den);
                        assert(l.bar_start == rec.bar_start);
                        if fallback_bar(p.tpb, p.ms, rec.sig) {
                            // A fallback bar emits only its start: a second
                            // in-bar step would lie past the end.
                            assert(rec.den == 1 && rec.step_num == rec.bar_end - rec.bar_start);
                            assert(idx >= 1);
                            assert(false) by (nonlinear_arith)
                                requires
                                    rec.step.ticks.num == rec.bar_start * rec.den
                                        + rec.step.index_in_bar * rec.step_num,
                                    rec.step.ticks.num < rec.bar_end * rec.step.ticks.den,
                                    rec.step.ticks.den == rec.den,
                                    rec.den == 1,
                                    rec.step_num == rec.bar_end - rec.bar_start,
                                    rec.step.index_in_bar >= 1,
                                    rec.step_num >= 1,
                            ;
                        }
                        assert(pair_wf(l, rec, p));
                    }
                }
                // The new cursor lies strictly past the emitted step.
                assert(rec.step.ticks.num * self.den < self.cursor_num * rec.den)
                    by (nonlinear_arith)
                    requires
                        self.cursor_num == t_num + self.step_num,
                        rec.step.ticks.num == t_num,
                        rec.den == self.den,
                        self.den >= 1,
                        self.step_num >= 1,
                ;
                let h2 = self.hist@.push(rec);
                assert forall|i: int| 0 <= i < h2.len() implies #[trigger] rec_wf(h2[i], p) by {
                    if i < self.hist@.len() {
                        assert(h2[i] == self.hist@[i]);
                        assert(rec_wf(self.hist@[i], p));
                    } else {
                        assert(h2[i] == rec);
                    }
                }
                assert forall|i: int| 0 <= i && i + 1 < h2.len() implies #[trigger] pair_wf(
                    h2[i],
                    h2[i + 1],
                    p,
                ) by {
                    if i + 1 < self.hist@.len() {
                        assert(h2[i] == self.hist@[i] && h2[i + 1] == self.hist@[i + 1]);
                        assert(pair_wf(self.hist@[i], self.hist@[i + 1], p));
                    } else {
                        assert(h2[i] == self.hist@.last() && h2[i + 1] == rec);
                    }
                }
            }
            self.hist = Ghost(self.hist@.push(rec));
            return Some(step);
        }
    }
}

} // verus!

verus! {

/// Law: the emitted ticks are strictly increasing — the grid never emits two
/// lines at the same position or out of order.
pub proof fn lemma_steps_monotonic(g: Steps, i: int, j: int)
    requires
        g.wf(),
        0 <= i < j < g.hist@.len(),
    ensures
        g.hist@[i].step.ticks.lt_q(g.hist@[j].step.ticks),
    decreases j - i,
{
    assert(rec_wf(g.hist@[i], g.params()));
    assert(rec_wf(g.hist@[j], g.params()));
    if i + 1 == j {
        assert(pair_wf(g.hist@[i], g.hist@[j], g.params()));
    } else {
        assert(pair_wf(g.hist@[i], g.hist@[i + 1], g.params()));
        assert(rec_wf(g.hist@[i + 1], g.params()));
        lemma_steps_monotonic(g, i + 1, j);
        lemma_lt_trans(g.hist@[i].step.ticks, g.hist@[i + 1].step.ticks, g.hist@[j].step.ticks);
    }
}

/// Law: `index_in_bar` is zero exactly at bar-boundary steps — a step has
/// index zero if and only if its tick is the start of its bar.
pub proof fn lemma_index_marks_bar_start(g: Steps, i: int)
    requires
        g.wf(),
        0 <= i < g.hist@.len(),
    ensures
        g.hist@[i].step.index_in_bar == 0 <==> g.hist@[i].step.ticks.eq_int(g.hist@[i].bar_start),
{
    let r = g.hist@[i];
    assert(rec_wf(r, g.params()));
    if r.step.index_in_bar == 0 {
        assert(r.step.ticks.num == r.bar_start * r.den + 0 * r.step_num);
        assert(r.step.ticks.eq_int(r.bar_start));
    } else {
        assert(r.step.ticks.num != r.bar_start * r.step.ticks.den) by (nonlinear_arith)
            requires
                r.step.ticks.num == r.bar_start * r.den + r.step.index_in_bar * r.step_num,
                r.step.ticks.den == r.den,
                r.step.index_in_bar >= 1,
                r.step_num >= 1,
        ;
    }
}

/// Law: adjacent steps within the same bar keep the configured minimum gap —
/// their pixel positions differ by at least `gap`, exactly.
pub proof fn lemma_min_gap(g: Steps, i: int)
    requires
        g.wf(),
        0 <= i,
        i + 1 < g.hist@.len(),
        g.hist@[i + 1].bar_start == g.hist@[i].bar_start,
    ensures
        crate::rat::diff_at_least(g.hist@[i].step.x, g.hist@[i + 1].step.x, g.params().gap),
{
    let p = g.params();
    let a = g.hist@[i];
    let b = g.hist@[i + 1];
    assert(rec_wf(a, p));
    assert(rec_wf(b, p));
    assert(pair_wf(a, b, p));
    // The two steps share the bar's subdivision and are one interval apart.
    let d = a.den;
    let s = a.step_num;
    assert(b.step.ticks.num - a.step.ticks.num == s) by (nonlinear_arith)
        requires
            a.step.ticks.num == a.bar_start * d + a.step.index_in_bar * s,
            b.step.ticks.num == a.bar_start * d + (a.step.index_in_bar + 1) * s,
    ;
    // The chosen subdivision keeps the step at or above the minimum step.
    assert(s * p.ms.den >= p.ms.num * d);
    // Translate the tick gap into the pixel gap through the zoom factor.
    let pn = p.tpp.num;
    let pd = p.tpp.den;
    assert(b.step.x.num * a.step.x.den - a.step.x.num * b.step.x.den == s * pd * (d * pn))
        by (nonlinear_arith)
        requires
            a.step.x.num == a.step.ticks.num * pd,
            b.step.x.num == b.step.ticks.num * pd,
            a.step.x.den == d * pn,
            b.step.x.den == d * pn,
            b.step.ticks.num - a.step.ticks.num == s,
    ;
    assert((s * pd * (d * pn)) * p.gap.den >= p.gap.num * ((d * pn) * (d * pn)))
        by (nonlinear_arith)
        requires
            s * (pd * p.gap.den) >= (pn * p.gap.num) * d,
            p.ms.num == pn * p.gap.num,
            p.ms.den == pd * p.gap.den,
            s * p.ms.den >= p.ms.num * d,
            d >= 1,
            pn >= 1,
            pd >= 1,
            p.gap.den >= 1,
            p.gap.num >= 1,
            s >= 1,
    ;
    assert(crate::rat::diff_at_least(a.step.x, b.step.x, p.gap));
}

/// Law: a bar whose natural subdivision falls below the minimum step emits at
/// most one step, at the bar's start: any step of such a bar has index zero
/// and sits exactly at the bar start, and no adjacent emitted step shares its
/// bar.
pub proof fn lemma_fallback_single_step(g: Steps, i: int)
    requires
        g.wf(),
        0 <= i < g.hist@.len(),
        fallback_bar(g.params().tpb, g.params().ms, g.hist@[i].sig),
    ensures
        g.hist@[i].step.index_in_bar == 0,
        g.hist@[i].step.ticks.eq_int(g.hist@[i].bar_start),
        i + 1 < g.hist@.len() ==> g.hist@[i + 1].bar_start != g.hist@[i].bar_start,
        i >= 1 ==> g.hist@[i - 1].bar_start != g.hist@[i].bar_start,
{
    let p = g.params();
    let r = g.hist@[i];
    assert(rec_wf(r, p));
    assert(r.den == 1 && r.step_num == r.bar_end - r.bar_start);
    assert(r.step.index_in_bar == 0) by (nonlinear_arith)
        requires
            r.step.ticks.num == r.bar_start * r.den + r.step.index_in_bar * r.step_num,
            r.step.ticks.num < r.bar_end * r.step.ticks.den,
            r.step.ticks.den == r.den,
            r.den == 1,
            r.step_num == r.bar_end - r.bar_start,
            r.step.index_in_bar >= 0,
            r.step_num >= 1,
    ;
    lemma_index_marks_bar_start(g, i);
    if i + 1 < g.hist@.len() {
        assert(pair_wf(r, g.hist@[i + 1], p));
    }
    if i >= 1 {
        assert(pair_wf(g.hist@[i - 1], g.hist@[(i - 1) + 1], p));
        assert(g.hist@[(i - 1) + 1] == r);
        if g.hist@[i - 1].bar_start == r.bar_start {
            assert(g.hist@[i - 1].sig == r.sig);
        }
    }
}

} // verus!

verus! {

/// Map a pointer position within the ruler strip to a tick:
/// `((pointer_x - left) / width) * visible_ticks`, clamped to be at least
/// zero, exactly.
pub fn pointer_to_tick(pointer_x: &Rat, left: &Rat, width: &Rat, visible: &Rat) -> (t: Rat)
    requires
        crate::px_wf(*pointer_x),
        crate::px_wf(*left),
        crate::px_wf(*width),
        width.num >= 1,
        visible.wf(),
        0 <= visible.num <= ZOOM_BOUND * LEN_BOUND,
        visible.den <= ZOOM_BOUND * LEN_BOUND,
    ensures
        t.wf(),
        t.is_nonneg(),
        ({
            let rn = ((pointer_x.num * left.den - left.num * pointer_x.den) * visible.num)
                * width.den;
            let rd = ((pointer_x.den * left.den) * visible.den) * width.num;
            if rn >= 0 {
                t.num == rn && t.den == rd
            } else {
                t.num == 0 && t.den == 1
            }
        }),
{
    proof {
        crate::rat::lemma_mul_abs_bounds(
            pointer_x.num as int,
            left.den as int,
            crate::PX_NUM_BOUND as int,
            crate::PX_DEN_BOUND as int,
        );
        crate::rat::lemma_mul_abs_bounds(
            left.num as int,
            pointer_x.den as int,
            crate::PX_NUM_BOUND as int,
            crate::PX_DEN_BOUND as int,
        );
        crate::rat::lemma_mul_abs_bounds(
            pointer_x.den as int,
            left.den as int,
            crate::PX_DEN_BOUND as int,
            crate::PX_DEN_BOUND as int,
        );
        crate::rat::lemma_pos_mul_pos(pointer_x.den as int, left.den as int);
    }
    let d = pointer_x.sub(left);
    proof {
        crate::rat::lemma_mul_abs_bounds(
            d.num as int,
            visible.num as int,
            0x1000_0000 as int,
            (ZOOM_BOUND * LEN_BOUND) as int,
        );
        crate::rat::lemma_mul_abs_bounds(
            d.den as int,
            visible.den as int,
            0x10_0000 as int,
            (ZOOM_BOUND * LEN_BOUND) as int,
        );
        crate::rat::lemma_pos_mul_pos(d.den as int, visible.den as int);
    }
    let m = d.mul(visible);
    proof {
        crate::rat::lemma_mul_abs_bounds(
            m.num as int,
            width.den as int,
            0x10_0000_0000_0000 as int,
            crate::PX_DEN_BOUND as int,
        );
        crate::rat::lemma_mul_abs_bounds(
            m.den as int,
            width.num as int,
            0x1000_0000_0000 as int,
            crate::PX_NUM_BOUND as int,
        );
        crate::rat::lemma_pos_mul_pos(m.den as int, width.num as int);
    }
    let raw = m.div(width);
    raw.max_zero()
}

/// Interpret a click or drag on the ruler: when the interaction is active
/// and the pointer position is known, map the pointer to a tick and dispatch
/// exactly one `click_at_tick` callback with it; otherwise dispatch nothing.
///
/// Returns the dispatched tick, or `None` when nothing was dispatched.
pub fn ruler_click<I: MusicalInteract>(
    interact: &mut I,
    active: bool,
    pointer_x: Option<Rat>,
    left: &Rat,
    width: &Rat,
    visible: &Rat,
) -> (r: Option<Rat>)
    requires
        old(interact).inv(),
        crate::px_wf(*left),
        crate::px_wf(*width),
        width.num >= 1,
        visible.wf(),
        0 <= visible.num <= ZOOM_BOUND * LEN_BOUND,
        visible.den <= ZOOM_BOUND * LEN_BOUND,
        pointer_x matches Some(px) ==> crate::px_wf(px),
    ensures
        final(interact).inv(),
        match r {
            Some(t) => {
                &&& active
                &&& pointer_x is Some
                &&& final(interact).clicks() == old(interact).clicks().push(t)
                &&& t.wf()
                &&& t.is_nonneg()
                &&& ({
                    let px = pointer_x->Some_0;
                    let rn = ((px.num * left.den - left.num * px.den) * visible.num) * width.den;
                    let rd = ((px.den * left.den) * visible.den) * width.num;
                    if rn >= 0 {
                        t.num == rn && t.den == rd
                    } else {
                        t.num == 0 && t.den == 1
                    }
                })
            },
            None => {
                &&& !(active && pointer_x is Some)
                &&& final(interact).clicks() == old(interact).clicks()
            },
        },
{
    if active {
        match pointer_x {
            Some(px) => {
                let t = pointer_to_tick(&px, left, width, visible);
                interact.click_at_tick(t);
                Some(t)
            },
            None => None,
        }
    } else {
        None
    }
}

} // verus!

verus! {

/// How many times the bar changes between adjacent steps among the first
/// `j + 1` emitted steps.
pub open spec fn bar_changes_upto(h: Seq<EmitRec>, j: int) -> int
    decreases j,
{
    if j <= 0 {
        0
    } else {
        bar_changes_upto(h, j - 1) + if h[j].bar_start != h[j - 1].bar_start {
            1int
        } else {
            0int
        }
    }
}

/// `b - a >= k * ms` as rational numbers (by cross multiplication).
pub open spec fn ticks_ahead_by(a: Rat, b: Rat, ms: Rat, k: int) -> bool {
    (b.num * a.den - a.num * b.den) * ms.den >= k * ms.num * (a.den * b.den)
}

/// Accumulate one more step of the distance bound: if `c` is at least
/// `k` minimum steps past `f`, and `n` at least `j` minimum steps past `c`,
/// then `n` is at least `k + j` minimum steps past `f`.
#[verifier::rlimit(60)]
proof fn lemma_ahead_step(f: Rat, c: Rat, n: Rat, ms: Rat, k: int, j: int)
    requires
        f.den >= 1,
        c.den >= 1,
        n.den >= 1,
        ms.den >= 1,
        ms.num >= 0,
        (c.num * f.den - f.num * c.den) * ms.den >= k * ms.num * (f.den * c.den),
        (n.num * c.den - c.num * n.den) * ms.den >= j * ms.num * (c.den * n.den),
    ensures
        (n.num * f.den - f.num * n.den) * ms.den >= (k + j) * ms.num * (f.den * n.den),
{
    let fd = f.den as int;
    let cd = c.den as int;
    let nd = n.den as int;
    let msd = ms.den as int;
    let msn = ms.num as int;
    let a = c.num * fd - f.num * cd;
    let b = n.num * cd - c.num * nd;
    let x = n.num * fd - f.num * nd;
    // Put the two spans over the common denominator `cd`.
    assert(x * cd == a * nd + b * fd) by (nonlinear_arith)
        requires
            x == n.num * fd - f.num * nd,
            a == c.num * fd - f.num * cd,
            b == n.num * cd - c.num * nd,
    ;
    assert((a * msd) * nd >= (k * msn * (fd * cd)) * nd) by (nonlinear_arith)
        requires
            a * msd >= k * msn * (fd * cd),
            nd >= 1,
    ;
    assert((b * msd) * fd >= (j * msn * (cd * nd)) * fd) by (nonlinear_arith)
        requires
            b * msd >= j * msn * (cd * nd),
            fd >= 1,
    ;
    assert((x * msd) * cd == (a * msd) * nd + (b * msd) * fd) by (nonlinear_arith)
        requires
            x * cd == a * nd + b * fd,
    ;
    assert((k * msn * (fd * cd)) * nd == (k * (msn * (fd * nd))) * cd) by (nonlinear_arith);
    assert((j * msn * (cd * nd)) * fd == (j * (msn * (fd * nd))) * cd) by (nonlinear_arith);
    assert((k * (msn * (fd * nd))) * cd + (j * (msn * (fd * nd))) * cd == ((k + j) * msn * (fd
        * nd)) * cd) by (nonlinear_arith);
    assert((x * msd) * cd >= ((k + j) * msn * (fd * nd)) * cd);
    assert(x * msd >= (k + j) * msn * (fd * nd)) by (nonlinear_arith)
        requires
            (x * msd) * cd >= ((k + j) * msn * (fd * nd)) * cd,
            cd >= 1,
    ;
}

/// Adjacent steps in the same bar are at least one minimum step apart;
/// adjacent steps in different bars still move forward.
proof fn lemma_pair_ahead(g: Steps, i: int)
    requires
        g.wf(),
        0 <= i,
        i + 1 < g.hist@.len(),
    ensures
        ticks_ahead_by(
            g.hist@[i].step.ticks,
            g.hist@[i + 1].step.ticks,
            g.params().ms,
            if g.hist@[i + 1].bar_start == g.hist@[i].bar_start {
                1int
            } else {
                0int
            },
        ),
{
    let p = g.params();
    let a = g.hist@[i];
    let b = g.hist@[i + 1];
    assert(rec_wf(a, p));
    assert(rec_wf(b, p));
    assert(pair_wf(a, b, p));
    if b.bar_start == a.bar_start {
        assert(b.step.ticks.num - a.step.ticks.num == a.step_num) by (nonlinear_arith)
            requires
                a.step.ticks.num == a.bar_start * a.den + a.step.index_in_bar * a.step_num,
                b.step.ticks.num == a.bar_start * a.den + (a.step.index_in_bar + 1) * a.step_num,
        ;
        assert(a.step_num * p.ms.den >= p.ms.num * a.den);
        assert(ticks_ahead_by(a.step.ticks, b.step.ticks, p.ms, 1)) by (nonlinear_arith)
            requires
                b.step.ticks.num - a.step.ticks.num == a.step_num,
                a.step.ticks.den == a.den,
                b.step.ticks.den == a.den,
                a.step_num * p.ms.den >= p.ms.num * a.den,
                a.den >= 1,
                p.ms.den >= 1,
        ;
    } else {
        assert(a.step.ticks.lt_q(b.step.ticks));
        assert(ticks_ahead_by(a.step.ticks, b.step.ticks, p.ms, 0)) by (nonlinear_arith)
            requires
                a.step.ticks.num * b.step.ticks.den < b.step.ticks.num * a.step.ticks.den,
                p.ms.den >= 1,
        ;
    }
}

/// The first `j + 1` emitted steps span at least `j - bar_changes` minimum
/// steps.
proof fn lemma_span_accumulates(g: Steps, j: int)
    requires
        g.wf(),
        0 <= j < g.hist@.len(),
    ensures
        ticks_ahead_by(
            g.hist@[0].step.ticks,
            g.hist@[j].step.ticks,
            g.params().ms,
            j - bar_changes_upto(g.hist@, j),
        ),
    decreases j,
{
    let p = g.params();
    let h = g.hist@;
    if j == 0 {
        assert(rec_wf(h[0], p));
        assert(ticks_ahead_by(h[0].step.ticks, h[0].step.ticks, p.ms, 0)) by (nonlinear_arith)
            requires
                p.ms.num >= 0,
        ;
    } else {
        lemma_span_accumulates(g, j - 1);
        lemma_pair_ahead(g, j - 1);
        assert(rec_wf(h[0], p));
        assert(rec_wf(h[j - 1], p));
        assert(rec_wf(h[j], p));
        let k = (j - 1) - bar_changes_upto(h, j - 1);
        let step = if h[(j - 1) + 1].bar_start == h[j - 1].bar_start {
            1int
        } else {
            0int
        };
        assert(ticks_ahead_by(h[j - 1].step.ticks, h[(j - 1) + 1].step.ticks, p.ms, step));
        lemma_ahead_step(
            h[0].step.ticks,
            h[j - 1].step.ticks,
            h[j].step.ticks,
            p.ms,
            k,
            step,
        );
        assert(j - bar_changes_upto(h, j) == k + step);
    }
}

/// Law: the number of bar changes over the emitted history is bounded by the
/// span of the bar starts: each change moves to a strictly later bar, every
/// bar start lies at or above the supported lower tick bound, and the bar
/// start of an emitted step never exceeds the visible range.  Together with
/// [`lemma_step_count_bound`] this bounds the total number of emitted steps.
pub proof fn lemma_bar_changes_bound(g: Steps, j: int)
    requires
        g.wf(),
        0 <= j < g.hist@.len(),
    ensures
        bar_changes_upto(g.hist@, j) <= g.hist@[j].bar_start - g.hist@[0].bar_start,
        -BAR_TICK_BOUND <= g.hist@[0].bar_start,
        g.hist@[j].bar_start * g.params().visible.den <= g.params().visible.num,
    decreases j,
{
    let p = g.params();
    let h = g.hist@;
    assert(rec_wf(h[0], p));
    assert(rec_wf(h[j], p));
    if j > 0 {
        lemma_bar_changes_bound(g, j - 1);
        assert(pair_wf(h[j - 1], h[(j - 1) + 1], p));
        assert(rec_wf(h[j - 1], p));
    }
    // An emitted step sits at or past its bar start and within the visible
    // range, so the bar start itself is within the visible range.
    let r = h[j];
    assert(r.bar_start * r.den <= r.step.ticks.num) by (nonlinear_arith)
        requires
            r.step.ticks.num == r.bar_start * r.den + r.step.index_in_bar * r.step_num,
            r.step.index_in_bar >= 0,
            r.step_num >= 1,
    ;
    assert(r.bar_start * p.visible.den <= p.visible.num) by (nonlinear_arith)
        requires
            r.bar_start * r.den <= r.step.ticks.num,
            r.step.ticks.num * p.visible.den <= p.visible.num * r.step.ticks.den,
            r.step.ticks.den == r.den,
            r.den >= 1,
            p.visible.den >= 1,
            0 <= p.visible.num,
    ;
}

/// Law: the generator terminates after a bounded number of steps.  The count
/// of emitted steps, less one per bar touched, never exceeds the visible tick
/// range divided by the minimum step: over the whole emitted history,
/// `min_step_ticks * (count - 1 - bar_changes) <= visible_ticks`, exactly.
pub proof fn lemma_step_count_bound(g: Steps)
    requires
        g.wf(),
        g.hist@.len() >= 1,
    ensures
        g.params().ms.num * (g.hist@.len() - 1 - bar_changes_upto(
            g.hist@,
            g.hist@.len() - 1,
        )) * g.params().visible.den <= g.params().ms.den * g.params().visible.num,
{
    let p = g.params();
    let h = g.hist@;
    let last = h.len() - 1;
    lemma_span_accumulates(g, last);
    let k = last - bar_changes_upto(h, last);
    assert(rec_wf(h[0], p));
    assert(rec_wf(h[last], p));
    // The first step is at or after tick zero, the last at or before the
    // visible boundary; the span between them is at least `k` minimum steps.
    assert(p.ms.num * k * p.visible.den <= p.ms.den * p.visible.num) by (nonlinear_arith)
        requires
            (h[last].step.ticks.num * h[0].step.ticks.den - h[0].step.ticks.num
                * h[last].step.ticks.den) * p.ms.den >= k * p.ms.num * (h[0].step.ticks.den
                * h[last].step.ticks.den),
            h[0].step.ticks.num >= 0,
            h[last].step.ticks.num * p.visible.den <= p.visible.num * h[last].step.ticks.den,
            h[0].step.ticks.den >= 1,
            h[last].step.ticks.den >= 1,
            p.ms.den >= 1,
            p.ms.num >= 1,
            p.visible.den >= 1,
            0 <= p.visible.num,
    ;
}

} // verus!
