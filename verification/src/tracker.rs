//! Per-slot touch tracking and frame summaries.
//!
//! The tracker consumes the five events of the multitouch slot protocol and,
//! at each sync report, summarizes the touches that are down. Positions are
//! fixed-point normalized coordinates (see `units`), times are monotonic
//! milliseconds.

use crate::clock::elapsed;
use crate::clock::elapsed_ms;
use crate::clock::instant_now;
use crate::clock::millis_since;
use crate::units::abs;
use crate::units::abs_diff;
use crate::units::in_unit;
use crate::units::int_sqrt;
use crate::units::length;
use crate::units::lemma_isqrt_bounds;
use crate::units::norm_of;
use crate::units::normalize;
use crate::units::MIDDLE;
use crate::units::UNIT;
use std::time::Instant;
use vstd::prelude::*;

verus! {

/// The number of touch slots that the tracker follows.
pub const SLOT_COUNT: usize = 10;

/// The sum of two lengths, held at the largest value where it does not fit.
pub open spec fn sat_add(a: int, b: int) -> int {
    if a + b > i64::MAX {
        i64::MAX as int
    } else {
        a + b
    }
}

/// The state of one touch slot.
#[derive(Debug, Clone, Copy)]
pub struct SlotState {
    /// The identity of the touch; negative means that no finger is down.
    pub tracking_id: i32,
    pub x_norm: i64,
    pub y_norm: i64,
    pub t_first_ms: u64,
    pub t_last_ms: u64,
    /// The Manhattan distance travelled since touchdown: the sum of the
    /// distances between the positions sampled one after another.
    pub moved_norm: i64,
    /// The previous horizontal position, from which the next sample's
    /// movement is measured.
    pub last_x_norm: i64,
    /// The previous vertical position, from which the next sample's
    /// movement is measured.
    pub last_y_norm: i64,
    /// Whether a horizontal sample has arrived since touchdown.
    pub seen_x: bool,
    /// Whether a vertical sample has arrived since touchdown.
    pub seen_y: bool,
    pub active: bool,
}

impl SlotState {
    /// The slot before any event has reached it: no finger is down.
    pub open spec fn idle() -> SlotState {
        SlotState {
            tracking_id: -1i32,
            x_norm: 0,
            y_norm: 0,
            t_first_ms: 0,
            t_last_ms: 0,
            moved_norm: 0,
            last_x_norm: 0,
            last_y_norm: 0,
            seen_x: false,
            seen_y: false,
            active: false,
        }
    }

    /// Positions are normalized, the distance travelled is not negative, and
    /// the slot is active exactly if its tracking id is not negative.
    pub open spec fn wf(self) -> bool {
        &&& in_unit(self.x_norm as int)
        &&& in_unit(self.y_norm as int)
        &&& in_unit(self.last_x_norm as int)
        &&& in_unit(self.last_y_norm as int)
        &&& self.moved_norm >= 0
        &&& (self.active <==> self.tracking_id >= 0)
    }

    /// Whether the slot counts towards frame summaries.
    pub open spec fn is_live(self) -> bool {
        self.active && self.tracking_id >= 0
    }

    /// The slot after a finger came down on it with identity `id`.
    pub open spec fn touched(self, id: i32, now: u64) -> SlotState {
        SlotState {
            tracking_id: id,
            x_norm: self.x_norm,
            y_norm: self.y_norm,
            t_first_ms: now,
            t_last_ms: now,
            moved_norm: 0,
            last_x_norm: self.x_norm,
            last_y_norm: self.y_norm,
            seen_x: false,
            seen_y: false,
            active: true,
        }
    }

    /// The slot after its finger was lifted.
    pub open spec fn released(self, now: u64) -> SlotState {
        SlotState { tracking_id: -1i32, active: false, t_last_ms: now, ..self }
    }

    /// The slot after a horizontal sample at the normalized position `nx`.
    /// Once both axes have been sampled since touchdown, the sample adds
    /// its distance from the previous position to the distance travelled;
    /// until then it only sets the position from which movement starts.
    pub open spec fn at_x(self, nx: i64, now: u64) -> SlotState {
        if self.seen_x && self.seen_y {
            SlotState {
                moved_norm: sat_add(self.moved_norm as int, abs(nx - self.last_x_norm)) as i64,
                last_x_norm: nx,
                x_norm: nx,
                t_last_ms: now,
                ..self
            }
        } else {
            SlotState { last_x_norm: nx, seen_x: true, x_norm: nx, t_last_ms: now, ..self }
        }
    }

    /// The slot after a vertical sample at the normalized position `ny`.
    /// Once both axes have been sampled since touchdown, the sample adds
    /// its distance from the previous position to the distance travelled;
    /// until then it only sets the position from which movement starts.
    pub open spec fn at_y(self, ny: i64, now: u64) -> SlotState {
        if self.seen_x && self.seen_y {
            SlotState {
                moved_norm: sat_add(self.moved_norm as int, abs(ny - self.last_y_norm)) as i64,
                last_y_norm: ny,
                y_norm: ny,
                t_last_ms: now,
                ..self
            }
        } else {
            SlotState { last_y_norm: ny, seen_y: true, y_norm: ny, t_last_ms: now, ..self }
        }
    }

    /// What a frame summary reports of the slot at time `now`.
    pub open spec fn snapshot(self, now: u64) -> SlotSnapshot {
        SlotSnapshot {
            tracking_id: self.tracking_id,
            x_norm: self.x_norm,
            y_norm: self.y_norm,
            moved_norm: self.moved_norm,
            age_ms: elapsed(self.t_first_ms, now),
        }
    }
}

impl Default for SlotState {
    fn default() -> (s: SlotState)
        ensures
            s == SlotState::idle(),
    {
        SlotState {
            tracking_id: -1,
            x_norm: 0,
            y_norm: 0,
            t_first_ms: 0,
            t_last_ms: 0,
            moved_norm: 0,
            last_x_norm: 0,
            last_y_norm: 0,
            seen_x: false,
            seen_y: false,
            active: false,
        }
    }
}

/// One live slot as a frame summary reports it.
#[derive(Debug, Clone, Copy)]
pub struct SlotSnapshot {
    pub tracking_id: i32,
    pub x_norm: i64,
    pub y_norm: i64,
    pub moved_norm: i64,
    /// The milliseconds since touchdown, at the time of the summary.
    pub age_ms: u64,
}

/// The touches that are down at one sync report.
#[derive(Debug)]
pub struct FrameSummary {
    pub timestamp_ms: u64,
    pub active_count: usize,
    pub centroid: (i64, i64),
    pub span: i64,
    pub slots: Vec<SlotSnapshot>,
}

/// The mathematical content of a `FrameSummary`.
pub struct FrameView {
    pub timestamp_ms: u64,
    pub active_count: int,
    pub centroid: (i64, i64),
    pub span: i64,
    pub slots: Seq<SlotSnapshot>,
}

impl FrameView {
    /// The centroid is a normalized position and the span a distance
    /// between normalized positions.
    pub open spec fn in_range(self) -> bool {
        &&& in_unit(self.centroid.0 as int)
        &&& in_unit(self.centroid.1 as int)
        &&& 0 <= self.span <= 2 * UNIT
    }

    /// The count matches the snapshots, and centroid and span are in range.
    pub open spec fn wf(self) -> bool {
        &&& self.active_count == self.slots.len()
        &&& self.in_range()
    }
}

impl View for FrameSummary {
    type V = FrameView;

    open spec fn view(&self) -> FrameView {
        FrameView {
            timestamp_ms: self.timestamp_ms,
            active_count: self.active_count as int,
            centroid: self.centroid,
            span: self.span,
            slots: self.slots@,
        }
    }
}

impl FrameSummary {
    /// Whether the summary's view is well formed.
    pub open spec fn wf(&self) -> bool {
        self@.wf()
    }

    /// Tests whether centroid and span are in range.
    pub fn is_in_range(&self) -> (ok: bool)
        ensures
            ok == self@.in_range(),
    {
        0 <= self.centroid.0 && self.centroid.0 <= UNIT && 0 <= self.centroid.1 && self.centroid.1
            <= UNIT && 0 <= self.span && self.span <= 2 * UNIT
    }

    /// Tests well-formedness.
    pub fn is_well_formed(&self) -> (ok: bool)
        ensures
            ok == self.wf(),
    {
        self.active_count == self.slots.len() && self.is_in_range()
    }

    /// A copy of the summary.
    pub fn duplicate(&self) -> (copy: FrameSummary)
        ensures
            copy@ == self@,
    {
        let mut slots: Vec<SlotSnapshot> = Vec::new();
        let mut i: usize = 0;
        while i < self.slots.len()
            invariant
                i <= self.slots.len(),
                slots@ == self.slots@.take(i as int),
            decreases self.slots.len() - i,
        {
            slots.push(self.slots[i]);
            assert(self.slots@.take(i + 1) == self.slots@.take(i as int).push(self.slots@[i as int]));
            i += 1;
        }
        assert(self.slots@.take(self.slots.len() as int) == self.slots@);
        FrameSummary {
            timestamp_ms: self.timestamp_ms,
            active_count: self.active_count,
            centroid: self.centroid,
            span: self.span,
            slots,
        }
    }
}

impl Clone for FrameSummary {
    fn clone(&self) -> (copy: FrameSummary)
        ensures
            copy@ == self@,
    {
        self.duplicate()
    }
}

/// The live slots among the first `n` of `slots`, in slot order.
pub open spec fn live_prefix(slots: Seq<SlotState>, n: int) -> Seq<SlotState>
    decreases n,
{
    if n <= 0 {
        Seq::empty()
    } else if slots[n - 1].is_live() {
        live_prefix(slots, n - 1).push(slots[n - 1])
    } else {
        live_prefix(slots, n - 1)
    }
}

/// The live slots of `slots`, in slot order.
pub open spec fn live_slots(slots: Seq<SlotState>) -> Seq<SlotState> {
    live_prefix(slots, slots.len() as int)
}

/// The sum of the horizontal positions of `s`.
pub open spec fn sum_x(s: Seq<SlotState>) -> int
    decreases s.len(),
{
    if s.len() == 0 {
        0
    } else {
        sum_x(s.drop_last()) + s.last().x_norm
    }
}

/// The sum of the vertical positions of `s`.
pub open spec fn sum_y(s: Seq<SlotState>) -> int
    decreases s.len(),
{
    if s.len() == 0 {
        0
    } else {
        sum_y(s.drop_last()) + s.last().y_norm
    }
}

/// The sum of the distances of the positions of `s` from `(cx, cy)`.
pub open spec fn sum_dist(s: Seq<SlotState>, cx: int, cy: int) -> int
    decreases s.len(),
{
    if s.len() == 0 {
        0
    } else {
        sum_dist(s.drop_last(), cx, cy) + length(s.last().x_norm - cx, s.last().y_norm - cy)
    }
}

/// The mean position of `live`; the middle of the surface where `live` is
/// empty.
pub open spec fn centroid_of(live: Seq<SlotState>) -> (int, int) {
    if live.len() == 0 {
        (MIDDLE as int, MIDDLE as int)
    } else {
        (sum_x(live) / (live.len() as int), sum_y(live) / (live.len() as int))
    }
}

/// The mean distance of the positions of `live` from their centroid; zero
/// where `live` is empty.
pub open spec fn span_of(live: Seq<SlotState>) -> int {
    if live.len() == 0 {
        0
    } else {
        sum_dist(live, centroid_of(live).0, centroid_of(live).1) / (live.len() as int)
    }
}

/// The snapshots of `live` at time `now`, in the same order.
pub open spec fn snapshots_of(live: Seq<SlotState>, now: u64) -> Seq<SlotSnapshot> {
    Seq::new(live.len(), |k: int| live[k].snapshot(now))
}

/// The frame that a sync report at time `now` summarizes from `slots`.
pub open spec fn frame_of(slots: Seq<SlotState>, now: u64) -> FrameView {
    let live = live_slots(slots);
    FrameView {
        timestamp_ms: now,
        active_count: live.len() as int,
        centroid: (centroid_of(live).0 as i64, centroid_of(live).1 as i64),
        span: span_of(live) as i64,
        slots: snapshots_of(live, now),
    }
}

/// The live slots are at most as many as the slots looked at, and each is a
/// well-formed live slot.
pub proof fn lemma_live_prefix(slots: Seq<SlotState>, n: int)
    requires
        0 <= n <= slots.len(),
        forall|k: int| 0 <= k < slots.len() ==> (#[trigger] slots[k]).wf(),
    ensures
        live_prefix(slots, n).len() <= n,
        forall|k: int|
            0 <= k < live_prefix(slots, n).len() ==> {
                &&& (#[trigger] live_prefix(slots, n)[k]).wf()
                &&& live_prefix(slots, n)[k].is_live()
            },
    decreases n,
{
    if n > 0 {
        lemma_live_prefix(slots, n - 1);
    }
}

/// The sums of normalized positions lie between zero and one unit per slot.
pub proof fn lemma_sum_bounds(s: Seq<SlotState>)
    requires
        forall|k: int| 0 <= k < s.len() ==> (#[trigger] s[k]).wf(),
    ensures
        0 <= sum_x(s) <= s.len() * UNIT,
        0 <= sum_y(s) <= s.len() * UNIT,
    decreases s.len(),
{
    if s.len() > 0 {
        let t = s.drop_last();
        assert forall|k: int| 0 <= k < t.len() implies (#[trigger] t[k]).wf() by {
            assert(t[k] == s[k]);
        }
        lemma_sum_bounds(t);
        assert(s.last().wf());
        assert(s.len() * UNIT == t.len() * UNIT + UNIT) by (nonlinear_arith)
            requires
                s.len() == t.len() + 1,
        ;
    }
}

/// The distance between two normalized points is at most two units.
pub proof fn lemma_length_bound(dx: int, dy: int)
    requires
        -UNIT <= dx <= UNIT,
        -UNIT <= dy <= UNIT,
    ensures
        0 <= length(dx, dy) <= 2 * UNIT,
{
    let n = dx * dx + dy * dy;
    assert(0 <= dx * dx <= UNIT * UNIT) by (nonlinear_arith)
        requires
            -UNIT <= dx <= UNIT,
    ;
    assert(0 <= dy * dy <= UNIT * UNIT) by (nonlinear_arith)
        requires
            -UNIT <= dy <= UNIT,
    ;
    lemma_isqrt_bounds(n as nat);
    let r = length(dx, dy);
    if r > 2 * UNIT {
        assert(r * r > 2 * UNIT * UNIT) by (nonlinear_arith)
            requires
                r > 2 * UNIT,
        ;
    }
}

/// The sum of the distances from a normalized point is at most two units
/// per slot.
pub proof fn lemma_sum_dist_bounds(s: Seq<SlotState>, cx: int, cy: int)
    requires
        forall|k: int| 0 <= k < s.len() ==> (#[trigger] s[k]).wf(),
        in_unit(cx),
        in_unit(cy),
    ensures
        0 <= sum_dist(s, cx, cy) <= s.len() * (2 * UNIT),
    decreases s.len(),
{
    if s.len() > 0 {
        let t = s.drop_last();
        assert forall|k: int| 0 <= k < t.len() implies (#[trigger] t[k]).wf() by {
            assert(t[k] == s[k]);
        }
        lemma_sum_dist_bounds(t, cx, cy);
        assert(s.last().wf());
        lemma_length_bound(s.last().x_norm - cx, s.last().y_norm - cy);
        assert(s.len() * (2 * UNIT) == t.len() * (2 * UNIT) + 2 * UNIT) by (nonlinear_arith)
            requires
                s.len() == t.len() + 1,
        ;
    }
}

/// A mean of values between zero and `hi` lies between zero and `hi`.
pub proof fn lemma_mean_bounds(sum: int, n: int, hi: int)
    requires
        n > 0,
        0 <= sum <= n * hi,
    ensures
        0 <= sum / n <= hi,
{
    assert(0 <= sum / n <= hi) by (nonlinear_arith)
        requires
            n > 0,
            0 <= sum <= n * hi,
    ;
}

/// The frame summarized from well-formed slots is well formed and reports
/// only slots that hold a touch; with no live slot its centroid is the
/// middle of the surface and its span is zero.
pub proof fn lemma_frame_of(slots: Seq<SlotState>, now: u64)
    requires
        slots.len() <= SLOT_COUNT,
        forall|k: int| 0 <= k < slots.len() ==> (#[trigger] slots[k]).wf(),
    ensures
        frame_of(slots, now).wf(),
        forall|k: int|
            0 <= k < frame_of(slots, now).slots.len() ==> (#[trigger] frame_of(
                slots,
                now,
            ).slots[k]).tracking_id >= 0,
        frame_of(slots, now).active_count <= slots.len(),
        in_unit(centroid_of(live_slots(slots)).0),
        in_unit(centroid_of(live_slots(slots)).1),
        0 <= span_of(live_slots(slots)) <= 2 * UNIT,
        frame_of(slots, now).active_count == 0 ==> frame_of(slots, now).centroid == (MIDDLE, MIDDLE)
            && frame_of(slots, now).span == 0,
{
    let live = live_slots(slots);
    lemma_live_prefix(slots, slots.len() as int);
    lemma_sum_bounds(live);
    if live.len() > 0 {
        lemma_mean_bounds(sum_x(live), live.len() as int, UNIT as int);
        lemma_mean_bounds(sum_y(live), live.len() as int, UNIT as int);
        let c = centroid_of(live);
        lemma_sum_dist_bounds(live, c.0, c.1);
        lemma_mean_bounds(sum_dist(live, c.0, c.1), live.len() as int, 2 * UNIT);
    }
}

/// One event of the multitouch slot protocol.
#[derive(Debug, Clone, Copy)]
pub enum TouchEvent {
    /// Selects the slot that the following events address.
    Slot(i32),
    /// Starts a touch on the current slot, or ends it where the id is
    /// negative.
    TrackingId(i32),
    /// A raw horizontal position for the current slot.
    PosX(i32),
    /// A raw vertical position for the current slot.
    PosY(i32),
    /// The end of one batch of events.
    SynReport,
}

/// The mathematical content of a `Tracker`.
pub struct TrackerView {
    pub slots: Seq<SlotState>,
    pub cur_slot: int,
    pub x_min: int,
    pub x_max: int,
    pub y_min: int,
    pub y_max: int,
    /// The number of live slots at the last sync report.
    pub active_count: int,
    /// The centroid at the last sync report.
    pub centroid: (i64, i64),
    /// The span at the last sync report.
    pub span: i64,
    /// The latest time that the tracker's clock has given.
    pub clock_ms: u64,
}

impl TrackerView {
    /// Ten well-formed slots, a current slot among them, and axis ranges
    /// that are not empty.
    pub open spec fn wf(self) -> bool {
        &&& self.slots.len() == SLOT_COUNT
        &&& 0 <= self.cur_slot < SLOT_COUNT
        &&& i32::MIN <= self.x_min < self.x_max <= i32::MAX + 1
        &&& i32::MIN <= self.y_min < self.y_max <= i32::MAX + 1
        &&& forall|k: int| 0 <= k < self.slots.len() ==> (#[trigger] self.slots[k]).wf()
    }

    /// The tracker as it starts: ten idle slots and axes from 0 to 4096.
    pub open spec fn initial() -> TrackerView {
        TrackerView {
            slots: Seq::new(SLOT_COUNT as nat, |k: int| SlotState::idle()),
            cur_slot: 0,
            x_min: 0,
            x_max: 4096,
            y_min: 0,
            y_max: 4096,
            active_count: 0,
            centroid: (0, 0),
            span: 0,
            clock_ms: 0,
        }
    }

    /// The tracker once its clock has given the time `t`.
    pub open spec fn at_time(self, t: u64) -> TrackerView {
        TrackerView { clock_ms: t, ..self }
    }

    /// The tracker after one event that its clock stamps with the time `t`.
    pub open spec fn step_at_clock(self, ev: TouchEvent, t: u64) -> TrackerView {
        self.at_time(t).step(ev, t)
    }

    /// Whether the times of every slot are in order: no touch was last seen
    /// before it began, nor after the latest time that the clock has given.
    pub open spec fn stamps_ordered(self) -> bool {
        forall|k: int|
            0 <= k < self.slots.len() ==> (#[trigger] self.slots[k]).t_first_ms
                <= self.slots[k].t_last_ms <= self.clock_ms
    }

    /// The slot that events address.
    pub open spec fn cur(self) -> SlotState {
        self.slots[self.cur_slot]
    }

    /// The tracker with the current slot replaced by `s`.
    pub open spec fn with_cur(self, s: SlotState) -> TrackerView {
        TrackerView { slots: self.slots.update(self.cur_slot, s), ..self }
    }

    /// The tracker with new axis ranges; an empty range is widened to one
    /// raw unit.
    pub open spec fn with_ranges(self, x_min: int, x_max: int, y_min: int, y_max: int)
        -> TrackerView {
        TrackerView {
            x_min,
            x_max: if x_max > x_min {
                x_max
            } else {
                x_min + 1
            },
            y_min,
            y_max: if y_max > y_min {
                y_max
            } else {
                y_min + 1
            },
            ..self
        }
    }

    /// The tracker after one event at time `now`.
    pub open spec fn step(self, ev: TouchEvent, now: u64) -> TrackerView {
        match ev {
            TouchEvent::Slot(i) => TrackerView {
                cur_slot: crate::units::clamp(i as int, 0, SLOT_COUNT - 1),
                ..self
            },
            TouchEvent::TrackingId(id) => if id < 0 {
                self.with_cur(self.cur().released(now))
            } else {
                self.with_cur(self.cur().touched(id, now))
            },
            TouchEvent::PosX(raw) => self.with_cur(
                self.cur().at_x(norm_of(raw as int, self.x_min, self.x_max) as i64, now),
            ),
            TouchEvent::PosY(raw) => self.with_cur(
                self.cur().at_y(norm_of(raw as int, self.y_min, self.y_max) as i64, now),
            ),
            TouchEvent::SynReport => TrackerView {
                active_count: frame_of(self.slots, now).active_count,
                centroid: frame_of(self.slots, now).centroid,
                span: frame_of(self.slots, now).span,
                ..self
            },
        }
    }

    /// The tracker after the events of `trace`, each with its time, in order.
    pub open spec fn run(self, trace: Seq<(TouchEvent, u64)>) -> TrackerView
        decreases trace.len(),
    {
        if trace.len() == 0 {
            self
        } else {
            self.run(trace.drop_last()).step(trace.last().0, trace.last().1)
        }
    }

    /// Whether `ev` starts a new touch on slot `i`.
    pub open spec fn is_touchdown(self, ev: TouchEvent, i: int) -> bool {
        match ev {
            TouchEvent::TrackingId(id) => id >= 0 && self.cur_slot == i,
            _ => false,
        }
    }

    /// Whether some event of `trace`, applied in order from `self`, starts a
    /// new touch on slot `i`.
    pub open spec fn has_touchdown(self, trace: Seq<(TouchEvent, u64)>, i: int) -> bool
        decreases trace.len(),
    {
        if trace.len() == 0 {
            false
        } else {
            self.has_touchdown(trace.drop_last(), i) || self.run(trace.drop_last()).is_touchdown(
                trace.last().0,
                i,
            )
        }
    }
}

/// A normalized position is a normalized coordinate.
pub proof fn lemma_norm_in_unit(raw: int, min: int, max: int)
    ensures
        in_unit(norm_of(raw, min, max)),
{
}

/// Every event keeps the tracker well formed.
pub proof fn lemma_step_wf(m: TrackerView, ev: TouchEvent, now: u64)
    requires
        m.wf(),
    ensures
        m.step(ev, now).wf(),
{
    let n = m.step(ev, now);
    match ev {
        TouchEvent::PosX(raw) => {
            lemma_norm_in_unit(raw as int, m.x_min, m.x_max);
        },
        TouchEvent::PosY(raw) => {
            lemma_norm_in_unit(raw as int, m.y_min, m.y_max);
        },
        _ => {},
    }
    assert forall|k: int| 0 <= k < n.slots.len() implies (#[trigger] n.slots[k]).wf() by {
        assert(m.slots[k].wf());
        assert(m.cur().wf());
    }
}

/// Every trace of events keeps the tracker well formed.
pub proof fn lemma_run_wf(m: TrackerView, trace: Seq<(TouchEvent, u64)>)
    requires
        m.wf(),
    ensures
        m.run(trace).wf(),
    decreases trace.len(),
{
    if trace.len() > 0 {
        lemma_run_wf(m, trace.drop_last());
        lemma_step_wf(m.run(trace.drop_last()), trace.last().0, trace.last().1);
    }
}

/// One event never lowers the distance that a slot has travelled, except a
/// touchdown on that slot, which sets it to zero.
pub proof fn lemma_step_moved(m: TrackerView, ev: TouchEvent, now: u64, i: int)
    requires
        m.wf(),
        0 <= i < SLOT_COUNT,
    ensures
        m.is_touchdown(ev, i) ==> m.step(ev, now).slots[i].moved_norm == 0,
        !m.is_touchdown(ev, i) ==> m.step(ev, now).slots[i].moved_norm >= m.slots[i].moved_norm,
{
    assert(m.slots[i].wf());
    assert(m.cur().wf());
}

/// Over any trace of events without a touchdown on slot `i`, the distance
/// that slot `i` has travelled never decreases.
pub proof fn lemma_moved_monotonic(m: TrackerView, trace: Seq<(TouchEvent, u64)>, i: int)
    requires
        m.wf(),
        0 <= i < SLOT_COUNT,
        !m.has_touchdown(trace, i),
    ensures
        m.run(trace).slots[i].moved_norm >= m.slots[i].moved_norm,
    decreases trace.len(),
{
    if trace.len() > 0 {
        let before = m.run(trace.drop_last());
        lemma_moved_monotonic(m, trace.drop_last(), i);
        lemma_run_wf(m, trace.drop_last());
        lemma_step_moved(before, trace.last().0, trace.last().1, i);
    }
}

/// An event that the clock stamps leaves the clock at the time of the
/// event, and keeps the slots' times in order where the clock has not run
/// back.
pub proof fn lemma_clock_step(m: TrackerView, ev: TouchEvent, t: u64)
    requires
        m.wf(),
        t >= m.clock_ms,
    ensures
        m.step_at_clock(ev, t).clock_ms == t,
        m.step_at_clock(ev, t).wf(),
        m.stamps_ordered() ==> m.step_at_clock(ev, t).stamps_ordered(),
{
    lemma_step_wf(m.at_time(t), ev, t);
    let n = m.step_at_clock(ev, t);
    if m.stamps_ordered() {
        assert forall|k: int| 0 <= k < n.slots.len() implies (#[trigger] n.slots[k]).t_first_ms
            <= n.slots[k].t_last_ms <= n.clock_ms by {
            assert(m.slots[k].t_first_ms <= m.slots[k].t_last_ms <= m.clock_ms);
            assert(m.cur().t_first_ms <= m.cur().t_last_ms <= m.clock_ms);
        }
    }
}

/// With the slots' times in order, the age that a frame at the clock's
/// time reports of a slot is the time from the slot's touchdown to the
/// frame.
pub proof fn lemma_clocked_age(m: TrackerView, k: int)
    requires
        m.stamps_ordered(),
        0 <= k < m.slots.len(),
    ensures
        m.slots[k].snapshot(m.clock_ms).age_ms == m.clock_ms - m.slots[k].t_first_ms,
{
}

/// The distance travelled is the length of the path: two counted samples
/// on one axis add the distance from the previous position to the first,
/// and from the first to the second.
pub proof fn lemma_moved_is_path(s: SlotState, a: i64, b: i64, t1: u64, t2: u64)
    requires
        s.wf(),
        s.seen_x && s.seen_y,
        in_unit(a as int),
        in_unit(b as int),
        s.moved_norm + 2 * UNIT <= i64::MAX,
    ensures
        s.at_x(a, t1).at_x(b, t2).moved_norm == s.moved_norm + abs(a - s.last_x_norm) + abs(b - a),
        s.at_y(a, t1).at_y(b, t2).moved_norm == s.moved_norm + abs(a - s.last_y_norm) + abs(b - a),
{
}

/// Follows up to ten touches through the events of the slot protocol.
#[derive(Debug)]
pub struct Tracker {
    slots: Vec<SlotState>,
    cur_slot: i32,
    x_min: i64,
    x_max: i64,
    y_min: i64,
    y_max: i64,
    start_instant: Instant,
    last_ms: u64,
    /// The number of live slots at the last sync report.
    pub active_count: usize,
    /// The centroid at the last sync report.
    pub centroid: (i64, i64),
    /// The span at the last sync report.
    pub span: i64,
}

impl View for Tracker {
    type V = TrackerView;

    closed spec fn view(&self) -> TrackerView {
        TrackerView {
            slots: self.slots@,
            cur_slot: self.cur_slot as int,
            x_min: self.x_min as int,
            x_max: self.x_max as int,
            y_min: self.y_min as int,
            y_max: self.y_max as int,
            active_count: self.active_count as int,
            centroid: self.centroid,
            span: self.span,
            clock_ms: self.last_ms,
        }
    }
}

impl Default for Tracker {
    fn default() -> (t: Tracker)
        ensures
            t.wf(),
            t@ == TrackerView::initial(),
    {
        Tracker::new()
    }
}

impl Tracker {
    /// Whether the tracker's view is well formed.
    pub open spec fn wf(&self) -> bool {
        self@.wf()
    }

    /// A tracker with ten idle slots and axes from 0 to 4096, whose clock
    /// starts now.
    pub fn new() -> (t: Tracker)
        ensures
            t.wf(),
            t@ == TrackerView::initial(),
            t@.stamps_ordered(),
    {
        let mut slots: Vec<SlotState> = Vec::new();
        let mut i: usize = 0;
        while i < SLOT_COUNT
            invariant
                i <= SLOT_COUNT,
                slots.len() == i,
                forall|k: int| 0 <= k < i ==> slots[k] == SlotState::idle(),
            decreases SLOT_COUNT - i,
        {
            slots.push(SlotState::default());
            i += 1;
        }
        let t = Tracker {
            slots,
            cur_slot: 0,
            x_min: 0,
            x_max: 4096,
            y_min: 0,
            y_max: 4096,
            start_instant: instant_now(),
            last_ms: 0,
            active_count: 0,
            centroid: (0, 0),
            span: 0,
        };
        assert(t@.slots =~= TrackerView::initial().slots);
        t
    }

    /// The state of slot `i`.
    pub fn slot(&self, i: usize) -> (s: SlotState)
        requires
            self.wf(),
            i < SLOT_COUNT,
        ensures
            s == self@.slots[i as int],
    {
        self.slots[i]
    }

    /// The index of the slot that events address.
    pub fn current_slot(&self) -> (i: i32)
        ensures
            i == self@.cur_slot,
    {
        self.cur_slot
    }

    /// The number of live slots at the last sync report.
    pub fn active_count(&self) -> (n: usize)
        ensures
            n == self@.active_count,
    {
        self.active_count
    }

    /// The centroid at the last sync report.
    pub fn centroid(&self) -> (c: (i64, i64))
        ensures
            c == self@.centroid,
    {
        self.centroid
    }

    /// The span at the last sync report.
    pub fn span(&self) -> (s: i64)
        ensures
            s == self@.span,
    {
        self.span
    }

    /// Reads the clock: the milliseconds since the tracker was made. The
    /// clock never runs back: where a reading lies before the latest time
    /// given, that time is given again. The tracker keeps the time given,
    /// and nothing else of it changes.
    pub fn now_ms(&mut self) -> (t: u64)
        ensures
            t >= old(self)@.clock_ms,
            final(self)@ == old(self)@.at_time(t),
    {
        let read = millis_since(&self.start_instant);
        if read > self.last_ms {
            self.last_ms = read;
        }
        self.last_ms
    }

    /// Sets the raw ranges of the two axes. A range that is empty is widened
    /// to one raw unit above its lower end.
    pub fn set_norm_ranges(&mut self, x_min: i32, x_max: i32, y_min: i32, y_max: i32)
        requires
            old(self).wf(),
        ensures
            final(self).wf(),
            final(self)@ == old(self)@.with_ranges(
                x_min as int,
                x_max as int,
                y_min as int,
                y_max as int,
            ),
    {
        self.x_min = x_min as i64;
        self.x_max = if x_max > x_min {
            x_max as i64
        } else {
            x_min as i64 + 1
        };
        self.y_min = y_min as i64;
        self.y_max = if y_max > y_min {
            y_max as i64
        } else {
            y_min as i64 + 1
        };
    }

    /// Selects the slot that the following events address: `slot`, limited
    /// to the slots that exist.
    pub fn on_slot(&mut self, slot: i32)
        requires
            old(self).wf(),
        ensures
            final(self).wf(),
            final(self)@ == old(self)@.step(TouchEvent::Slot(slot), 0),
    {
        self.cur_slot = if slot < 0 {
            0
        } else if slot > 9 {
            9
        } else {
            slot
        };
    }

    /// Starts a touch on the current slot at time `now`, or ends it where
    /// `tracking_id` is negative.
    pub fn on_tracking_id_at(&mut self, tracking_id: i32, now: u64)
        requires
            old(self).wf(),
        ensures
            final(self).wf(),
            final(self)@ == old(self)@.step(TouchEvent::TrackingId(tracking_id), now),
    {
        let idx = self.cur_slot as usize;
        let s = self.slots[idx];
        let next = if tracking_id < 0 {
            SlotState { tracking_id: -1, active: false, t_last_ms: now, ..s }
        } else {
            SlotState {
                tracking_id,
                x_norm: s.x_norm,
                y_norm: s.y_norm,
                t_first_ms: now,
                t_last_ms: now,
                moved_norm: 0,
                last_x_norm: s.x_norm,
                last_y_norm: s.y_norm,
                seen_x: false,
                seen_y: false,
                active: true,
            }
        };
        proof {
            lemma_step_wf(self@, TouchEvent::TrackingId(tracking_id), now);
        }
        self.slots.set(idx, next);
    }

    /// Takes a raw horizontal position for the current slot at time `now`.
    /// Once both axes have been sampled since touchdown, the sample adds its
    /// distance from the previous position to the distance travelled; until
    /// then it only sets the position from which movement starts.
    pub fn on_pos_x_at(&mut self, raw: i32, now: u64)
        requires
            old(self).wf(),
        ensures
            final(self).wf(),
            final(self)@ == old(self)@.step(TouchEvent::PosX(raw), now),
    {
        let nx = normalize(raw, self.x_min, self.x_max);
        let idx = self.cur_slot as usize;
        let s = self.slots[idx];
        let next = if s.seen_x && s.seen_y {
            let d = abs_diff(nx, s.last_x_norm);
            SlotState {
                moved_norm: add_saturating(s.moved_norm, d as i64),
                last_x_norm: nx,
                x_norm: nx,
                t_last_ms: now,
                ..s
            }
        } else {
            SlotState { last_x_norm: nx, seen_x: true, x_norm: nx, t_last_ms: now, ..s }
        };
        proof {
            lemma_step_wf(self@, TouchEvent::PosX(raw), now);
        }
        self.slots.set(idx, next);
    }

    /// Takes a raw vertical position for the current slot at time `now`.
    /// Once both axes have been sampled since touchdown, the sample adds its
    /// distance from the previous position to the distance travelled; until
    /// then it only sets the position from which movement starts.
    pub fn on_pos_y_at(&mut self, raw: i32, now: u64)
        requires
            old(self).wf(),
        ensures
            final(self).wf(),
            final(self)@ == old(self)@.step(TouchEvent::PosY(raw), now),
    {
        let ny = normalize(raw, self.y_min, self.y_max);
        let idx = self.cur_slot as usize;
        let s = self.slots[idx];
        let next = if s.seen_x && s.seen_y {
            let d = abs_diff(ny, s.last_y_norm);
            SlotState {
                moved_norm: add_saturating(s.moved_norm, d as i64),
                last_y_norm: ny,
                y_norm: ny,
                t_last_ms: now,
                ..s
            }
        } else {
            SlotState { last_y_norm: ny, seen_y: true, y_norm: ny, t_last_ms: now, ..s }
        };
        proof {
            lemma_step_wf(self@, TouchEvent::PosY(raw), now);
        }
        self.slots.set(idx, next);
    }

    /// Summarizes the live slots at time `now`: their count, centroid and
    /// span, and a snapshot of each in slot order. The tracker keeps the
    /// count, the centroid and the span.
    pub fn on_syn_report_at(&mut self, now: u64) -> (frame: FrameSummary)
        requires
            old(self).wf(),
        ensures
            final(self).wf(),
            final(self)@ == old(self)@.step(TouchEvent::SynReport, now),
            frame@ == frame_of(old(self)@.slots, now),
            frame.wf(),
            frame.active_count <= SLOT_COUNT,
            frame.active_count == 0 ==> frame.centroid == (MIDDLE, MIDDLE) && frame.span == 0,
            final(self)@.active_count == frame.active_count,
            final(self)@.centroid == frame.centroid,
            final(self)@.span == frame.span,
    {
        let act = self.live();
        let n = act.len();
        proof {
            lemma_frame_of(self@.slots, now);
            lemma_live_prefix(self@.slots, SLOT_COUNT as int);
        }
        let c = mean_position(&act);
        let span = mean_distance(&act, c.0, c.1);
        let mut slots: Vec<SlotSnapshot> = Vec::new();
        let mut i: usize = 0;
        while i < n
            invariant
                i <= n,
                n == act.len(),
                slots.len() == i,
                forall|k: int| 0 <= k < i ==> slots[k] == (#[trigger] act[k]).snapshot(now),
            decreases n - i,
        {
            let s = act[i];
            slots.push(
                SlotSnapshot {
                    tracking_id: s.tracking_id,
                    x_norm: s.x_norm,
                    y_norm: s.y_norm,
                    moved_norm: s.moved_norm,
                    age_ms: elapsed_ms(s.t_first_ms, now),
                },
            );
            i += 1;
        }
        assert(slots@ =~= snapshots_of(act@, now));
        self.active_count = n;
        self.centroid = c;
        self.span = span;
        FrameSummary { timestamp_ms: now, active_count: n, centroid: c, span, slots }
    }

    /// Starts or ends a touch on the current slot, stamped by the clock:
    /// the time of the event is the time that the clock then shows, which
    /// is no earlier than before.
    pub fn on_tracking_id(&mut self, tracking_id: i32)
        requires
            old(self).wf(),
        ensures
            final(self).wf(),
            final(self)@.clock_ms >= old(self)@.clock_ms,
            final(self)@ == old(self)@.step_at_clock(
                TouchEvent::TrackingId(tracking_id),
                final(self)@.clock_ms,
            ),
            old(self)@.stamps_ordered() ==> final(self)@.stamps_ordered(),
    {
        let now = self.now_ms();
        proof {
            lemma_clock_step(old(self)@, TouchEvent::TrackingId(tracking_id), now);
        }
        self.on_tracking_id_at(tracking_id, now);
    }

    /// Takes a raw horizontal position, stamped by the clock.
    pub fn on_pos_x(&mut self, raw: i32)
        requires
            old(self).wf(),
        ensures
            final(self).wf(),
            final(self)@.clock_ms >= old(self)@.clock_ms,
            final(self)@ == old(self)@.step_at_clock(TouchEvent::PosX(raw), final(self)@.clock_ms),
            old(self)@.stamps_ordered() ==> final(self)@.stamps_ordered(),
    {
        let now = self.now_ms();
        proof {
            lemma_clock_step(old(self)@, TouchEvent::PosX(raw), now);
        }
        self.on_pos_x_at(raw, now);
    }

    /// Takes a raw vertical position, stamped by the clock.
    pub fn on_pos_y(&mut self, raw: i32)
        requires
            old(self).wf(),
        ensures
            final(self).wf(),
            final(self)@.clock_ms >= old(self)@.clock_ms,
            final(self)@ == old(self)@.step_at_clock(TouchEvent::PosY(raw), final(self)@.clock_ms),
            old(self)@.stamps_ordered() ==> final(self)@.stamps_ordered(),
    {
        let now = self.now_ms();
        proof {
            lemma_clock_step(old(self)@, TouchEvent::PosY(raw), now);
        }
        self.on_pos_y_at(raw, now);
    }

    /// Summarizes the live slots, stamped by the clock: the frame's time is
    /// the time that the clock then shows, which is no earlier than before.
    /// Where the slots' times are in order, each snapshot's age is the time
    /// from its touchdown to the frame.
    pub fn on_syn_report(&mut self) -> (frame: FrameSummary)
        requires
            old(self).wf(),
        ensures
            final(self).wf(),
            frame.timestamp_ms == final(self)@.clock_ms,
            final(self)@.clock_ms >= old(self)@.clock_ms,
            final(self)@ == old(self)@.step_at_clock(TouchEvent::SynReport, frame.timestamp_ms),
            frame@ == frame_of(old(self)@.slots, frame.timestamp_ms),
            frame.wf(),
            frame.active_count == 0 ==> frame.centroid == (MIDDLE, MIDDLE) && frame.span == 0,
            final(self)@.active_count == frame.active_count,
            final(self)@.centroid == frame.centroid,
            final(self)@.span == frame.span,
            old(self)@.stamps_ordered() ==> final(self)@.stamps_ordered(),
    {
        let now = self.now_ms();
        proof {
            lemma_clock_step(old(self)@, TouchEvent::SynReport, now);
        }
        self.on_syn_report_at(now)
    }

    /// Applies one event of the slot protocol at time `now`. A sync report
    /// gives the frame summary; the other events give nothing.
    pub fn apply(&mut self, ev: TouchEvent, now: u64) -> (frame: Option<FrameSummary>)
        requires
            old(self).wf(),
        ensures
            final(self).wf(),
            final(self)@ == old(self)@.step(ev, now),
            frame is Some <==> ev is SynReport,
            frame is Some ==> frame->0@ == frame_of(old(self)@.slots, now) && frame->0.wf()
                && frame->0.active_count <= SLOT_COUNT,
    {
        match ev {
            TouchEvent::Slot(i) => {
                self.on_slot(i);
                None
            },
            TouchEvent::TrackingId(id) => {
                self.on_tracking_id_at(id, now);
                None
            },
            TouchEvent::PosX(raw) => {
                self.on_pos_x_at(raw, now);
                None
            },
            TouchEvent::PosY(raw) => {
                self.on_pos_y_at(raw, now);
                None
            },
            TouchEvent::SynReport => Some(self.on_syn_report_at(now)),
        }
    }

    /// The live slots, in slot order.
    fn live(&self) -> (act: Vec<SlotState>)
        requires
            self.wf(),
        ensures
            act@ == live_slots(self@.slots),
    {
        let mut act: Vec<SlotState> = Vec::new();
        let mut i: usize = 0;
        while i < self.slots.len()
            invariant
                i <= self.slots.len(),
                act@ == live_prefix(self.slots@, i as int),
            decreases self.slots.len() - i,
        {
            let s = self.slots[i];
            if s.active && s.tracking_id >= 0 {
                act.push(s);
            }
            i += 1;
        }
        act
    }
}

/// Computes `sat_add(a, b)` for lengths that are not negative.
pub fn add_saturating(a: i64, b: i64) -> (r: i64)
    requires
        a >= 0,
        b >= 0,
    ensures
        r == sat_add(a as int, b as int),
        r >= a,
{
    if a > i64::MAX - b {
        i64::MAX
    } else {
        a + b
    }
}

/// The mean position of up to ten well-formed slots.
fn mean_position(act: &Vec<SlotState>) -> (c: (i64, i64))
    requires
        act.len() <= SLOT_COUNT,
        forall|k: int| 0 <= k < act.len() ==> (#[trigger] act[k]).wf(),
    ensures
        c.0 == centroid_of(act@).0,
        c.1 == centroid_of(act@).1,
        in_unit(c.0 as int),
        in_unit(c.1 as int),
{
    let n = act.len();
    if n == 0 {
        return (MIDDLE, MIDDLE);
    }
    let mut sx: i64 = 0;
    let mut sy: i64 = 0;
    let mut i: usize = 0;
    while i < n
        invariant
            i <= n,
            n == act.len(),
            n <= SLOT_COUNT,
            forall|k: int| 0 <= k < act.len() ==> (#[trigger] act[k]).wf(),
            sx == sum_x(act@.take(i as int)),
            sy == sum_y(act@.take(i as int)),
            0 <= sx <= i * UNIT,
            0 <= sy <= i * UNIT,
        decreases n - i,
    {
        let s = act[i];
        assert(s.wf());
        assert(act@.take(i + 1).drop_last() == act@.take(i as int));
        assert(act@.take(i + 1).last() == s);
        sx = sx + s.x_norm;
        sy = sy + s.y_norm;
        i += 1;
    }
    assert(act@.take(n as int) == act@);
    proof {
        lemma_mean_bounds(sx as int, n as int, UNIT as int);
        lemma_mean_bounds(sy as int, n as int, UNIT as int);
    }
    (sx / (n as i64), sy / (n as i64))
}

/// The mean distance of up to ten well-formed slots from `(cx, cy)`.
fn mean_distance(act: &Vec<SlotState>, cx: i64, cy: i64) -> (span: i64)
    requires
        act.len() <= SLOT_COUNT,
        forall|k: int| 0 <= k < act.len() ==> (#[trigger] act[k]).wf(),
        in_unit(cx as int),
        in_unit(cy as int),
        cx == centroid_of(act@).0,
        cy == centroid_of(act@).1,
    ensures
        span == span_of(act@),
        0 <= span <= 2 * UNIT,
{
    let n = act.len();
    if n == 0 {
        return 0;
    }
    let mut acc: i64 = 0;
    let mut i: usize = 0;
    while i < n
        invariant
            i <= n,
            n == act.len(),
            n <= SLOT_COUNT,
            forall|k: int| 0 <= k < act.len() ==> (#[trigger] act[k]).wf(),
            in_unit(cx as int),
            in_unit(cy as int),
            acc == sum_dist(act@.take(i as int), cx as int, cy as int),
            0 <= acc <= i * 2_000_000,
        decreases n - i,
    {
        let s = act[i];
        assert(s.wf());
        assert(act@.take(i + 1).drop_last() == act@.take(i as int));
        assert(act@.take(i + 1).last() == s);
        let dx: i64 = s.x_norm - cx;
        let dy: i64 = s.y_norm - cy;
        proof {
            lemma_length_bound(dx as int, dy as int);
        }
        assert(0 <= dx * dx <= UNIT * UNIT) by (nonlinear_arith)
            requires
                -UNIT <= dx <= UNIT,
        ;
        assert(0 <= dy * dy <= UNIT * UNIT) by (nonlinear_arith)
            requires
                -UNIT <= dy <= UNIT,
        ;
        let sq: i64 = dx * dx + dy * dy;
        let d = int_sqrt(sq as u64);
        assert(d == length(dx as int, dy as int));
        assert(sum_dist(act@.take(i + 1), cx as int, cy as int) == acc + d);
        acc = acc + d as i64;
        i += 1;
    }
    assert(act@.take(n as int) == act@);
    proof {
        lemma_mean_bounds(acc as int, n as int, 2 * UNIT);
    }
    acc / (n as i64)
}

} // verus!
