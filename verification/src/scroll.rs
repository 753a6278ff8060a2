//! Continuous two-finger scrolling.
//!
//! While two fingers stay down, the vertical travel of their centroid is
//! accumulated and paid out in whole wheel steps. A change of span that
//! looks like a pinch suppresses the accumulation.

use crate::tracker::FrameSummary;
use crate::tracker::FrameView;
use crate::units::abs;
use vstd::arithmetic::div_mod::lemma_fundamental_div_mod;
use vstd::arithmetic::div_mod::lemma_fundamental_div_mod_converse;
use vstd::arithmetic::div_mod::lemma_mod_bound;
use vstd::prelude::*;

verus! {

/// The centroid travel that one wheel step stands for.
pub const STEP_NORM: i64 = 10_000;

/// Whether the change of span between two frames suppresses scrolling: it
/// is at least six tenths of the pinch step.
pub open spec fn pinch_gated(pinch_step: int, frame: FrameView, prev: FrameView) -> bool {
    10 * abs(frame.span - prev.span) >= 6 * pinch_step
}

/// Whether `frame` adds to the accumulator: it and the frame before it both
/// show two fingers, and the span has not changed like a pinch.
pub open spec fn accumulates(pinch_step: int, frame: FrameView, prev: Option<FrameView>) -> bool {
    &&& frame.active_count == 2
    &&& prev is Some
    &&& prev->0.active_count == 2
    &&& !pinch_gated(pinch_step, frame, prev->0)
}

/// The vertical travel that `frame` adds to the accumulator.
pub open spec fn travel(pinch_step: int, frame: FrameView, prev: Option<FrameView>) -> int {
    if accumulates(pinch_step, frame, prev) {
        frame.centroid.1 - prev->0.centroid.1
    } else {
        0
    }
}

/// The accumulator after `frame`, and the whole steps that `frame` pays
/// out: the accumulated travel divided by the step, rounded down.
pub open spec fn scroll_step(acc: int, pinch_step: int, frame: FrameView, prev: Option<FrameView>)
    -> (int, int) {
    if frame.active_count != 2 {
        (0, 0)
    } else if accumulates(pinch_step, frame, prev) {
        let total = acc + travel(pinch_step, frame, prev);
        (total % (STEP_NORM as int), total / (STEP_NORM as int))
    } else {
        (acc, 0)
    }
}

/// The frame that came before `frames[k]`: `before` for the first.
pub open spec fn prev_of(frames: Seq<FrameView>, before: Option<FrameView>, k: int) -> Option<
    FrameView,
> {
    if k <= 0 {
        before
    } else {
        Some(frames[k - 1])
    }
}

/// The accumulator after the frames of `frames`, fed in order from the
/// accumulator `acc`, and the sum of the steps paid out on the way.
pub open spec fn scroll_run(
    acc: int,
    pinch_step: int,
    frames: Seq<FrameView>,
    before: Option<FrameView>,
) -> (int, int)
    decreases frames.len(),
{
    if frames.len() == 0 {
        (acc, 0)
    } else {
        let sofar = scroll_run(acc, pinch_step, frames.drop_last(), before);
        let last = scroll_step(
            sofar.0,
            pinch_step,
            frames.last(),
            prev_of(frames, before, frames.len() - 1),
        );
        (last.0, sofar.1 + last.1)
    }
}

/// The sum of the travel that the frames of `frames` add to the accumulator.
pub open spec fn travel_sum(pinch_step: int, frames: Seq<FrameView>, before: Option<FrameView>)
    -> int
    decreases frames.len(),
{
    if frames.len() == 0 {
        0
    } else {
        travel_sum(pinch_step, frames.drop_last(), before) + travel(
            pinch_step,
            frames.last(),
            prev_of(frames, before, frames.len() - 1),
        )
    }
}

/// Whether every frame of `frames` shows two fingers.
pub open spec fn all_two_finger(frames: Seq<FrameView>) -> bool {
    forall|k: int| 0 <= k < frames.len() ==> (#[trigger] frames[k]).active_count == 2
}

/// A frame pays out no step while the span changes like a pinch, and none
/// unless it and the frame before it both show two fingers.
pub proof fn lemma_gated_no_step(acc: int, pinch_step: int, frame: FrameView, prev: Option<FrameView>)
    ensures
        prev is Some && pinch_gated(pinch_step, frame, prev->0) ==> scroll_step(
            acc,
            pinch_step,
            frame,
            prev,
        ).1 == 0,
        frame.active_count != 2 || prev is None || prev->0.active_count != 2 ==> scroll_step(
            acc,
            pinch_step,
            frame,
            prev,
        ).1 == 0,
{
}

/// One frame keeps the books: what was accumulated before plus the frame's
/// travel is what is paid out plus what stays, and what stays is less than
/// one step. A frame without two fingers drops what was accumulated.
pub proof fn lemma_scroll_step(acc: int, pinch_step: int, frame: FrameView, prev: Option<FrameView>)
    requires
        0 <= acc < STEP_NORM,
    ensures
        0 <= scroll_step(acc, pinch_step, frame, prev).0 < STEP_NORM,
        frame.active_count == 2 ==> scroll_step(acc, pinch_step, frame, prev).1 * STEP_NORM
            + scroll_step(acc, pinch_step, frame, prev).0 == acc + travel(pinch_step, frame, prev),
{
    if frame.active_count == 2 && accumulates(pinch_step, frame, prev) {
        let total = acc + travel(pinch_step, frame, prev);
        lemma_fundamental_div_mod(total, STEP_NORM as int);
        lemma_mod_bound(total, STEP_NORM as int);
    }
}

/// Over a run of two-finger frames the steps paid out and the remainder
/// account for all the travel: `steps * STEP_NORM + remainder` is the
/// accumulator at the start plus the travel, with the remainder less than
/// one step.
pub proof fn lemma_scroll_run(
    acc: int,
    pinch_step: int,
    frames: Seq<FrameView>,
    before: Option<FrameView>,
)
    requires
        0 <= acc < STEP_NORM,
        all_two_finger(frames),
    ensures
        0 <= scroll_run(acc, pinch_step, frames, before).0 < STEP_NORM,
        scroll_run(acc, pinch_step, frames, before).1 * STEP_NORM + scroll_run(
            acc,
            pinch_step,
            frames,
            before,
        ).0 == acc + travel_sum(pinch_step, frames, before),
    decreases frames.len(),
{
    if frames.len() > 0 {
        let head = frames.drop_last();
        assert forall|k: int| 0 <= k < head.len() implies (#[trigger] head[k]).active_count
            == 2 by {
            assert(head[k] == frames[k]);
        }
        lemma_scroll_run(acc, pinch_step, head, before);
        let sofar = scroll_run(acc, pinch_step, head, before);
        let prev = prev_of(frames, before, frames.len() - 1);
        lemma_scroll_step(sofar.0, pinch_step, frames.last(), prev);
        let last = scroll_step(sofar.0, pinch_step, frames.last(), prev);
        assert((sofar.1 + last.1) * STEP_NORM == sofar.1 * STEP_NORM + last.1 * STEP_NORM)
            by (nonlinear_arith);
    }
}

/// Over a run of two-finger frames that starts with an empty accumulator,
/// the steps paid out are the travel divided by the step, rounded down; so
/// their number is at most the travel's size divided by the step, plus one.
pub proof fn lemma_total_steps_bounded(
    pinch_step: int,
    frames: Seq<FrameView>,
    before: Option<FrameView>,
)
    requires
        all_two_finger(frames),
    ensures
        scroll_run(0, pinch_step, frames, before).1 == travel_sum(pinch_step, frames, before) / (
        STEP_NORM as int),
        abs(scroll_run(0, pinch_step, frames, before).1) <= abs(
            travel_sum(pinch_step, frames, before),
        ) / (STEP_NORM as int) + 1,
{
    lemma_scroll_run(0, pinch_step, frames, before);
    let r = scroll_run(0, pinch_step, frames, before);
    let t = travel_sum(pinch_step, frames, before);
    lemma_fundamental_div_mod_converse(t, STEP_NORM as int, r.1, r.0);
    lemma_floor_size(t, r.1, r.0);
}

/// The size of a quotient rounded down is at most the size of the dividend
/// divided by the step, plus one.
proof fn lemma_floor_size(t: int, q: int, r: int)
    requires
        t == q * STEP_NORM + r,
        0 <= r < STEP_NORM,
    ensures
        abs(q) <= abs(t) / (STEP_NORM as int) + 1,
{
    if t >= 0 {
        assert(q >= 0) by (nonlinear_arith)
            requires
                t == q * STEP_NORM + r,
                0 <= r < STEP_NORM,
                t >= 0,
        ;
        lemma_fundamental_div_mod_converse(t, STEP_NORM as int, q, r);
    } else {
        let n = -t;
        assert(q < 0) by (nonlinear_arith)
            requires
                t == q * STEP_NORM + r,
                0 <= r < STEP_NORM,
                t < 0,
        ;
        // n == (-q) * STEP - r, so n >= (-q - 1) * STEP
        lemma_fundamental_div_mod(n, STEP_NORM as int);
        lemma_mod_bound(n, STEP_NORM as int);
        let qn = n / (STEP_NORM as int);
        assert(qn >= -q - 1) by (nonlinear_arith)
            requires
                n == STEP_NORM * qn + n % (STEP_NORM as int),
                0 <= n % (STEP_NORM as int) < STEP_NORM,
                n == (-q) * STEP_NORM - r,
                0 <= r < STEP_NORM,
        ;
    }
}

/// Turns centroid travel into wheel steps.
#[derive(Debug)]
pub struct ScrollIntegrator {
    scroll_acc: i64,
}

impl View for ScrollIntegrator {
    type V = int;

    closed spec fn view(&self) -> int {
        self.scroll_acc as int
    }
}

impl ScrollIntegrator {
    /// The accumulator holds less than one step.
    pub open spec fn wf(&self) -> bool {
        0 <= self@ < STEP_NORM
    }

    /// An integrator with nothing accumulated.
    pub fn new() -> (s: ScrollIntegrator)
        ensures
            s@ == 0,
            s.wf(),
    {
        ScrollIntegrator { scroll_acc: 0 }
    }

    /// The travel accumulated and not yet paid out.
    pub fn accumulated(&self) -> (acc: i64)
        ensures
            acc == self@,
    {
        self.scroll_acc
    }

    /// Takes the next frame, with the frame before it, and gives the wheel
    /// movement to emit: the steps that the frame pays out, with the sign
    /// turned, since travel down the surface scrolls the wheel up. Zero
    /// means that nothing is to be emitted.
    pub fn update(&mut self, frame: &FrameSummary, prev: Option<&FrameSummary>, pinch_step: i64)
        -> (wheel: i32)
        requires
            old(self).wf(),
            frame@.in_range(),
            prev is Some ==> prev->0@.in_range(),
        ensures
            final(self).wf(),
            final(self)@ == scroll_step(old(self)@, pinch_step as int, frame@, opt_view(prev)).0,
            wheel == -scroll_step(old(self)@, pinch_step as int, frame@, opt_view(prev)).1,
            !accumulates(pinch_step as int, frame@, opt_view(prev)) ==> wheel == 0,
    {
        if frame.active_count != 2 {
            self.scroll_acc = 0;
            return 0;
        }
        let p = match prev {
            Some(p) => p,
            None => {
                return 0;
            },
        };
        if p.active_count != 2 {
            return 0;
        }
        let dspan: i64 = frame.span - p.span;
        let aspan: i64 = if dspan < 0 {
            -dspan
        } else {
            dspan
        };
        if 10 * (aspan as i128) >= 6 * (pinch_step as i128) {
            return 0;
        }
        let total: i64 = self.scroll_acc + (frame.centroid.1 - p.centroid.1);
        let (q, r) = floor_div_step(total);
        self.scroll_acc = r;
        (-q) as i32
    }
}

/// The view of a frame that may be absent.
pub open spec fn opt_view(f: Option<&FrameSummary>) -> Option<FrameView> {
    match f {
        Some(f) => Some(f@),
        None => None,
    }
}

/// Divides by the step and rounds down; also gives the remainder.
fn floor_div_step(total: i64) -> (qr: (i64, i64))
    requires
        -2_000_000 <= total <= 2_000_000,
    ensures
        qr.0 == total as int / (STEP_NORM as int),
        qr.1 == total as int % (STEP_NORM as int),
        -200 <= qr.0 <= 200,
        0 <= qr.1 < STEP_NORM,
{
    let (q, r) = if total >= 0 {
        (total / STEP_NORM, total % STEP_NORM)
    } else {
        let n: i64 = -total;
        let qn: i64 = n / STEP_NORM;
        let rn: i64 = n % STEP_NORM;
        proof {
            lemma_fundamental_div_mod(n as int, STEP_NORM as int);
        }
        if rn == 0 {
            (-qn, 0)
        } else {
            (-qn - 1, STEP_NORM - rn)
        }
    };
    proof {
        if total >= 0 {
            lemma_fundamental_div_mod(total as int, STEP_NORM as int);
        }
        assert(total == q * STEP_NORM + r) by (nonlinear_arith)
            requires
                total >= 0 ==> total == STEP_NORM * q + r,
                total < 0 ==> (r == 0 && -total == STEP_NORM * (-q)) || (r != 0 && -total
                    == STEP_NORM * (-q - 1) + (STEP_NORM - r)),
        ;
        lemma_fundamental_div_mod_converse(total as int, STEP_NORM as int, q as int, r as int);
    }
    (q, r)
}

} // verus!
