//! The gesture state machine.
//!
//! The detector is driven by frame summaries, one per sync report, and
//! recognizes two-finger taps, swipes and pinches and three-finger taps.

use crate::clock::elapsed;
use crate::clock::elapsed_ms;
use crate::config::Thresholds;
use crate::tracker::FrameSummary;
use crate::tracker::FrameView;
use crate::tracker::SlotSnapshot;
use crate::units::abs;
use vstd::prelude::*;

verus! {

/// A recognized gesture.
#[derive(Debug, Clone, Copy, PartialEq, Eq, Structural)]
pub enum Gesture {
    TwoFingerTap,
    TwoFingerSwipeUp,
    TwoFingerSwipeDown,
    TwoFingerSwipeLeft,
    TwoFingerSwipeRight,
    PinchScaleIn,
    PinchScaleOut,
    ThreeFingerTap,
}

/// What the detector remembers of a run of two-finger frames.
#[derive(Debug, Clone, Copy)]
pub struct TwoFingerState {
    pub start_time_ms: u64,
    pub start_centroid: (i64, i64),
    pub start_span: i64,
    /// Whether a run of two-finger frames is under way.
    pub armed: bool,
    /// Whether the run has already given a swipe or a pinch.
    pub classified: bool,
}

impl TwoFingerState {
    /// The state outside any run of two-finger frames.
    pub open spec fn idle() -> TwoFingerState {
        TwoFingerState {
            start_time_ms: 0,
            start_centroid: (0, 0),
            start_span: 0,
            armed: false,
            classified: false,
        }
    }

    /// The state once `frame`, a two-finger frame, has been seen: a run
    /// under way goes on, otherwise one starts at `frame`.
    pub open spec fn entered(self, frame: FrameView) -> TwoFingerState {
        if self.armed {
            self
        } else {
            TwoFingerState {
                start_time_ms: frame.timestamp_ms,
                start_centroid: frame.centroid,
                start_span: frame.span,
                armed: true,
                classified: false,
            }
        }
    }

    /// The swipe that `frame` completes, if any. A swipe needs the centroid
    /// to have travelled the minimum distance along its main axis within
    /// the time limit; where both axes travelled equally, the horizontal
    /// one counts.
    pub open spec fn swipe(self, th: Thresholds, frame: FrameView) -> Option<Gesture> {
        let dx = frame.centroid.0 - self.start_centroid.0;
        let dy = frame.centroid.1 - self.start_centroid.1;
        if elapsed(self.start_time_ms, frame.timestamp_ms) > th.swipe_max_ms {
            None
        } else if abs(dx) >= abs(dy) && abs(dx) >= th.swipe_min_dist {
            if dx > 0 {
                Some(Gesture::TwoFingerSwipeRight)
            } else {
                Some(Gesture::TwoFingerSwipeLeft)
            }
        } else if abs(dy) > abs(dx) && abs(dy) >= th.swipe_min_dist {
            if dy > 0 {
                Some(Gesture::TwoFingerSwipeDown)
            } else {
                Some(Gesture::TwoFingerSwipeUp)
            }
        } else {
            None
        }
    }

    /// The pinch that `frame` completes, if any: the span has changed by at
    /// least one pinch step since the run began.
    pub open spec fn pinch(self, th: Thresholds, frame: FrameView) -> Option<Gesture> {
        let dspan = frame.span - self.start_span;
        if abs(dspan) >= th.pinch_step {
            if dspan < 0 {
                Some(Gesture::PinchScaleIn)
            } else {
                Some(Gesture::PinchScaleOut)
            }
        } else {
            None
        }
    }

    /// The gesture that `frame` completes in a run that has given none yet:
    /// a swipe, else a pinch.
    pub open spec fn classify(self, th: Thresholds, frame: FrameView) -> Option<Gesture> {
        if self.classified {
            None
        } else if self.swipe(th, frame) is Some {
            self.swipe(th, frame)
        } else {
            self.pinch(th, frame)
        }
    }
}

impl Default for TwoFingerState {
    fn default() -> (s: TwoFingerState)
        ensures
            s == TwoFingerState::idle(),
    {
        TwoFingerState {
            start_time_ms: 0,
            start_centroid: (0, 0),
            start_span: 0,
            armed: false,
            classified: false,
        }
    }
}

/// Whether a snapshot shows a finger that is young and still enough for a
/// tap.
pub open spec fn tap_slot(s: SlotSnapshot, th: Thresholds) -> bool {
    s.age_ms <= th.tap_ms && s.moved_norm <= th.move_tol
}

/// Whether the latched two-finger frame allows a tap: it is there and shows
/// exactly two fingers, each young and still enough.
pub open spec fn tap_ok(latched: Option<FrameView>, th: Thresholds) -> bool {
    match latched {
        Some(f) => f.slots.len() == 2 && tap_slot(f.slots[0], th) && tap_slot(f.slots[1], th),
        None => false,
    }
}

/// The mathematical content of a `GestureDetector`.
pub struct DetectorView {
    pub th: Thresholds,
    pub two: TwoFingerState,
    /// The time of the frame that first showed three fingers.
    pub three_start_ms: Option<u64>,
    /// The most recent frame that showed exactly two fingers in the run
    /// under way.
    pub last_two_frame: Option<FrameView>,
}

impl DetectorView {
    /// The detector before any frame.
    pub open spec fn initial(th: Thresholds) -> DetectorView {
        DetectorView {
            th,
            two: TwoFingerState::idle(),
            three_start_ms: None,
            last_two_frame: None,
        }
    }

    /// The detector with the two-finger run forgotten.
    pub open spec fn disarmed(self) -> DetectorView {
        DetectorView { two: TwoFingerState::idle(), last_two_frame: None, ..self }
    }

    /// Whether `frame` ends a run of two-finger frames with a tap.
    pub open spec fn taps(self, frame: FrameView) -> bool {
        &&& frame.active_count != 2
        &&& self.two.armed
        &&& !self.two.classified
        &&& tap_ok(self.last_two_frame, self.th)
    }

    /// The three-finger rule: a frame with three fingers starts the timer
    /// unless it runs; a frame with none stops it, and gives a tap where no
    /// more than the tap time has passed.
    pub open spec fn three_finger(self, frame: FrameView) -> (DetectorView, Option<Gesture>) {
        if frame.active_count == 3 {
            if self.three_start_ms is None {
                (DetectorView { three_start_ms: Some(frame.timestamp_ms), ..self }, None)
            } else {
                (self, None)
            }
        } else if frame.active_count == 0 {
            match self.three_start_ms {
                Some(t0) => (
                    DetectorView { three_start_ms: None, ..self },
                    if elapsed(t0, frame.timestamp_ms) <= self.th.tap_ms {
                        Some(Gesture::ThreeFingerTap)
                    } else {
                        None
                    },
                ),
                None => (self, None),
            }
        } else {
            (self, None)
        }
    }

    /// The detector after `frame`, and the gesture that `frame` gives.
    pub open spec fn step(self, frame: FrameView) -> (DetectorView, Option<Gesture>) {
        if frame.active_count == 2 {
            let two = self.two.entered(frame);
            let g = two.classify(self.th, frame);
            (
                DetectorView {
                    two: TwoFingerState { classified: two.classified || g is Some, ..two },
                    last_two_frame: Some(frame),
                    ..self
                },
                g,
            )
        } else if self.taps(frame) {
            (self.disarmed(), Some(Gesture::TwoFingerTap))
        } else if self.two.armed {
            self.disarmed().three_finger(frame)
        } else {
            self.three_finger(frame)
        }
    }

    /// The detector after the frames of `frames`, in order.
    pub open spec fn run(self, frames: Seq<FrameView>) -> DetectorView
        decreases frames.len(),
    {
        if frames.len() == 0 {
            self
        } else {
            self.run(frames.drop_last()).step(frames.last()).0
        }
    }
}

/// A two-finger tap comes exactly when a frame without two fingers ends an
/// unclassified run whose latched frame shows two fingers, each no older
/// than the tap time and moved no further than the tolerance.
pub proof fn lemma_tap_condition(d: DetectorView, frame: FrameView)
    ensures
        d.step(frame).1 == Some(Gesture::TwoFingerTap) <==> d.taps(frame),
        d.step(frame).1 == Some(Gesture::TwoFingerTap) ==> {
            &&& d.last_two_frame is Some
            &&& d.last_two_frame->0.slots.len() == 2
            &&& forall|k: int|
                0 <= k < 2 ==> {
                    &&& (#[trigger] d.last_two_frame->0.slots[k]).age_ms <= d.th.tap_ms
                    &&& d.last_two_frame->0.slots[k].moved_norm <= d.th.move_tol
                }
        },
{
}

/// A frame that ends an unclassified two-finger run without a tap gives no
/// two-finger gesture: it gives nothing, or a three-finger tap where the
/// three-finger timer was running and all fingers are up in time.
pub proof fn lemma_no_tap_no_two_finger_gesture(d: DetectorView, frame: FrameView)
    requires
        frame.active_count != 2,
        !d.taps(frame),
    ensures
        d.step(frame).1 is None || d.step(frame).1 == Some(Gesture::ThreeFingerTap),
        d.three_start_ms is None ==> d.step(frame).1 is None,
{
}

/// A frame gives one gesture at most, also where more than one rule
/// applies. In a frame with two fingers a swipe goes before a pinch, and no
/// tap comes. In a frame that ends a run with a tap, the two-finger tap goes
/// before a three-finger tap, whose timer then runs on.
pub proof fn lemma_one_gesture(d: DetectorView, frame: FrameView)
    ensures
        frame.active_count == 2 && !d.two.entered(frame).classified && d.two.entered(frame).swipe(
            d.th,
            frame,
        ) is Some ==> d.step(frame).1 == d.two.entered(frame).swipe(d.th, frame),
        frame.active_count == 2 ==> d.step(frame).1 != Some(Gesture::TwoFingerTap) && d.step(
            frame,
        ).1 != Some(Gesture::ThreeFingerTap),
        d.taps(frame) ==> d.step(frame).1 == Some(Gesture::TwoFingerTap) && d.step(
            frame,
        ).0.three_start_ms == d.three_start_ms,
{
}

/// Recognizes gestures from frame summaries.
#[derive(Debug)]
pub struct GestureDetector {
    th: Thresholds,
    two: TwoFingerState,
    three_start_ms: Option<u64>,
    last_two_frame: Option<FrameSummary>,
}

impl View for GestureDetector {
    type V = DetectorView;

    closed spec fn view(&self) -> DetectorView {
        DetectorView {
            th: self.th,
            two: self.two,
            three_start_ms: self.three_start_ms,
            last_two_frame: match self.last_two_frame {
                Some(f) => Some(f@),
                None => None,
            },
        }
    }
}

impl GestureDetector {
    /// A detector that has seen no frame.
    pub fn new(th: Thresholds) -> (d: GestureDetector)
        ensures
            d@ == DetectorView::initial(th),
    {
        GestureDetector {
            th,
            two: TwoFingerState::default(),
            three_start_ms: None,
            last_two_frame: None,
        }
    }

    /// The thresholds in force.
    pub fn thresholds(&self) -> (th: Thresholds)
        ensures
            th == self@.th,
    {
        self.th
    }

    /// Puts new thresholds in force; what the detector remembers of the
    /// touches stays.
    pub fn set_thresholds(&mut self, th: Thresholds)
        ensures
            final(self)@ == (DetectorView { th, ..old(self)@ }),
    {
        self.th = th;
    }

    /// Takes the next frame and gives the gesture that it completes, if any.
    /// The frame before it is not consulted.
    pub fn update(&mut self, frame: &FrameSummary, _prev: Option<&FrameSummary>) -> (g: Option<
        Gesture,
    >)
        ensures
            final(self)@ == old(self)@.step(frame@).0,
            g == old(self)@.step(frame@).1,
            g == Some(Gesture::TwoFingerTap) <==> old(self)@.taps(frame@),
    {
        let a = frame.active_count;
        if a == 2 {
            if !self.two.armed {
                self.two = TwoFingerState {
                    start_time_ms: frame.timestamp_ms,
                    start_centroid: frame.centroid,
                    start_span: frame.span,
                    armed: true,
                    classified: false,
                };
            }
            self.last_two_frame = Some(frame.duplicate());
            if !self.two.classified {
                let g = classify_frame(&self.two, &self.th, frame);
                if g.is_some() {
                    self.two.classified = true;
                }
                return g;
            }
            return None;
        }
        if self.two.armed {
            let tap = !self.two.classified && self.latched_tap();
            self.two = TwoFingerState::default();
            self.last_two_frame = None;
            if tap {
                return Some(Gesture::TwoFingerTap);
            }
        }
        if a == 3 {
            if self.three_start_ms.is_none() {
                self.three_start_ms = Some(frame.timestamp_ms);
            }
            None
        } else if a == 0 {
            match self.three_start_ms {
                Some(t0) => {
                    self.three_start_ms = None;
                    if elapsed_ms(t0, frame.timestamp_ms) <= self.th.tap_ms {
                        Some(Gesture::ThreeFingerTap)
                    } else {
                        None
                    }
                },
                None => None,
            }
        } else {
            None
        }
    }

    /// Whether the latched two-finger frame allows a tap.
    fn latched_tap(&self) -> (ok: bool)
        ensures
            ok == tap_ok(self@.last_two_frame, self@.th),
    {
        match &self.last_two_frame {
            Some(f) => f.slots.len() == 2 && is_tap_slot(&f.slots[0], &self.th) && is_tap_slot(
                &f.slots[1],
                &self.th,
            ),
            None => false,
        }
    }
}

/// Computes `tap_slot`.
fn is_tap_slot(s: &SlotSnapshot, th: &Thresholds) -> (ok: bool)
    ensures
        ok == tap_slot(*s, *th),
{
    s.age_ms <= th.tap_ms && s.moved_norm <= th.move_tol
}

/// Computes `classify` for a run that has given no gesture yet.
fn classify_frame(two: &TwoFingerState, th: &Thresholds, frame: &FrameSummary) -> (g: Option<
    Gesture,
>)
    requires
        !two.classified,
    ensures
        g == two.classify(*th, frame@),
{
    let dt = elapsed_ms(two.start_time_ms, frame.timestamp_ms);
    if dt <= th.swipe_max_ms {
        let dx: i128 = frame.centroid.0 as i128 - two.start_centroid.0 as i128;
        let dy: i128 = frame.centroid.1 as i128 - two.start_centroid.1 as i128;
        let ax: i128 = if dx < 0 {
            -dx
        } else {
            dx
        };
        let ay: i128 = if dy < 0 {
            -dy
        } else {
            dy
        };
        let min: i128 = th.swipe_min_dist as i128;
        if ax >= ay && ax >= min {
            return Some(
                if dx > 0 {
                    Gesture::TwoFingerSwipeRight
                } else {
                    Gesture::TwoFingerSwipeLeft
                },
            );
        } else if ay > ax && ay >= min {
            return Some(
                if dy > 0 {
                    Gesture::TwoFingerSwipeDown
                } else {
                    Gesture::TwoFingerSwipeUp
                },
            );
        }
    }
    let dspan: i128 = frame.span as i128 - two.start_span as i128;
    let aspan: i128 = if dspan < 0 {
        -dspan
    } else {
        dspan
    };
    if aspan >= th.pinch_step as i128 {
        Some(
            if dspan < 0 {
                Gesture::PinchScaleIn
            } else {
                Gesture::PinchScaleOut
            },
        )
    } else {
        None
    }
}

} // verus!
