//! The event pump's decisions.
//!
//! The pipeline owns the tracker, the scroll integrator, the gesture
//! detector and the grab arbiter. It is handed the raw events of a tick one
//! by one, in the order in which they were fetched, and says for each what
//! is to be written to the virtual device. When the tick's events are
//! through, it says whether the devices change hands and whether the tick
//! was empty. Fetching events, writing to the device, grabbing and sleeping
//! are the caller's part.

use crate::actions::ActionError;
use crate::actions::ActionErrorView;
use crate::actions::SinkEvent;
use crate::actions::SinkView;
use crate::actions::UinputSink;
use crate::config::bindings_view;
use crate::config::BindingView;
use crate::config::Profile;
use crate::config::Thresholds;
use crate::dispatch::bound_action;
use crate::dispatch::dispatch_gesture;
use crate::dispatch::key_text;
use crate::dispatch::perform;
use crate::dispatch::sink_after;
use crate::dispatch::DispatchView;
use crate::gestures::DetectorView;
use crate::gestures::Gesture;
use crate::gestures::GestureDetector;
use crate::grab::GrabAction;
use crate::grab::GrabArbiter;
use crate::grab::GrabView;
use crate::input::decode;
use crate::input::decoded;
use crate::input::RawEvent;
use crate::scroll::scroll_step;
use crate::scroll::ScrollIntegrator;
use crate::scroll::STEP_NORM;
use crate::tracker::frame_of;
use crate::tracker::FrameSummary;
use crate::tracker::FrameView;
use crate::tracker::TouchEvent;
use crate::tracker::Tracker;
use crate::tracker::TrackerView;
use vstd::prelude::*;

verus! {

/// What one raw event leads to.
#[derive(Debug)]
pub struct Output {
    /// The wheel movement of continuous scrolling; zero for none.
    pub wheel: i32,
    /// The gesture that the event's frame completed, if any.
    pub gesture: Option<Gesture>,
    /// The events to write to the virtual device, in order: those of the
    /// wheel movement, then those of the gesture's action.
    pub events: Vec<SinkEvent>,
    /// The shell command that the gesture's action asks to run, if any.
    pub command: Option<String>,
    /// Why the gesture's action could not be carried out, if it could not.
    pub error: Option<ActionError>,
}

/// The mathematical content of an `Output`.
pub struct OutputView {
    pub wheel: int,
    pub gesture: Option<Gesture>,
    pub events: Seq<SinkEvent>,
    pub command: Option<Seq<char>>,
    pub error: Option<ActionErrorView>,
}

impl View for Output {
    type V = OutputView;

    open spec fn view(&self) -> OutputView {
        OutputView {
            wheel: self.wheel as int,
            gesture: self.gesture,
            events: self.events@,
            command: match self.command {
                Some(c) => Some(c@),
                None => None,
            },
            error: match self.error {
                Some(e) => Some(e@),
                None => None,
            },
        }
    }
}

impl OutputView {
    /// The output of an event that leads to nothing.
    pub open spec fn silent() -> OutputView {
        OutputView { wheel: 0, gesture: None, events: Seq::empty(), command: None, error: None }
    }
}

/// What ends a tick.
#[derive(Debug, Clone, Copy, PartialEq, Eq, Structural)]
pub struct TickEnd {
    /// The one change of device ownership to carry out, if any.
    pub grab: Option<GrabAction>,
    /// Whether the tick saw no event, so that the caller should sleep.
    pub idle: bool,
}

/// The mathematical content of a `Pipeline`.
pub struct PipelineView {
    pub tracker: TrackerView,
    pub detector: DetectorView,
    /// The travel that the scroll integrator holds.
    pub scroll: int,
    pub grab: GrabView,
    /// The frame of the last sync report.
    pub prev: Option<FrameView>,
    /// Whether the tick under way has seen an event.
    pub any_event: bool,
}

/// The events that a wheel movement puts out: none for zero.
pub open spec fn wheel_part(wheel: int, sink: SinkView) -> Seq<SinkEvent> {
    if wheel != 0 {
        sink.scroll(wheel as i32)
    } else {
        Seq::empty()
    }
}

/// What the action bound to the gesture gives, if there is a gesture.
pub open spec fn gesture_part(
    gesture: Option<Gesture>,
    bindings: Seq<BindingView>,
    allow_commands: bool,
    sink: SinkView,
) -> Result<DispatchView, ActionErrorView> {
    match gesture {
        Some(g) => perform(key_text(g), bound_action(bindings, g), allow_commands, sink),
        None => Ok(DispatchView::nothing()),
    }
}

/// The sink after the action bound to the gesture, if there is a gesture.
pub open spec fn sink_after_gesture(
    gesture: Option<Gesture>,
    bindings: Seq<BindingView>,
    sink: SinkView,
) -> SinkView {
    match gesture {
        Some(g) => sink_after(bound_action(bindings, g), sink),
        None => sink,
    }
}

/// The output of a frame with the given wheel movement and gesture.
pub open spec fn output_of(
    wheel: int,
    gesture: Option<Gesture>,
    bindings: Seq<BindingView>,
    allow_commands: bool,
    sink: SinkView,
) -> OutputView {
    match gesture_part(gesture, bindings, allow_commands, sink) {
        Ok(d) => OutputView {
            wheel,
            gesture,
            events: wheel_part(wheel, sink) + d.events,
            command: d.command,
            error: None,
        },
        Err(e) => OutputView {
            wheel,
            gesture,
            events: wheel_part(wheel, sink),
            command: None,
            error: Some(e),
        },
    }
}

impl PipelineView {
    /// The tracker is well formed, the integrator holds less than a step,
    /// and the last frame has its centroid and span in range.
    pub open spec fn wf(self) -> bool {
        &&& self.tracker.wf()
        &&& 0 <= self.scroll < STEP_NORM
        &&& self.prev is Some ==> self.prev->0.in_range()
    }

    /// The pipeline as it starts.
    pub open spec fn initial(th: Thresholds) -> PipelineView {
        PipelineView {
            tracker: TrackerView::initial(),
            detector: DetectorView::initial(th),
            scroll: 0,
            grab: GrabView { grabbed: false, want: None },
            prev: None,
            any_event: false,
        }
    }

    /// The pipeline once its clock has given the time `t`.
    pub open spec fn at_time(self, t: u64) -> PipelineView {
        PipelineView { tracker: self.tracker.at_time(t), ..self }
    }

    /// The wheel movement that `frame` gives: the steps that the scroll
    /// integrator pays out, with the sign turned.
    pub open spec fn wheel_for(self, frame: FrameView, th: Thresholds) -> int {
        -scroll_step(self.scroll, th.pinch_step as int, frame, self.prev).1
    }

    /// The gesture that `frame` completes under the thresholds `th`.
    pub open spec fn gesture_for(self, frame: FrameView, th: Thresholds) -> Option<Gesture> {
        (DetectorView { th, ..self.detector }).step(frame).1
    }

    /// The pipeline after `frame`: the integrator and the detector have
    /// taken it, the arbiter has noted its finger count, and it is the last
    /// frame.
    pub open spec fn after_frame(self, frame: FrameView, th: Thresholds) -> PipelineView {
        PipelineView {
            scroll: scroll_step(self.scroll, th.pinch_step as int, frame, self.prev).0,
            detector: (DetectorView { th, ..self.detector }).step(frame).0,
            grab: self.grab.observed(frame.active_count),
            prev: Some(frame),
            ..self
        }
    }

    /// The frame that the raw event `ev` completes at time `now`, if it is
    /// a sync report.
    pub open spec fn frame_at(self, ev: RawEvent, now: u64) -> Option<FrameView> {
        if decoded(ev) == Some(TouchEvent::SynReport) {
            Some(frame_of(self.tracker.slots, now))
        } else {
            None
        }
    }

    /// The pipeline after the raw event `ev` at time `now`.
    pub open spec fn after_event(self, ev: RawEvent, now: u64, th: Thresholds) -> PipelineView {
        let fed = PipelineView {
            tracker: match decoded(ev) {
                Some(te) => self.tracker.step(te, now),
                None => self.tracker,
            },
            any_event: true,
            ..self
        };
        match self.frame_at(ev, now) {
            Some(frame) => fed.after_frame(frame, th),
            None => fed,
        }
    }

    /// The output of the raw event `ev` at time `now`.
    pub open spec fn output_at(
        self,
        ev: RawEvent,
        now: u64,
        th: Thresholds,
        bindings: Seq<BindingView>,
        allow_commands: bool,
        sink: SinkView,
    ) -> OutputView {
        match self.frame_at(ev, now) {
            Some(frame) => output_of(
                self.wheel_for(frame, th),
                self.gesture_for(frame, th),
                bindings,
                allow_commands,
                sink,
            ),
            None => OutputView::silent(),
        }
    }

    /// The sink after the raw event `ev` at time `now`.
    pub open spec fn sink_at(
        self,
        ev: RawEvent,
        now: u64,
        th: Thresholds,
        bindings: Seq<BindingView>,
        sink: SinkView,
    ) -> SinkView {
        match self.frame_at(ev, now) {
            Some(frame) => sink_after_gesture(self.gesture_for(frame, th), bindings, sink),
            None => sink,
        }
    }

    /// The pipeline once the tick has ended.
    pub open spec fn after_tick(self) -> PipelineView {
        PipelineView { grab: self.grab.settled(), any_event: false, ..self }
    }

    /// What ends the tick.
    pub open spec fn tick_end(self) -> TickEnd {
        TickEnd { grab: self.grab.transition(), idle: !self.any_event }
    }
}

/// Every event keeps the pipeline well formed, and no event changes who
/// holds the devices: that happens only when the tick ends.
pub proof fn lemma_event_keeps(p: PipelineView, ev: RawEvent, now: u64, th: Thresholds)
    requires
        p.wf(),
    ensures
        p.after_event(ev, now, th).wf(),
        p.after_event(ev, now, th).grab.grabbed == p.grab.grabbed,
{
    match decoded(ev) {
        Some(te) => {
            crate::tracker::lemma_step_wf(p.tracker, te, now);
        },
        None => {},
    }
    match p.frame_at(ev, now) {
        Some(frame) => {
            crate::tracker::lemma_frame_of(p.tracker.slots, now);
            crate::scroll::lemma_scroll_step(p.scroll, th.pinch_step as int, frame, p.prev);
        },
        None => {},
    }
}

/// No event moves the clock.
pub proof fn lemma_event_keeps_clock(p: PipelineView, ev: RawEvent, now: u64, th: Thresholds)
    ensures
        p.after_event(ev, now, th).tracker.clock_ms == p.tracker.clock_ms,
{
}

/// A sync report is the only event that can give a gesture or turn the
/// wheel; any other event leads to nothing.
pub proof fn lemma_only_frames_act(
    p: PipelineView,
    ev: RawEvent,
    now: u64,
    th: Thresholds,
    bindings: Seq<BindingView>,
    allow_commands: bool,
    sink: SinkView,
)
    requires
        decoded(ev) != Some(TouchEvent::SynReport),
    ensures
        p.output_at(ev, now, th, bindings, allow_commands, sink) == OutputView::silent(),
        p.sink_at(ev, now, th, bindings, sink) == sink,
{
}

/// When a tick ends, the devices are grabbed exactly if the tick's last
/// frame showed two or more fingers; a tick without a frame leaves the grab
/// as it was. The tick's end reports a change exactly if the grab changed.
pub proof fn lemma_tick_grab(p: PipelineView)
    ensures
        p.grab.want is Some ==> p.after_tick().grab.grabbed == p.grab.want->0,
        p.grab.want is None ==> p.after_tick().grab.grabbed == p.grab.grabbed,
        p.tick_end().grab is Some <==> p.after_tick().grab.grabbed != p.grab.grabbed,
        p.after_tick().grab.want is None,
{
}

/// Drives tracker, scroll integrator, gesture detector and grab arbiter.
#[derive(Debug)]
pub struct Pipeline {
    tracker: Tracker,
    detector: GestureDetector,
    scroll: ScrollIntegrator,
    grab: GrabArbiter,
    prev_frame: Option<FrameSummary>,
    any_event: bool,
}

impl View for Pipeline {
    type V = PipelineView;

    closed spec fn view(&self) -> PipelineView {
        PipelineView {
            tracker: self.tracker@,
            detector: self.detector@,
            scroll: self.scroll@,
            grab: self.grab@,
            prev: match self.prev_frame {
                Some(f) => Some(f@),
                None => None,
            },
            any_event: self.any_event,
        }
    }
}

impl Pipeline {
    /// Whether the pipeline's view is well formed.
    pub open spec fn wf(&self) -> bool {
        self@.wf()
    }

    /// A pipeline that has seen no event, with a tracker whose clock starts
    /// now.
    pub fn new(th: Thresholds) -> (p: Pipeline)
        ensures
            p.wf(),
            p@ == PipelineView::initial(th),
    {
        Pipeline {
            tracker: Tracker::new(),
            detector: GestureDetector::new(th),
            scroll: ScrollIntegrator::new(),
            grab: GrabArbiter::new(),
            prev_frame: None,
            any_event: false,
        }
    }

    /// Whether the devices are grabbed.
    pub fn is_grabbed(&self) -> (b: bool)
        ensures
            b == self@.grab.grabbed,
    {
        self.grab.is_grabbed()
    }

    /// Reads the clock: the milliseconds since the pipeline was made. The
    /// clock never runs back, and the pipeline's tracker keeps the time
    /// given; nothing else of the pipeline changes.
    pub fn now_ms(&mut self) -> (t: u64)
        ensures
            t >= old(self)@.tracker.clock_ms,
            final(self)@ == old(self)@.at_time(t),
    {
        self.tracker.now_ms()
    }

    /// Sets the raw ranges of the two axes of the touch surface.
    pub fn set_norm_ranges(&mut self, x_min: i32, x_max: i32, y_min: i32, y_max: i32)
        requires
            old(self).wf(),
        ensures
            final(self).wf(),
            final(self)@ == (PipelineView {
                tracker: old(self)@.tracker.with_ranges(
                    x_min as int,
                    x_max as int,
                    y_min as int,
                    y_max as int,
                ),
                ..old(self)@
            }),
    {
        self.tracker.set_norm_ranges(x_min, x_max, y_min, y_max);
    }

    /// Takes one raw event at time `now`. An event of the slot protocol
    /// reaches the tracker. A sync report completes a frame, which goes to
    /// the scroll integrator, then to the gesture detector, under the
    /// thresholds of `profile`; a wheel movement is put out through `sink`,
    /// and a gesture is dispatched through the bindings of `profile`. An
    /// action that fails is reported in the output and stops nothing.
    pub fn on_event(
        &mut self,
        ev: &RawEvent,
        now: u64,
        profile: &Profile,
        sink: &mut UinputSink,
    ) -> (out: Output)
        requires
            old(self).wf(),
        ensures
            final(self).wf(),
            final(self)@ == old(self)@.after_event(*ev, now, profile.thresholds),
            out@ == old(self)@.output_at(
                *ev,
                now,
                profile.thresholds,
                bindings_view(profile.bindings@),
                profile.meta.allow_commands,
                old(sink)@,
            ),
            final(sink)@ == old(self)@.sink_at(
                *ev,
                now,
                profile.thresholds,
                bindings_view(profile.bindings@),
                old(sink)@,
            ),
    {
        self.any_event = true;
        let frame = match decode(ev) {
            Some(te) => self.tracker.apply(te, now),
            None => None,
        };
        match frame {
            Some(f) => self.on_frame(f, profile, sink),
            None => Output {
                wheel: 0,
                gesture: None,
                events: Vec::new(),
                command: None,
                error: None,
            },
        }
    }

    /// Takes one raw event, stamped by the pipeline's clock: the time of
    /// the event is the time that the clock then shows, which is no earlier
    /// than before.
    pub fn on_event_now(&mut self, ev: &RawEvent, profile: &Profile, sink: &mut UinputSink) -> (out:
        Output)
        requires
            old(self).wf(),
        ensures
            final(self).wf(),
            final(self)@.tracker.clock_ms >= old(self)@.tracker.clock_ms,
            final(self)@ == old(self)@.at_time(final(self)@.tracker.clock_ms).after_event(
                *ev,
                final(self)@.tracker.clock_ms,
                profile.thresholds,
            ),
            out@ == old(self)@.output_at(
                *ev,
                final(self)@.tracker.clock_ms,
                profile.thresholds,
                bindings_view(profile.bindings@),
                profile.meta.allow_commands,
                old(sink)@,
            ),
            final(sink)@ == old(self)@.sink_at(
                *ev,
                final(self)@.tracker.clock_ms,
                profile.thresholds,
                bindings_view(profile.bindings@),
                old(sink)@,
            ),
    {
        let now = self.now_ms();
        proof {
            lemma_event_keeps_clock(old(self)@.at_time(now), *ev, now, profile.thresholds);
        }
        self.on_event(ev, now, profile, sink)
    }

    /// Takes a frame: runs the scroll integrator and the gesture detector,
    /// notes the finger count for the arbiter, and puts out what follows.
    pub fn on_frame(&mut self, frame: FrameSummary, profile: &Profile, sink: &mut UinputSink) -> (out:
        Output)
        requires
            old(self).wf(),
            frame@.in_range(),
        ensures
            final(self).wf(),
            final(self)@ == old(self)@.after_frame(frame@, profile.thresholds),
            out@ == output_of(
                old(self)@.wheel_for(frame@, profile.thresholds),
                old(self)@.gesture_for(frame@, profile.thresholds),
                bindings_view(profile.bindings@),
                profile.meta.allow_commands,
                old(sink)@,
            ),
            final(sink)@ == sink_after_gesture(
                old(self)@.gesture_for(frame@, profile.thresholds),
                bindings_view(profile.bindings@),
                old(sink)@,
            ),
    {
        let th = profile.thresholds;
        self.grab.observe(frame.active_count);
        let wheel = match &self.prev_frame {
            Some(p) => self.scroll.update(&frame, Some(p), th.pinch_step),
            None => self.scroll.update(&frame, None, th.pinch_step),
        };
        let mut events: Vec<SinkEvent> = Vec::new();
        if wheel != 0 {
            events = sink.scroll_vertical(wheel);
        }
        self.detector.set_thresholds(th);
        let gesture = match &self.prev_frame {
            Some(p) => self.detector.update(&frame, Some(p)),
            None => self.detector.update(&frame, None),
        };
        self.prev_frame = Some(frame);
        let ghost wheel_events = events@;
        match gesture {
            Some(g) => match dispatch_gesture(&g, profile, sink) {
                Ok(d) => {
                    let mut more = d.events;
                    events.append(&mut more);
                    Output { wheel, gesture, events, command: d.command, error: None }
                },
                Err(e) => Output { wheel, gesture, events, command: None, error: Some(e) },
            },
            None => {
                assert(wheel_events + Seq::<SinkEvent>::empty() =~= wheel_events);
                Output { wheel, gesture, events, command: None, error: None }
            },
        }
    }

    /// Ends the tick: gives the one change of device ownership that the
    /// tick's last frame asks for, if any, and says whether the tick saw no
    /// event.
    pub fn end_tick(&mut self) -> (end: TickEnd)
        requires
            old(self).wf(),
        ensures
            final(self).wf(),
            end == old(self)@.tick_end(),
            final(self)@ == old(self)@.after_tick(),
    {
        let idle = !self.any_event;
        self.any_event = false;
        TickEnd { grab: self.grab.end_tick(), idle }
    }

    /// Ends the run: gives the release of the devices that is due if they
    /// are grabbed, so that no device stays grabbed once the pump has
    /// stopped. Nothing else of the pipeline changes.
    pub fn shutdown(&mut self) -> (r: Option<GrabAction>)
        requires
            old(self).wf(),
        ensures
            final(self).wf(),
            r == old(self)@.grab.letting_go(),
            !final(self)@.grab.grabbed,
            final(self)@ == (PipelineView {
                grab: GrabView { grabbed: false, want: None },
                ..old(self)@
            }),
    {
        self.grab.shutdown()
    }
}

} // verus!
