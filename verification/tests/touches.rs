use touchctl::actions::{Key, MouseButton, SinkEvent, UinputSink};
use touchctl::config::{Binding, Meta, Profile, Thresholds};
use touchctl::gestures::{Gesture, GestureDetector};
use touchctl::grab::{GrabAction, GrabArbiter};
use touchctl::input::{
    RawEvent, ABS_MT_POSITION_X, ABS_MT_POSITION_Y, ABS_MT_SLOT, ABS_MT_TRACKING_ID, EV_ABS,
    EV_SYN, SYN_REPORT,
};
use touchctl::pipeline::{Output, Pipeline};
use touchctl::scroll::ScrollIntegrator;
use touchctl::tracker::{FrameSummary, SlotSnapshot};

fn thresholds() -> Thresholds {
    Thresholds {
        tap_ms: 250,
        hold_ms: 500,
        move_tol: 20_000,
        swipe_min_dist: 120_000,
        swipe_max_ms: 600,
        pinch_sensitivity: 1_000_000,
        pinch_step: 50_000,
        smooth_ema: 300_000,
    }
}

fn bind(key: &str, action: &str) -> Binding {
    Binding { key: key.to_string(), action: action.to_string() }
}

fn profile() -> Profile {
    Profile {
        meta: Meta { name: Some("default".to_string()), allow_commands: false },
        thresholds: thresholds(),
        bindings: vec![
            bind("two_finger.tap", "mouse:right"),
            bind("two_finger.swipe_right", "key:ALT+TAB"),
            bind("pinch.scale_in", "key:CTRL+MINUS"),
            bind("pinch.scale_out", "key:CTRL+EQUAL"),
            bind("three_finger.tap", "mouse:middle"),
        ],
    }
}

fn abs(code: u16, value: i32) -> RawEvent {
    RawEvent { class: EV_ABS, code, value }
}

fn syn() -> RawEvent {
    RawEvent { class: EV_SYN, code: SYN_REPORT, value: 0 }
}

struct Rig {
    pipeline: Pipeline,
    profile: Profile,
    sink: UinputSink,
}

impl Rig {
    fn new() -> Rig {
        let mut pipeline = Pipeline::new(thresholds());
        pipeline.set_norm_ranges(0, 1000, 0, 1000);
        Rig { pipeline, profile: profile(), sink: UinputSink::new(true) }
    }

    fn feed(&mut self, ev: RawEvent, now: u64) -> Output {
        self.pipeline.on_event(&ev, now, &self.profile, &mut self.sink)
    }

    fn down(&mut self, slot: i32, id: i32, x: i32, y: i32, now: u64) {
        self.feed(abs(ABS_MT_SLOT, slot), now);
        self.feed(abs(ABS_MT_TRACKING_ID, id), now);
        self.feed(abs(ABS_MT_POSITION_X, x), now);
        self.feed(abs(ABS_MT_POSITION_Y, y), now);
    }

    fn moved(&mut self, slot: i32, x: i32, y: i32, now: u64) {
        self.feed(abs(ABS_MT_SLOT, slot), now);
        self.feed(abs(ABS_MT_POSITION_X, x), now);
        self.feed(abs(ABS_MT_POSITION_Y, y), now);
    }

    fn up(&mut self, slot: i32, now: u64) {
        self.feed(abs(ABS_MT_SLOT, slot), now);
        self.feed(abs(ABS_MT_TRACKING_ID, -1), now);
    }

    fn report(&mut self, now: u64) -> Output {
        self.feed(syn(), now)
    }
}

fn click(b: MouseButton) -> Vec<SinkEvent> {
    vec![SinkEvent::Button(b, true), SinkEvent::Sync, SinkEvent::Button(b, false), SinkEvent::Sync]
}

#[test]
fn two_finger_tap_on_release_frame() {
    let mut rig = Rig::new();
    rig.down(0, 1, 400, 500, 0);
    rig.down(1, 2, 600, 500, 0);
    let first = rig.report(0);
    assert_eq!(first.gesture, None);
    assert!(first.events.is_empty());
    rig.up(0, 80);
    rig.up(1, 80);
    let out = rig.report(80);
    assert_eq!(out.gesture, Some(Gesture::TwoFingerTap));
    assert_eq!(out.events, click(MouseButton::Right));
    assert!(out.error.is_none());
    assert_eq!(out.wheel, 0);
}

#[test]
fn two_finger_tap_survives_split_release() {
    let mut rig = Rig::new();
    rig.down(0, 1, 400, 500, 0);
    rig.down(1, 2, 600, 500, 0);
    assert_eq!(rig.report(0).gesture, None);
    rig.up(0, 70);
    let out = rig.report(70);
    assert_eq!(out.gesture, Some(Gesture::TwoFingerTap));
    rig.up(1, 80);
    assert_eq!(rig.report(80).gesture, None);
}

#[test]
fn slow_two_finger_release_is_no_tap() {
    let mut rig = Rig::new();
    rig.down(0, 1, 400, 500, 0);
    rig.down(1, 2, 600, 500, 0);
    assert_eq!(rig.report(0).gesture, None);
    assert_eq!(rig.report(251).gesture, None);
    rig.up(0, 300);
    rig.up(1, 300);
    let out = rig.report(300);
    assert_eq!(out.gesture, None);
    assert!(out.events.is_empty());
}

#[test]
fn two_finger_swipe_right() {
    let mut rig = Rig::new();
    rig.down(0, 1, 300, 500, 0);
    rig.down(1, 2, 500, 500, 0);
    assert_eq!(rig.report(0).gesture, None);
    // centroid at 0.45: travelled 0.05, below the minimum distance
    rig.moved(0, 350, 500, 30);
    rig.moved(1, 550, 500, 30);
    assert_eq!(rig.report(30).gesture, None);
    // centroid at 0.65: travelled 0.25
    rig.moved(0, 550, 500, 120);
    rig.moved(1, 750, 500, 120);
    let out = rig.report(120);
    assert_eq!(out.gesture, Some(Gesture::TwoFingerSwipeRight));
    assert_eq!(
        out.events,
        vec![
            SinkEvent::Key(Key::LeftAlt, true),
            SinkEvent::Key(Key::Tab, true),
            SinkEvent::Sync,
            SinkEvent::Key(Key::Tab, false),
            SinkEvent::Key(Key::LeftAlt, false),
            SinkEvent::Sync,
        ]
    );
    // the run is classified: no second swipe and no tap on release
    rig.moved(0, 600, 500, 140);
    rig.moved(1, 800, 500, 140);
    assert_eq!(rig.report(140).gesture, None);
    rig.up(0, 150);
    rig.up(1, 150);
    assert_eq!(rig.report(150).gesture, None);
}

fn two_finger_frame(t: u64, cx: i64, cy: i64, span: i64) -> FrameSummary {
    FrameSummary {
        timestamp_ms: t,
        active_count: 2,
        centroid: (cx, cy),
        span,
        slots: vec![
            SlotSnapshot { tracking_id: 1, x_norm: cx, y_norm: cy, moved_norm: 0, age_ms: t },
            SlotSnapshot { tracking_id: 2, x_norm: cx, y_norm: cy, moved_norm: 0, age_ms: t },
        ],
    }
}

#[test]
fn pinch_in_when_span_shrinks_by_a_step() {
    let mut d = GestureDetector::new(thresholds());
    assert_eq!(d.update(&two_finger_frame(0, 500_000, 500_000, 200_000), None), None);
    assert_eq!(d.update(&two_finger_frame(100, 500_000, 500_000, 150_001), None), None);
    assert_eq!(
        d.update(&two_finger_frame(150, 500_000, 500_000, 150_000), None),
        Some(Gesture::PinchScaleIn)
    );
    assert_eq!(d.update(&two_finger_frame(200, 500_000, 500_000, 100_000), None), None);
}

#[test]
fn pinch_in_through_the_tracker() {
    let mut rig = Rig::new();
    // fingers 0.40 apart: span 0.20
    rig.down(0, 1, 300, 500, 0);
    rig.down(1, 2, 700, 500, 0);
    assert_eq!(rig.report(0).gesture, None);
    // fingers 0.20 apart after 200 ms: span 0.10
    rig.moved(0, 400, 500, 200);
    rig.moved(1, 600, 500, 200);
    let out = rig.report(200);
    assert_eq!(out.gesture, Some(Gesture::PinchScaleIn));
    assert_eq!(
        out.events,
        vec![
            SinkEvent::Key(Key::LeftControl, true),
            SinkEvent::Key(Key::Minus, true),
            SinkEvent::Sync,
            SinkEvent::Key(Key::Minus, false),
            SinkEvent::Key(Key::LeftControl, false),
            SinkEvent::Sync,
        ]
    );
}

#[test]
fn continuous_scroll_gives_five_ticks_against_the_motion() {
    let mut rig = Rig::new();
    rig.pipeline.set_norm_ranges(0, 10_000, 0, 10_000);
    rig.down(0, 1, 4000, 5000, 0);
    rig.down(1, 2, 6000, 5000, 0);
    assert_eq!(rig.report(0).wheel, 0);
    let mut total = 0;
    let mut wheels = Vec::new();
    for k in 1..=10 {
        let y = 5000 + 50 * k;
        let now = 10 * k as u64;
        rig.moved(0, 4000, y, now);
        rig.moved(1, 6000, y, now);
        let out = rig.report(now);
        assert_eq!(out.gesture, None);
        if out.wheel != 0 {
            assert_eq!(out.events, vec![SinkEvent::Wheel(out.wheel), SinkEvent::Sync]);
        } else {
            assert!(out.events.is_empty());
        }
        wheels.push(out.wheel);
        total += out.wheel;
    }
    assert_eq!(wheels, vec![0, -1, 0, -1, 0, -1, 0, -1, 0, -1]);
    assert_eq!(total, -5);
}

#[test]
fn scroll_stops_while_the_span_changes_like_a_pinch() {
    let mut s = ScrollIntegrator::new();
    let a = two_finger_frame(0, 500_000, 500_000, 200_000);
    // the span changes by 0.03, which is six tenths of the pinch step
    let b = two_finger_frame(10, 500_000, 560_000, 230_000);
    assert_eq!(s.update(&a, None, 50_000), 0);
    assert_eq!(s.update(&b, Some(&a), 50_000), 0);
    assert_eq!(s.accumulated(), 0);
    // just below that limit the travel counts
    let c = two_finger_frame(20, 500_000, 560_000, 229_999);
    assert_eq!(s.update(&c, Some(&a), 50_000), -6);
    assert_eq!(s.accumulated(), 0);
}

#[test]
fn three_finger_tap() {
    let mut rig = Rig::new();
    rig.down(0, 1, 300, 500, 0);
    rig.down(1, 2, 500, 500, 0);
    rig.down(2, 3, 700, 500, 0);
    assert_eq!(rig.report(0).gesture, None);
    rig.up(0, 120);
    rig.up(1, 120);
    rig.up(2, 120);
    let out = rig.report(120);
    assert_eq!(out.gesture, Some(Gesture::ThreeFingerTap));
    assert_eq!(out.events, click(MouseButton::Middle));
}

#[test]
fn three_finger_release_after_tap_time_is_no_tap() {
    let mut rig = Rig::new();
    rig.down(0, 1, 300, 500, 0);
    rig.down(1, 2, 500, 500, 0);
    rig.down(2, 3, 700, 500, 0);
    assert_eq!(rig.report(0).gesture, None);
    rig.up(0, 251);
    rig.up(1, 251);
    rig.up(2, 251);
    assert_eq!(rig.report(251).gesture, None);
}

#[test]
fn grab_arbitration_over_finger_counts() {
    let mut a = GrabArbiter::new();
    let mut actions = Vec::new();
    for count in [0usize, 1, 2, 2, 1, 0] {
        a.observe(count);
        actions.push(a.end_tick());
    }
    assert_eq!(
        actions,
        vec![None, None, Some(GrabAction::Grab), None, Some(GrabAction::Release), None]
    );
    assert!(!a.is_grabbed());
}

#[test]
fn grab_follows_the_last_frame_of_a_tick() {
    let mut a = GrabArbiter::new();
    a.observe(2);
    a.observe(3);
    a.observe(1);
    assert!(!a.is_grabbed());
    assert_eq!(a.end_tick(), None);
    a.observe(0);
    a.observe(2);
    assert_eq!(a.end_tick(), Some(GrabAction::Grab));
    assert!(a.is_grabbed());
    // a tick without a frame changes nothing
    assert_eq!(a.end_tick(), None);
    assert!(a.is_grabbed());
}

#[test]
fn pipeline_grabs_after_the_tick_and_reports_idle_ticks() {
    let mut rig = Rig::new();
    let end = rig.pipeline.end_tick();
    assert!(end.idle);
    assert_eq!(end.grab, None);
    rig.down(0, 1, 400, 500, 0);
    rig.down(1, 2, 600, 500, 0);
    rig.report(0);
    assert!(!rig.pipeline.is_grabbed());
    let end = rig.pipeline.end_tick();
    assert!(!end.idle);
    assert_eq!(end.grab, Some(GrabAction::Grab));
    assert!(rig.pipeline.is_grabbed());
    rig.up(0, 300);
    rig.report(300);
    let end = rig.pipeline.end_tick();
    assert_eq!(end.grab, Some(GrabAction::Release));
    assert!(!rig.pipeline.is_grabbed());
}

#[test]
fn shutdown_lets_go_of_the_devices() {
    let mut rig = Rig::new();
    assert_eq!(rig.pipeline.shutdown(), None);
    rig.down(0, 1, 400, 500, 0);
    rig.down(1, 2, 600, 500, 0);
    rig.report(0);
    assert_eq!(rig.pipeline.end_tick().grab, Some(GrabAction::Grab));
    assert!(rig.pipeline.is_grabbed());
    assert_eq!(rig.pipeline.shutdown(), Some(GrabAction::Release));
    assert!(!rig.pipeline.is_grabbed());
    assert_eq!(rig.pipeline.shutdown(), None);
    assert_eq!(rig.pipeline.end_tick().grab, None);
}

#[test]
fn shutdown_in_the_middle_of_a_tick() {
    let mut a = GrabArbiter::new();
    a.observe(2);
    assert_eq!(a.shutdown(), None);
    assert!(!a.is_grabbed());
    // what the tick asked for is forgotten
    assert_eq!(a.end_tick(), None);
    a.observe(3);
    assert_eq!(a.end_tick(), Some(GrabAction::Grab));
    a.observe(0);
    assert_eq!(a.shutdown(), Some(GrabAction::Release));
    assert_eq!(a.end_tick(), None);
    assert!(!a.is_grabbed());
}
