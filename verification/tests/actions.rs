use touchctl::actions::{
    parse_button, parse_key, virtual_device_capabilities, ActionError, Capability, Key,
    MouseButton, SinkEvent, UinputSink, VIRTUAL_DEVICE_NAME,
};
use touchctl::config::{Binding, Meta, Profile, Thresholds};
use touchctl::dispatch::{binding_key, dispatch_gesture, perform_action, Dispatch};
use touchctl::gestures::Gesture;

fn chars(s: &str) -> Vec<char> {
    s.chars().collect()
}

fn key(s: &str) -> Option<Key> {
    let v = chars(s);
    parse_key(&v, 0, v.len())
}

fn button(s: &str) -> Option<MouseButton> {
    let v = chars(s);
    parse_button(&v, 0, v.len())
}

fn click(b: MouseButton) -> Vec<SinkEvent> {
    vec![SinkEvent::Button(b, true), SinkEvent::Sync, SinkEvent::Button(b, false), SinkEvent::Sync]
}

fn chord(keys: &[Key]) -> Vec<SinkEvent> {
    let mut ev: Vec<SinkEvent> = keys.iter().map(|k| SinkEvent::Key(*k, true)).collect();
    ev.push(SinkEvent::Sync);
    ev.extend(keys.iter().rev().map(|k| SinkEvent::Key(*k, false)));
    ev.push(SinkEvent::Sync);
    ev
}

fn profile(allow_commands: bool, bindings: &[(&str, &str)]) -> Profile {
    Profile {
        meta: Meta { name: None, allow_commands },
        thresholds: Thresholds {
            tap_ms: 250,
            hold_ms: 500,
            move_tol: 20_000,
            swipe_min_dist: 120_000,
            swipe_max_ms: 600,
            pinch_sensitivity: 1_000_000,
            pinch_step: 50_000,
            smooth_ema: 300_000,
        },
        bindings: bindings
            .iter()
            .map(|(k, a)| Binding { key: k.to_string(), action: a.to_string() })
            .collect(),
    }
}

fn run(action: &str) -> Result<Dispatch, ActionError> {
    let mut sink = UinputSink::new(true);
    perform_action("some.key", action, false, &mut sink)
}

fn events(action: &str) -> Vec<SinkEvent> {
    let d = run(action).unwrap();
    assert!(!d.toggled);
    assert!(d.command.is_none());
    d.events
}

#[test]
fn device_name() {
    assert_eq!(VIRTUAL_DEVICE_NAME, "Touchctl Virtual Input");
}

#[test]
fn device_capabilities_cover_what_the_sink_emits() {
    let caps = virtual_device_capabilities();
    assert_eq!(caps.len(), 14);
    for c in [
        Capability::RelativeX,
        Capability::RelativeY,
        Capability::WheelVertical,
        Capability::WheelHorizontal,
        Capability::Button(MouseButton::Left),
        Capability::Button(MouseButton::Right),
        Capability::Button(MouseButton::Middle),
        Capability::Key(Key::LeftControl),
        Capability::Key(Key::LeftAlt),
        Capability::Key(Key::LeftShift),
        Capability::Key(Key::LeftMeta),
        Capability::Key(Key::Tab),
        Capability::Key(Key::Minus),
        Capability::Key(Key::Equal),
    ] {
        assert_eq!(caps.iter().filter(|x| **x == c).count(), 1);
    }
}

#[test]
fn key_tokens() {
    assert_eq!(key("CTRL"), Some(Key::LeftControl));
    assert_eq!(key("CONTROL"), Some(Key::LeftControl));
    assert_eq!(key("ALT"), Some(Key::LeftAlt));
    assert_eq!(key("SHIFT"), Some(Key::LeftShift));
    assert_eq!(key("SUPER"), Some(Key::LeftMeta));
    assert_eq!(key("META"), Some(Key::LeftMeta));
    assert_eq!(key("WIN"), Some(Key::LeftMeta));
    assert_eq!(key("TAB"), Some(Key::Tab));
    assert_eq!(key("MINUS"), Some(Key::Minus));
    assert_eq!(key("-"), Some(Key::Minus));
    assert_eq!(key("EQUAL"), Some(Key::Equal));
    assert_eq!(key("="), Some(Key::Equal));
    assert_eq!(key("ctrl"), Some(Key::LeftControl));
    assert_eq!(key("Shift"), Some(Key::LeftShift));
    assert_eq!(key("wIn"), Some(Key::LeftMeta));
    assert_eq!(key(""), None);
    assert_eq!(key("A"), None);
    assert_eq!(key("CTRL "), None);
    assert_eq!(key("CTR"), None);
    assert_eq!(key("+"), None);
}

#[test]
fn mouse_buttons() {
    assert_eq!(button("left"), Some(MouseButton::Left));
    assert_eq!(button("right"), Some(MouseButton::Right));
    assert_eq!(button("middle"), Some(MouseButton::Middle));
    assert_eq!(button("LEFT"), Some(MouseButton::Left));
    assert_eq!(button("Middle"), Some(MouseButton::Middle));
    assert_eq!(button(""), None);
    assert_eq!(button("left "), None);
    assert_eq!(button("side"), None);
}

#[test]
fn sink_starts_enabled() {
    let s = UinputSink::new(true);
    assert!(s.is_enabled() && s.is_attached());
    let s = UinputSink::new(false);
    assert!(s.is_enabled() && !s.is_attached());
    let mut s = UinputSink::noop();
    assert!(s.is_enabled() && !s.is_attached());
    s.set_enabled(false);
    assert!(!s.is_enabled() && !s.is_attached());
    s.set_enabled(true);
    assert!(s.is_enabled());
}

#[test]
fn click_is_press_sync_release_sync() {
    let s = UinputSink::new(true);
    assert_eq!(s.click_mouse("left").unwrap(), click(MouseButton::Left));
    assert_eq!(s.click_mouse("Right").unwrap(), click(MouseButton::Right));
    assert_eq!(s.click_mouse("MIDDLE").unwrap(), click(MouseButton::Middle));
    assert_eq!(s.click_right(), click(MouseButton::Right));
}

#[test]
fn unknown_button_is_an_error() {
    let s = UinputSink::new(true);
    match s.click_mouse("side") {
        Err(ActionError::UnknownButton(name)) => assert_eq!(name, "side"),
        other => panic!("{:?}", other),
    }
    match s.click_mouse(" left") {
        Err(ActionError::UnknownButton(name)) => assert_eq!(name, " left"),
        other => panic!("{:?}", other),
    }
}

#[test]
fn scroll_is_wheel_and_sync() {
    let s = UinputSink::new(true);
    assert_eq!(s.scroll_vertical(3), vec![SinkEvent::Wheel(3), SinkEvent::Sync]);
    assert_eq!(s.scroll_vertical(-2), vec![SinkEvent::Wheel(-2), SinkEvent::Sync]);
    assert_eq!(s.scroll_vertical(0), vec![SinkEvent::Wheel(0), SinkEvent::Sync]);
    assert_eq!(s.scroll_vertical(i32::MIN), vec![SinkEvent::Wheel(i32::MIN), SinkEvent::Sync]);
}

#[test]
fn chord_presses_in_order_and_releases_in_reverse() {
    let s = UinputSink::new(true);
    assert_eq!(s.key_chord("TAB").unwrap(), chord(&[Key::Tab]));
    assert_eq!(s.key_chord("CTRL+EQUAL").unwrap(), chord(&[Key::LeftControl, Key::Equal]));
    assert_eq!(
        s.key_chord("ctrl + Alt+  shift +tab").unwrap(),
        vec![
            SinkEvent::Key(Key::LeftControl, true),
            SinkEvent::Key(Key::LeftAlt, true),
            SinkEvent::Key(Key::LeftShift, true),
            SinkEvent::Key(Key::Tab, true),
            SinkEvent::Sync,
            SinkEvent::Key(Key::Tab, false),
            SinkEvent::Key(Key::LeftShift, false),
            SinkEvent::Key(Key::LeftAlt, false),
            SinkEvent::Key(Key::LeftControl, false),
            SinkEvent::Sync,
        ]
    );
    assert_eq!(s.key_chord("SUPER+-").unwrap(), chord(&[Key::LeftMeta, Key::Minus]));
    assert_eq!(s.key_chord("CTRL+=").unwrap(), chord(&[Key::LeftControl, Key::Equal]));
    assert_eq!(s.key_chord("TAB+TAB").unwrap(), chord(&[Key::Tab, Key::Tab]));
}

#[test]
fn first_unsupported_token_is_the_error() {
    let s = UinputSink::new(true);
    match s.key_chord("CTRL+ F5 +F6") {
        Err(ActionError::UnsupportedKey(tok)) => assert_eq!(tok, "F5"),
        other => panic!("{:?}", other),
    }
    match s.key_chord("") {
        Err(ActionError::UnsupportedKey(tok)) => assert_eq!(tok, ""),
        other => panic!("{:?}", other),
    }
    match s.key_chord("CTRL++") {
        Err(ActionError::UnsupportedKey(tok)) => assert_eq!(tok, ""),
        other => panic!("{:?}", other),
    }
    match s.key_chord("a") {
        Err(ActionError::UnsupportedKey(tok)) => assert_eq!(tok, "a"),
        other => panic!("{:?}", other),
    }
}

#[test]
fn a_sink_that_is_off_or_detached_emits_nothing_and_checks_nothing() {
    let mut off = UinputSink::new(true);
    off.set_enabled(false);
    for s in [off, UinputSink::noop()] {
        assert!(s.click_mouse("left").unwrap().is_empty());
        assert!(s.click_mouse("bogus").unwrap().is_empty());
        assert!(s.key_chord("CTRL+TAB").unwrap().is_empty());
        assert!(s.key_chord("F13").unwrap().is_empty());
        assert!(s.scroll_vertical(4).is_empty());
        assert!(s.click_right().is_empty());
    }
}

#[test]
fn binding_keys_of_the_gestures() {
    assert_eq!(binding_key(&Gesture::TwoFingerTap), "two_finger.tap");
    assert_eq!(binding_key(&Gesture::TwoFingerSwipeUp), "two_finger.swipe_up");
    assert_eq!(binding_key(&Gesture::TwoFingerSwipeDown), "two_finger.swipe_down");
    assert_eq!(binding_key(&Gesture::TwoFingerSwipeLeft), "two_finger.swipe_left");
    assert_eq!(binding_key(&Gesture::TwoFingerSwipeRight), "two_finger.swipe_right");
    assert_eq!(binding_key(&Gesture::PinchScaleIn), "pinch.scale_in");
    assert_eq!(binding_key(&Gesture::PinchScaleOut), "pinch.scale_out");
    assert_eq!(binding_key(&Gesture::ThreeFingerTap), "three_finger.tap");
}

#[test]
fn empty_action_does_nothing() {
    let d = run("").unwrap();
    assert!(d.events.is_empty() && !d.toggled && d.command.is_none());
}

#[test]
fn toggle_switches_the_sink() {
    let mut sink = UinputSink::new(true);
    let d = perform_action("k", "toggle", false, &mut sink).unwrap();
    assert!(d.toggled && d.events.is_empty() && d.command.is_none());
    assert!(!sink.is_enabled());
    assert!(perform_action("k", "mouse:left", false, &mut sink).unwrap().events.is_empty());
    let d = perform_action("k", "toggle", false, &mut sink).unwrap();
    assert!(d.toggled);
    assert!(sink.is_enabled());
    assert_eq!(
        perform_action("k", "mouse:left", false, &mut sink).unwrap().events,
        click(MouseButton::Left)
    );
}

#[test]
fn mouse_actions() {
    assert_eq!(events("mouse:left"), click(MouseButton::Left));
    assert_eq!(events("mouse: right "), click(MouseButton::Right));
    assert_eq!(events("mouse:MIDDLE"), click(MouseButton::Middle));
    match run("mouse:") {
        Err(ActionError::UnknownButton(name)) => assert_eq!(name, ""),
        other => panic!("{:?}", other),
    }
    match run("mouse: thumb ") {
        Err(ActionError::UnknownButton(name)) => assert_eq!(name, "thumb"),
        other => panic!("{:?}", other),
    }
}

#[test]
fn scroll_actions() {
    let wheel = |n: i32| vec![SinkEvent::Wheel(n), SinkEvent::Sync];
    assert_eq!(events("scroll:vertical"), wheel(1));
    assert_eq!(events("scroll:vertical@3"), wheel(3));
    assert_eq!(events("scroll:vertical@+3"), wheel(3));
    assert_eq!(events("scroll:vertical@-4"), wheel(-4));
    assert_eq!(events("scroll: Vertical @2"), wheel(2));
    assert_eq!(events("scroll:VERTICAL@0"), wheel(0));
    // steps that are no number count as one
    assert_eq!(events("scroll:vertical@"), wheel(1));
    assert_eq!(events("scroll:vertical@ 3"), wheel(1));
    assert_eq!(events("scroll:vertical@x"), wheel(1));
    assert_eq!(events("scroll:vertical@99999999999"), wheel(1));
    // only what stands between the first and the second @ counts
    assert_eq!(events("scroll:vertical@5@7"), wheel(5));
    // other axes are reserved
    assert!(events("scroll:horizontal@3").is_empty());
    assert!(events("scroll:").is_empty());
    assert!(events("scroll:@3").is_empty());
}

#[test]
fn key_actions() {
    assert_eq!(events("key:TAB"), chord(&[Key::Tab]));
    assert_eq!(events("key: CTRL+MINUS "), chord(&[Key::LeftControl, Key::Minus]));
    match run("key:CTRL+Q") {
        Err(ActionError::UnsupportedKey(tok)) => assert_eq!(tok, "Q"),
        other => panic!("{:?}", other),
    }
    match run("key:") {
        Err(ActionError::UnsupportedKey(tok)) => assert_eq!(tok, ""),
        other => panic!("{:?}", other),
    }
}

#[test]
fn commands_run_only_where_allowed() {
    let mut sink = UinputSink::new(true);
    let d = perform_action("k", "cmd:notify-send hi", true, &mut sink).unwrap();
    assert_eq!(d.command.as_deref(), Some("notify-send hi"));
    assert!(d.events.is_empty() && !d.toggled);
    let d = perform_action("k", "cmd:notify-send hi", false, &mut sink).unwrap();
    assert!(d.command.is_none() && d.events.is_empty() && !d.toggled);
    let d = perform_action("k", "cmd:", true, &mut sink).unwrap();
    assert_eq!(d.command.as_deref(), Some(""));
}

#[test]
fn unknown_action_is_an_error() {
    for action in ["bogus", "Toggle", "toggle ", " mouse:left", "mouse", "KEY:TAB", " "] {
        match run(action) {
            Err(ActionError::UnknownAction { key, action: a }) => {
                assert_eq!(key, "some.key");
                assert_eq!(a, action);
            }
            other => panic!("{:?}", other),
        }
    }
}

#[test]
fn dispatch_looks_up_the_binding() {
    let p = profile(
        false,
        &[
            ("two_finger.tap", "mouse:right"),
            ("pinch.scale_out", "key:CTRL+EQUAL"),
            ("two_finger.swipe_up", "scroll:vertical@-3"),
            ("two_finger.swipe_down", "nonsense"),
            ("three_finger.tap", ""),
        ],
    );
    let mut sink = UinputSink::new(true);
    let d = dispatch_gesture(&Gesture::TwoFingerTap, &p, &mut sink).unwrap();
    assert_eq!(d.events, click(MouseButton::Right));
    let d = dispatch_gesture(&Gesture::PinchScaleOut, &p, &mut sink).unwrap();
    assert_eq!(d.events, chord(&[Key::LeftControl, Key::Equal]));
    let d = dispatch_gesture(&Gesture::TwoFingerSwipeUp, &p, &mut sink).unwrap();
    assert_eq!(d.events, vec![SinkEvent::Wheel(-3), SinkEvent::Sync]);
    // a gesture without a binding, or with an empty one, does nothing
    let d = dispatch_gesture(&Gesture::PinchScaleIn, &p, &mut sink).unwrap();
    assert!(d.events.is_empty() && !d.toggled && d.command.is_none());
    let d = dispatch_gesture(&Gesture::ThreeFingerTap, &p, &mut sink).unwrap();
    assert!(d.events.is_empty() && !d.toggled && d.command.is_none());
    match dispatch_gesture(&Gesture::TwoFingerSwipeDown, &p, &mut sink) {
        Err(ActionError::UnknownAction { key, action }) => {
            assert_eq!(key, "two_finger.swipe_down");
            assert_eq!(action, "nonsense");
        }
        other => panic!("{:?}", other),
    }
    assert!(sink.is_enabled());
}

#[test]
fn a_later_binding_replaces_an_earlier_one() {
    let p = profile(
        false,
        &[
            ("two_finger.tap", "mouse:left"),
            ("pinch.scale_in", "key:TAB"),
            ("two_finger.tap", "mouse:middle"),
        ],
    );
    let mut sink = UinputSink::new(true);
    let d = dispatch_gesture(&Gesture::TwoFingerTap, &p, &mut sink).unwrap();
    assert_eq!(d.events, click(MouseButton::Middle));
}

#[test]
fn dispatch_of_a_toggle_and_of_a_command() {
    let p = profile(true, &[("two_finger.tap", "toggle"), ("three_finger.tap", "cmd:true")]);
    let mut sink = UinputSink::new(true);
    let d = dispatch_gesture(&Gesture::TwoFingerTap, &p, &mut sink).unwrap();
    assert!(d.toggled);
    assert!(!sink.is_enabled());
    let d = dispatch_gesture(&Gesture::ThreeFingerTap, &p, &mut sink).unwrap();
    assert_eq!(d.command.as_deref(), Some("true"));
    let q = profile(false, &[("three_finger.tap", "cmd:true")]);
    let d = dispatch_gesture(&Gesture::ThreeFingerTap, &q, &mut sink).unwrap();
    assert!(d.command.is_none());
}
