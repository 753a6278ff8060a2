//! From a gesture to what is to be done: the binding key of the gesture,
//! the action bound to it, and the action's effect.

use crate::actions::ActionError;
use crate::actions::ActionErrorView;
use crate::actions::SinkEvent;
use crate::actions::SinkView;
use crate::actions::UinputSink;
use crate::config::action_kind;
use crate::config::bindings_view;
use crate::config::find_binding;
use crate::config::kind_of;
use crate::config::lookup;
use crate::config::ActionKind;
use crate::config::BindingView;
use crate::config::Profile;
use crate::gestures::Gesture;
use crate::text::after;
use crate::text::lower_is;
use crate::text::parse_i32;
use crate::text::parse_i32_chars;
use crate::text::slice;
use crate::text::split;
use crate::text::split_bounds;
use crate::text::to_chars;
use crate::text::to_lower;
use crate::text::trim;
use crate::text::trim_bounds;
use vstd::prelude::*;

verus! {

/// The dotted key under which a profile binds `g`.
pub open spec fn key_text(g: Gesture) -> Seq<char> {
    match g {
        Gesture::TwoFingerTap => "two_finger.tap"@,
        Gesture::TwoFingerSwipeUp => "two_finger.swipe_up"@,
        Gesture::TwoFingerSwipeDown => "two_finger.swipe_down"@,
        Gesture::TwoFingerSwipeLeft => "two_finger.swipe_left"@,
        Gesture::TwoFingerSwipeRight => "two_finger.swipe_right"@,
        Gesture::PinchScaleIn => "pinch.scale_in"@,
        Gesture::PinchScaleOut => "pinch.scale_out"@,
        Gesture::ThreeFingerTap => "three_finger.tap"@,
    }
}

/// Computes `key_text`.
pub fn binding_key(g: &Gesture) -> (k: &'static str)
    ensures
        k@ == key_text(*g),
{
    match g {
        Gesture::TwoFingerTap => "two_finger.tap",
        Gesture::TwoFingerSwipeUp => "two_finger.swipe_up",
        Gesture::TwoFingerSwipeDown => "two_finger.swipe_down",
        Gesture::TwoFingerSwipeLeft => "two_finger.swipe_left",
        Gesture::TwoFingerSwipeRight => "two_finger.swipe_right",
        Gesture::PinchScaleIn => "pinch.scale_in",
        Gesture::PinchScaleOut => "pinch.scale_out",
        Gesture::ThreeFingerTap => "three_finger.tap",
    }
}

/// What an action amounts to.
#[derive(Debug)]
pub struct Dispatch {
    /// The events to write to the virtual device, in order.
    pub events: Vec<SinkEvent>,
    /// Whether the action switched the sink on or off.
    pub toggled: bool,
    /// The shell command to run, if the action is one and the profile
    /// allows commands.
    pub command: Option<String>,
}

/// The mathematical content of a `Dispatch`.
pub struct DispatchView {
    pub events: Seq<SinkEvent>,
    pub toggled: bool,
    pub command: Option<Seq<char>>,
}

impl View for Dispatch {
    type V = DispatchView;

    open spec fn view(&self) -> DispatchView {
        DispatchView {
            events: self.events@,
            toggled: self.toggled,
            command: match self.command {
                Some(c) => Some(c@),
                None => None,
            },
        }
    }
}

impl DispatchView {
    /// Nothing is to be done.
    pub open spec fn nothing() -> DispatchView {
        DispatchView { events: Seq::empty(), toggled: false, command: None }
    }

    /// The events `events` are to be written.
    pub open spec fn emit(events: Seq<SinkEvent>) -> DispatchView {
        DispatchView { events, toggled: false, command: None }
    }
}

/// The axis that a scroll action names: what stands before the first `@`,
/// trimmed.
pub open spec fn scroll_axis(rest: Seq<char>) -> Seq<char> {
    trim(split(rest, '@')[0])
}

/// The steps that a scroll action asks for: the number after the first
/// `@`; one where there is none or it is no number.
pub open spec fn scroll_steps(rest: Seq<char>) -> i32 {
    if split(rest, '@').len() > 1 {
        match parse_i32(split(rest, '@')[1]) {
            Some(n) => n,
            None => 1,
        }
    } else {
        1
    }
}

/// Whether `axis` names the vertical axis, in any case.
pub open spec fn is_vertical(axis: Seq<char>) -> bool {
    to_lower(axis) == "vertical"@
}

/// What the sink's answer to a request amounts to.
pub open spec fn emitted(r: Result<Seq<SinkEvent>, ActionErrorView>) -> Result<
    DispatchView,
    ActionErrorView,
> {
    match r {
        Ok(ev) => Ok(DispatchView::emit(ev)),
        Err(e) => Err(e),
    }
}

/// The effect of the action `action`, bound to `key`, on a sink in state
/// `sink` under a profile that allows commands or not.
pub open spec fn perform(key: Seq<char>, action: Seq<char>, allow_commands: bool, sink: SinkView)
    -> Result<DispatchView, ActionErrorView> {
    match kind_of(action) {
        ActionKind::Noop => Ok(DispatchView::nothing()),
        ActionKind::Toggle => Ok(DispatchView { toggled: true, ..DispatchView::nothing() }),
        ActionKind::Mouse => emitted(sink.click(trim(after(action, 6)))),
        ActionKind::Scroll => if is_vertical(scroll_axis(after(action, 7))) {
            Ok(DispatchView::emit(sink.scroll(scroll_steps(after(action, 7)))))
        } else {
            Ok(DispatchView::nothing())
        },
        ActionKind::Key => emitted(sink.chord(trim(after(action, 4)))),
        ActionKind::Command => if allow_commands {
            Ok(DispatchView { command: Some(after(action, 4)), ..DispatchView::nothing() })
        } else {
            Ok(DispatchView::nothing())
        },
        ActionKind::Unknown => Err(ActionErrorView::UnknownAction { key, action }),
    }
}

/// The sink after the action `action`: a toggle switches it, anything else
/// leaves it as it is.
pub open spec fn sink_after(action: Seq<char>, sink: SinkView) -> SinkView {
    if kind_of(action) == ActionKind::Toggle {
        SinkView { enabled: !sink.enabled, ..sink }
    } else {
        sink
    }
}

/// The action that `bindings` binds to `g`; the empty action where they
/// bind none.
pub open spec fn bound_action(bindings: Seq<BindingView>, g: Gesture) -> Seq<char> {
    match lookup(bindings, key_text(g)) {
        Some(a) => a,
        None => Seq::empty(),
    }
}

/// Carries out the action `action`, bound to `key`.
pub fn perform_action(key: &str, action: &str, allow_commands: bool, sink: &mut UinputSink) -> (r:
    Result<Dispatch, ActionError>)
    ensures
        final(sink)@ == sink_after(action@, old(sink)@),
        match r {
            Ok(d) => perform(key@, action@, allow_commands, old(sink)@) == Ok::<
                DispatchView,
                ActionErrorView,
            >(d@),
            Err(e) => perform(key@, action@, allow_commands, old(sink)@) == Err::<
                DispatchView,
                ActionErrorView,
            >(e@),
        },
{
    let v = to_chars(action);
    let n = v.len();
    proof {
        reveal_strlit("mouse:");
        reveal_strlit("scroll:");
        reveal_strlit("key:");
        reveal_strlit("cmd:");
    }
    match action_kind(action) {
        ActionKind::Noop => Ok(Dispatch { events: Vec::new(), toggled: false, command: None }),
        ActionKind::Toggle => {
            let en = sink.is_enabled();
            sink.set_enabled(!en);
            Ok(Dispatch { events: Vec::new(), toggled: true, command: None })
        },
        ActionKind::Mouse => {
            let (a, b) = trim_bounds(&v, 6, n);
            let which = slice(action, a, b);
            match sink.click_mouse(which.as_str()) {
                Ok(events) => Ok(Dispatch { events, toggled: false, command: None }),
                Err(e) => Err(e),
            }
        },
        ActionKind::Scroll => {
            let parts = split_bounds(&v, 7, n, '@');
            let (a, b) = trim_bounds(&v, parts[0].0, parts[0].1);
            let steps: i32 = if parts.len() > 1 {
                match parse_i32_chars(&v, parts[1].0, parts[1].1) {
                    Some(k) => k,
                    None => 1,
                }
            } else {
                1
            };
            if lower_is(&v, a, b, "vertical") {
                Ok(
                    Dispatch {
                        events: sink.scroll_vertical(steps),
                        toggled: false,
                        command: None,
                    },
                )
            } else {
                Ok(Dispatch { events: Vec::new(), toggled: false, command: None })
            }
        },
        ActionKind::Key => {
            let (a, b) = trim_bounds(&v, 4, n);
            let chord = slice(action, a, b);
            match sink.key_chord(chord.as_str()) {
                Ok(events) => Ok(Dispatch { events, toggled: false, command: None }),
                Err(e) => Err(e),
            }
        },
        ActionKind::Command => {
            if allow_commands {
                Ok(
                    Dispatch {
                        events: Vec::new(),
                        toggled: false,
                        command: Some(slice(action, 4, n)),
                    },
                )
            } else {
                Ok(Dispatch { events: Vec::new(), toggled: false, command: None })
            }
        },
        ActionKind::Unknown => Err(
            ActionError::UnknownAction { key: key.to_owned(), action: action.to_owned() },
        ),
    }
}

/// Carries out what `profile` binds to the gesture `g`: looks up the action
/// under the gesture's key and performs it on `sink`. A gesture that is not
/// bound does nothing.
pub fn dispatch_gesture(g: &Gesture, profile: &Profile, sink: &mut UinputSink) -> (r: Result<
    Dispatch,
    ActionError,
>)
    ensures
        final(sink)@ == sink_after(bound_action(bindings_view(profile.bindings@), *g), old(sink)@),
        match r {
            Ok(d) => perform(
                key_text(*g),
                bound_action(bindings_view(profile.bindings@), *g),
                profile.meta.allow_commands,
                old(sink)@,
            ) == Ok::<DispatchView, ActionErrorView>(d@),
            Err(e) => perform(
                key_text(*g),
                bound_action(bindings_view(profile.bindings@), *g),
                profile.meta.allow_commands,
                old(sink)@,
            ) == Err::<DispatchView, ActionErrorView>(e@),
        },
{
    let key = binding_key(g);
    match find_binding(&profile.bindings, key) {
        Some(action) => perform_action(key, action.as_str(), profile.meta.allow_commands, sink),
        None => {
            proof {
                reveal_strlit("");
            }
            perform_action(key, "", profile.meta.allow_commands, sink)
        },
    }
}

} // verus!
