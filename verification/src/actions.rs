//! The virtual-input sink: which device events an action amounts to.
//!
//! The sink decides; writing the events to the virtual device is left to
//! the caller. A click is press, sync, release, sync. A chord presses its
//! keys in order, syncs, releases them in reverse order and syncs again. A
//! scroll is one wheel event and a sync.

use crate::text::lower_is;
use crate::text::slice;
use crate::text::split;
use crate::text::split_bounds;
use crate::text::to_chars;
use crate::text::to_lower;
use crate::text::to_upper;
use crate::text::trim;
use crate::text::trim_bounds;
use crate::text::upper_is;
use vstd::prelude::*;

verus! {

/// The name of the virtual input device.
pub const VIRTUAL_DEVICE_NAME: &'static str = "Touchctl Virtual Input";

/// A mouse button of the virtual device.
#[derive(Debug, Clone, Copy, PartialEq, Eq, Structural)]
pub enum MouseButton {
    Left,
    Right,
    Middle,
}

/// A key of the virtual device.
#[derive(Debug, Clone, Copy, PartialEq, Eq, Structural)]
pub enum Key {
    LeftControl,
    LeftAlt,
    LeftShift,
    LeftMeta,
    Tab,
    Minus,
    Equal,
}

/// One event to write to the virtual device.
#[derive(Debug, Clone, Copy, PartialEq, Eq, Structural)]
pub enum SinkEvent {
    /// A mouse button goes down (`true`) or up (`false`).
    Button(MouseButton, bool),
    /// A key goes down (`true`) or up (`false`).
    Key(Key, bool),
    /// The vertical wheel turns by the given steps.
    Wheel(i32),
    /// The events so far belong together.
    Sync,
}

/// Something that the virtual device can report.
#[derive(Debug, Clone, Copy, PartialEq, Eq, Structural)]
pub enum Capability {
    RelativeX,
    RelativeY,
    WheelVertical,
    WheelHorizontal,
    Button(MouseButton),
    Key(Key),
}

/// What the virtual device is made with: both relative axes, both wheels,
/// the three mouse buttons and the seven keys of the chords.
pub open spec fn device_capabilities() -> Seq<Capability> {
    seq![
        Capability::RelativeX,
        Capability::RelativeY,
        Capability::WheelVertical,
        Capability::WheelHorizontal,
        Capability::Button(MouseButton::Left),
        Capability::Button(MouseButton::Right),
        Capability::Button(MouseButton::Middle),
        Capability::Key(Key::LeftControl),
        Capability::Key(Key::LeftAlt),
        Capability::Key(Key::LeftShift),
        Capability::Key(Key::LeftMeta),
        Capability::Key(Key::Tab),
        Capability::Key(Key::Minus),
        Capability::Key(Key::Equal),
    ]
}

/// What the virtual device must be able to report for `ev` to be written
/// to it; a sync needs nothing.
pub open spec fn needs(ev: SinkEvent) -> Option<Capability> {
    match ev {
        SinkEvent::Button(b, _) => Some(Capability::Button(b)),
        SinkEvent::Key(k, _) => Some(Capability::Key(k)),
        SinkEvent::Wheel(_) => Some(Capability::WheelVertical),
        SinkEvent::Sync => None,
    }
}

/// The virtual device can report whatever an event needs.
pub proof fn lemma_device_covers(ev: SinkEvent)
    ensures
        needs(ev) is Some ==> device_capabilities().contains(needs(ev)->0),
{
    let caps = device_capabilities();
    match ev {
        SinkEvent::Button(b, _) => {
            match b {
                MouseButton::Left => assert(caps[4] == Capability::Button(b)),
                MouseButton::Right => assert(caps[5] == Capability::Button(b)),
                MouseButton::Middle => assert(caps[6] == Capability::Button(b)),
            }
        },
        SinkEvent::Key(k, _) => {
            match k {
                Key::LeftControl => assert(caps[7] == Capability::Key(k)),
                Key::LeftAlt => assert(caps[8] == Capability::Key(k)),
                Key::LeftShift => assert(caps[9] == Capability::Key(k)),
                Key::LeftMeta => assert(caps[10] == Capability::Key(k)),
                Key::Tab => assert(caps[11] == Capability::Key(k)),
                Key::Minus => assert(caps[12] == Capability::Key(k)),
                Key::Equal => assert(caps[13] == Capability::Key(k)),
            }
        },
        SinkEvent::Wheel(_) => {
            assert(caps[2] == Capability::WheelVertical);
        },
        SinkEvent::Sync => {},
    }
}

/// Why an action could not be turned into events.
#[derive(Debug)]
pub enum ActionError {
    /// The text names no mouse button.
    UnknownButton(String),
    /// The text names no key that the virtual device has.
    UnsupportedKey(String),
    /// The action bound to `key` fits no form of the action grammar.
    UnknownAction { key: String, action: String },
}

/// The mathematical content of an `ActionError`.
pub enum ActionErrorView {
    UnknownButton(Seq<char>),
    UnsupportedKey(Seq<char>),
    UnknownAction { key: Seq<char>, action: Seq<char> },
}

impl View for ActionError {
    type V = ActionErrorView;

    open spec fn view(&self) -> ActionErrorView {
        match self {
            ActionError::UnknownButton(s) => ActionErrorView::UnknownButton(s@),
            ActionError::UnsupportedKey(s) => ActionErrorView::UnsupportedKey(s@),
            ActionError::UnknownAction { key, action } => ActionErrorView::UnknownAction {
                key: key@,
                action: action@,
            },
        }
    }
}

/// The mouse button that `name` names, whatever the case of its letters.
pub open spec fn button_of(name: Seq<char>) -> Option<MouseButton> {
    let n = to_lower(name);
    if n == "left"@ {
        Some(MouseButton::Left)
    } else if n == "right"@ {
        Some(MouseButton::Right)
    } else if n == "middle"@ {
        Some(MouseButton::Middle)
    } else {
        None
    }
}

/// The key that the token `tok` names, whatever the case of its letters.
pub open spec fn key_of(tok: Seq<char>) -> Option<Key> {
    let t = to_upper(tok);
    if t == "CTRL"@ || t == "CONTROL"@ {
        Some(Key::LeftControl)
    } else if t == "ALT"@ {
        Some(Key::LeftAlt)
    } else if t == "SHIFT"@ {
        Some(Key::LeftShift)
    } else if t == "SUPER"@ || t == "META"@ || t == "WIN"@ {
        Some(Key::LeftMeta)
    } else if t == "TAB"@ {
        Some(Key::Tab)
    } else if t == "MINUS"@ || t == "-"@ {
        Some(Key::Minus)
    } else if t == "EQUAL"@ || t == "="@ {
        Some(Key::Equal)
    } else {
        None
    }
}

/// The events of one click of `b`.
pub open spec fn click_events(b: MouseButton) -> Seq<SinkEvent> {
    seq![SinkEvent::Button(b, true), SinkEvent::Sync, SinkEvent::Button(b, false), SinkEvent::Sync]
}

/// The events of a turn of the wheel by `steps`.
pub open spec fn wheel_events(steps: i32) -> Seq<SinkEvent> {
    seq![SinkEvent::Wheel(steps), SinkEvent::Sync]
}

/// The events of a chord of `keys`: all down in order, then all up in
/// reverse order.
pub open spec fn chord_events(keys: Seq<Key>) -> Seq<SinkEvent> {
    Seq::new(keys.len(), |k: int| SinkEvent::Key(keys[k], true)).push(SinkEvent::Sync) + Seq::new(
        keys.len(),
        |k: int| SinkEvent::Key(keys[keys.len() - 1 - k], false),
    ).push(SinkEvent::Sync)
}

/// The tokens of a chord: the pieces between its plus signs, each trimmed.
pub open spec fn chord_tokens(chord: Seq<char>) -> Seq<Seq<char>> {
    Seq::new(split(chord, '+').len(), |k: int| trim(split(chord, '+')[k]))
}

/// Whether every token names a key.
pub open spec fn all_keys(tokens: Seq<Seq<char>>) -> bool {
    forall|k: int| 0 <= k < tokens.len() ==> key_of(#[trigger] tokens[k]) is Some
}

/// Whether token `i` is the first that names no key.
pub open spec fn first_unknown(tokens: Seq<Seq<char>>, i: int) -> bool {
    &&& 0 <= i < tokens.len()
    &&& key_of(tokens[i]) is None
    &&& forall|k: int| 0 <= k < i ==> key_of(#[trigger] tokens[k]) is Some
}

/// The keys that the tokens name.
pub open spec fn keys_of(tokens: Seq<Seq<char>>) -> Seq<Key> {
    Seq::new(tokens.len(), |k: int| key_of(tokens[k])->0)
}

/// The index of the first token that names no key, where there is one.
pub open spec fn unknown_index(tokens: Seq<Seq<char>>) -> int {
    choose|i: int| first_unknown(tokens, i)
}

/// The events of the chord that `chord` writes, or its first token that
/// names no key.
pub open spec fn chord_result(chord: Seq<char>) -> Result<Seq<SinkEvent>, ActionErrorView> {
    let tokens = chord_tokens(chord);
    if all_keys(tokens) {
        Ok(chord_events(keys_of(tokens)))
    } else {
        Err(ActionErrorView::UnsupportedKey(tokens[unknown_index(tokens)]))
    }
}

/// Only one token is the first that names no key.
pub proof fn lemma_first_unknown(tokens: Seq<Seq<char>>, i: int)
    requires
        first_unknown(tokens, i),
    ensures
        !all_keys(tokens),
        unknown_index(tokens) == i,
{
    let j = unknown_index(tokens);
    assert(first_unknown(tokens, j));
    if j < i {
        assert(key_of(tokens[j]) is Some);
    } else if i < j {
        assert(key_of(tokens[i]) is Some);
    }
}

/// The mathematical content of a `UinputSink`.
pub struct SinkView {
    /// Whether the sink passes events on.
    pub enabled: bool,
    /// Whether a virtual device stands behind the sink.
    pub attached: bool,
}

impl SinkView {
    /// Whether events reach a device.
    pub open spec fn live(self) -> bool {
        self.enabled && self.attached
    }

    /// What a click of the button named `which` gives.
    pub open spec fn click(self, which: Seq<char>) -> Result<Seq<SinkEvent>, ActionErrorView> {
        if !self.live() {
            Ok(Seq::empty())
        } else {
            match button_of(which) {
                Some(b) => Ok(click_events(b)),
                None => Err(ActionErrorView::UnknownButton(which)),
            }
        }
    }

    /// What the chord that `chord` writes gives.
    pub open spec fn chord(self, chord: Seq<char>) -> Result<Seq<SinkEvent>, ActionErrorView> {
        if !self.live() {
            Ok(Seq::empty())
        } else {
            chord_result(chord)
        }
    }

    /// What a turn of the wheel by `steps` gives.
    pub open spec fn scroll(self, steps: i32) -> Seq<SinkEvent> {
        if self.live() {
            wheel_events(steps)
        } else {
            Seq::empty()
        }
    }
}

/// Decides which events reach the virtual input device.
#[derive(Debug)]
pub struct UinputSink {
    enabled: bool,
    attached: bool,
}

impl View for UinputSink {
    type V = SinkView;

    closed spec fn view(&self) -> SinkView {
        SinkView { enabled: self.enabled, attached: self.attached }
    }
}

impl UinputSink {
    /// An enabled sink; `attached` says whether a virtual device stands
    /// behind it.
    pub fn new(attached: bool) -> (s: UinputSink)
        ensures
            s@ == (SinkView { enabled: true, attached }),
    {
        UinputSink { enabled: true, attached }
    }

    /// An enabled sink without a device: every action gives no events.
    pub fn noop() -> (s: UinputSink)
        ensures
            s@ == (SinkView { enabled: true, attached: false }),
    {
        UinputSink { enabled: true, attached: false }
    }

    /// Whether the sink passes events on.
    pub fn is_enabled(&self) -> (b: bool)
        ensures
            b == self@.enabled,
    {
        self.enabled
    }

    /// Whether a virtual device stands behind the sink.
    pub fn is_attached(&self) -> (b: bool)
        ensures
            b == self@.attached,
    {
        self.attached
    }

    /// Switches the sink on or off.
    pub fn set_enabled(&mut self, en: bool)
        ensures
            final(self)@ == (SinkView { enabled: en, ..old(self)@ }),
    {
        self.enabled = en;
    }

    /// The events of a click of the right button.
    pub fn click_right(&self) -> (r: Vec<SinkEvent>)
        ensures
            r@ == if self@.live() {
                click_events(MouseButton::Right)
            } else {
                Seq::empty()
            },
    {
        if !self.enabled || !self.attached {
            return Vec::new();
        }
        click_of(MouseButton::Right)
    }

    /// The events of a turn of the vertical wheel by `steps`.
    pub fn scroll_vertical(&self, steps: i32) -> (r: Vec<SinkEvent>)
        ensures
            r@ == self@.scroll(steps),
    {
        if !self.enabled || !self.attached {
            return Vec::new();
        }
        let mut r: Vec<SinkEvent> = Vec::new();
        r.push(SinkEvent::Wheel(steps));
        r.push(SinkEvent::Sync);
        assert(r@ =~= wheel_events(steps));
        r
    }

    /// The events of a click of the button that `which` names: `left`,
    /// `right` or `middle`, in any case. A sink that is off or has no device
    /// gives no events and does not look at the name.
    pub fn click_mouse(&self, which: &str) -> (r: Result<Vec<SinkEvent>, ActionError>)
        ensures
            match r {
                Ok(ev) => self@.click(which@) == Ok::<Seq<SinkEvent>, ActionErrorView>(ev@),
                Err(e) => self@.click(which@) == Err::<Seq<SinkEvent>, ActionErrorView>(e@),
            },
    {
        if !self.enabled || !self.attached {
            return Ok(Vec::new());
        }
        let v = to_chars(which);
        assert(v@.subrange(0, v.len() as int) == v@);
        match parse_button(&v, 0, v.len()) {
            Some(b) => Ok(click_of(b)),
            None => Err(ActionError::UnknownButton(which.to_owned())),
        }
    }

    /// The events of the chord that `chord` writes: key tokens joined by
    /// plus signs, such as `CTRL+EQUAL` or `TAB`. The first token that names
    /// no key is the error. A sink that is off or has no device gives no
    /// events and does not look at the chord.
    pub fn key_chord(&self, chord: &str) -> (r: Result<Vec<SinkEvent>, ActionError>)
        ensures
            match r {
                Ok(ev) => self@.chord(chord@) == Ok::<Seq<SinkEvent>, ActionErrorView>(ev@),
                Err(e) => self@.chord(chord@) == Err::<Seq<SinkEvent>, ActionErrorView>(e@),
            },
            !self@.live() ==> r is Ok && r->Ok_0@ == Seq::<SinkEvent>::empty(),
            self@.live() ==> match r {
                Ok(ev) => all_keys(chord_tokens(chord@)) && ev@ == chord_events(
                    keys_of(chord_tokens(chord@)),
                ),
                Err(e) => exists|i: int|
                    first_unknown(chord_tokens(chord@), i) && e@
                        == ActionErrorView::UnsupportedKey(#[trigger] chord_tokens(chord@)[i]),
            },
    {
        if !self.enabled || !self.attached {
            return Ok(Vec::new());
        }
        let v = to_chars(chord);
        assert(v@.subrange(0, v.len() as int) == v@);
        let parts = split_bounds(&v, 0, v.len(), '+');
        let ghost tokens = chord_tokens(chord@);
        let mut keys: Vec<Key> = Vec::new();
        let mut i: usize = 0;
        while i < parts.len()
            invariant
                i <= parts.len(),
                self@.live(),
                v@ == chord@,
                tokens == chord_tokens(chord@),
                parts.len() == split(chord@, '+').len(),
                forall|k: int|
                    0 <= k < parts.len() ==> {
                        &&& 0 <= (#[trigger] parts[k]).0 <= parts[k].1 <= v.len()
                        &&& v@.subrange(parts[k].0 as int, parts[k].1 as int) == split(
                            chord@,
                            '+',
                        )[k]
                    },
                keys.len() == i,
                forall|k: int| 0 <= k < i ==> key_of(#[trigger] tokens[k]) == Some(keys[k]),
            decreases parts.len() - i,
        {
            let (a, b) = parts[i];
            let (ta, tb) = trim_bounds(&v, a, b);
            assert(v@.subrange(ta as int, tb as int) == tokens[i as int]);
            match parse_key(&v, ta, tb) {
                Some(key) => {
                    keys.push(key);
                },
                None => {
                    assert(first_unknown(tokens, i as int));
                    proof {
                        lemma_first_unknown(tokens, i as int);
                    }
                    assert(chord@.subrange(ta as int, tb as int) == tokens[i as int]);
                    return Err(ActionError::UnsupportedKey(slice(chord, ta, tb)));
                },
            }
            i += 1;
        }
        assert(keys@ =~= keys_of(tokens));
        Ok(chord_of(&keys))
    }
}

/// What the virtual device is made with.
pub fn virtual_device_capabilities() -> (caps: Vec<Capability>)
    ensures
        caps@ == device_capabilities(),
{
    let mut caps: Vec<Capability> = Vec::new();
    caps.push(Capability::RelativeX);
    caps.push(Capability::RelativeY);
    caps.push(Capability::WheelVertical);
    caps.push(Capability::WheelHorizontal);
    caps.push(Capability::Button(MouseButton::Left));
    caps.push(Capability::Button(MouseButton::Right));
    caps.push(Capability::Button(MouseButton::Middle));
    caps.push(Capability::Key(Key::LeftControl));
    caps.push(Capability::Key(Key::LeftAlt));
    caps.push(Capability::Key(Key::LeftShift));
    caps.push(Capability::Key(Key::LeftMeta));
    caps.push(Capability::Key(Key::Tab));
    caps.push(Capability::Key(Key::Minus));
    caps.push(Capability::Key(Key::Equal));
    assert(caps@ =~= device_capabilities());
    caps
}

/// The events of one click of `b`.
fn click_of(b: MouseButton) -> (r: Vec<SinkEvent>)
    ensures
        r@ == click_events(b),
{
    let mut r: Vec<SinkEvent> = Vec::new();
    r.push(SinkEvent::Button(b, true));
    r.push(SinkEvent::Sync);
    r.push(SinkEvent::Button(b, false));
    r.push(SinkEvent::Sync);
    assert(r@ =~= click_events(b));
    r
}

/// The events of a chord of `keys`.
fn chord_of(keys: &Vec<Key>) -> (r: Vec<SinkEvent>)
    ensures
        r@ == chord_events(keys@),
{
    let n = keys.len();
    let mut r: Vec<SinkEvent> = Vec::new();
    let mut i: usize = 0;
    while i < n
        invariant
            i <= n,
            n == keys.len(),
            r.len() == i,
            forall|k: int| 0 <= k < i ==> r[k] == SinkEvent::Key(keys[k], true),
        decreases n - i,
    {
        r.push(SinkEvent::Key(keys[i], true));
        i += 1;
    }
    r.push(SinkEvent::Sync);
    let mut j: usize = 0;
    while j < n
        invariant
            j <= n,
            n == keys.len(),
            r.len() == n + 1 + j,
            forall|k: int| 0 <= k < n ==> r[k] == SinkEvent::Key(keys[k], true),
            r[n as int] == SinkEvent::Sync,
            forall|m: int|
                n + 1 <= m < n + 1 + j ==> #[trigger] r[m] == SinkEvent::Key(
                    keys[2 * n - m],
                    false,
                ),
        decreases n - j,
    {
        r.push(SinkEvent::Key(keys[n - 1 - j], false));
        j += 1;
    }
    r.push(SinkEvent::Sync);
    assert(r@ =~= chord_events(keys@));
    r
}

/// Reads a mouse button from the characters of `v` from `from` to `to`.
pub fn parse_button(v: &Vec<char>, from: usize, to: usize) -> (r: Option<MouseButton>)
    requires
        from <= to <= v.len(),
    ensures
        r == button_of(v@.subrange(from as int, to as int)),
{
    if lower_is(v, from, to, "left") {
        Some(MouseButton::Left)
    } else if lower_is(v, from, to, "right") {
        Some(MouseButton::Right)
    } else if lower_is(v, from, to, "middle") {
        Some(MouseButton::Middle)
    } else {
        None
    }
}

/// Reads a key token from the characters of `v` from `from` to `to`.
pub fn parse_key(v: &Vec<char>, from: usize, to: usize) -> (r: Option<Key>)
    requires
        from <= to <= v.len(),
    ensures
        r == key_of(v@.subrange(from as int, to as int)),
{
    if upper_is(v, from, to, "CTRL") || upper_is(v, from, to, "CONTROL") {
        Some(Key::LeftControl)
    } else if upper_is(v, from, to, "ALT") {
        Some(Key::LeftAlt)
    } else if upper_is(v, from, to, "SHIFT") {
        Some(Key::LeftShift)
    } else if upper_is(v, from, to, "SUPER") || upper_is(v, from, to, "META") || upper_is(
        v,
        from,
        to,
        "WIN",
    ) {
        Some(Key::LeftMeta)
    } else if upper_is(v, from, to, "TAB") {
        Some(Key::Tab)
    } else if upper_is(v, from, to, "MINUS") || upper_is(v, from, to, "-") {
        Some(Key::Minus)
    } else if upper_is(v, from, to, "EQUAL") || upper_is(v, from, to, "=") {
        Some(Key::Equal)
    } else {
        None
    }
}

} // verus!
