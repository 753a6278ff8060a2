//! The inbound side: raw events of the multitouch slot protocol and the
//! choice of the devices that speak it.

use crate::text::has_prefix;
use crate::text::starts_with;
use crate::text::to_chars;
use crate::tracker::TouchEvent;
use vstd::prelude::*;
use vstd::string::StringExecFns;

verus! {

/// The event class of synchronization events.
pub const EV_SYN: u16 = 0x00;

/// The event class of absolute-axis events.
pub const EV_ABS: u16 = 0x03;

/// The synchronization code that ends a report.
pub const SYN_REPORT: u16 = 0x00;

/// The absolute axis that selects the touch slot.
pub const ABS_MT_SLOT: u16 = 0x2f;

/// The absolute axis of a touch's horizontal position.
pub const ABS_MT_POSITION_X: u16 = 0x35;

/// The absolute axis of a touch's vertical position.
pub const ABS_MT_POSITION_Y: u16 = 0x36;

/// The absolute axis of a touch's tracking id.
pub const ABS_MT_TRACKING_ID: u16 = 0x39;

/// One event as a device delivers it: its class, its code within the
/// class, and its value.
#[derive(Debug, Clone, Copy, PartialEq, Eq, Structural)]
pub struct RawEvent {
    pub class: u16,
    pub code: u16,
    pub value: i32,
}

/// The event of the slot protocol that `ev` is, if it is one: an absolute
/// event on one of the four multitouch axes, or a sync report.
pub open spec fn decoded(ev: RawEvent) -> Option<TouchEvent> {
    if ev.class == EV_ABS {
        if ev.code == ABS_MT_SLOT {
            Some(TouchEvent::Slot(ev.value))
        } else if ev.code == ABS_MT_TRACKING_ID {
            Some(TouchEvent::TrackingId(ev.value))
        } else if ev.code == ABS_MT_POSITION_X {
            Some(TouchEvent::PosX(ev.value))
        } else if ev.code == ABS_MT_POSITION_Y {
            Some(TouchEvent::PosY(ev.value))
        } else {
            None
        }
    } else if ev.class == EV_SYN && ev.code == SYN_REPORT {
        Some(TouchEvent::SynReport)
    } else {
        None
    }
}

/// Computes `decoded`.
pub fn decode(ev: &RawEvent) -> (r: Option<TouchEvent>)
    ensures
        r == decoded(*ev),
{
    if ev.class == EV_ABS {
        if ev.code == ABS_MT_SLOT {
            Some(TouchEvent::Slot(ev.value))
        } else if ev.code == ABS_MT_TRACKING_ID {
            Some(TouchEvent::TrackingId(ev.value))
        } else if ev.code == ABS_MT_POSITION_X {
            Some(TouchEvent::PosX(ev.value))
        } else if ev.code == ABS_MT_POSITION_Y {
            Some(TouchEvent::PosY(ev.value))
        } else {
            None
        }
    } else if ev.class == EV_SYN && ev.code == SYN_REPORT {
        Some(TouchEvent::SynReport)
    } else {
        None
    }
}

/// A multitouch device: where it is and what it calls itself.
#[derive(Debug, Clone)]
pub struct DeviceInfo {
    pub path: String,
    pub name: String,
}

/// The mathematical content of a `DeviceInfo`.
pub struct DeviceInfoView {
    pub path: Seq<char>,
    pub name: Seq<char>,
}

impl View for DeviceInfo {
    type V = DeviceInfoView;

    open spec fn view(&self) -> DeviceInfoView {
        DeviceInfoView { path: self.path@, name: self.name@ }
    }
}

/// Which of the three multitouch axes a device reports.
#[derive(Debug, Clone, Copy, PartialEq, Eq, Structural)]
pub struct MtAxes {
    pub slot: bool,
    pub position_x: bool,
    pub position_y: bool,
}

/// What opening a device showed of it.
#[derive(Debug)]
pub struct Capabilities {
    /// The device's name, if it has one.
    pub name: Option<String>,
    /// Whether the device reports absolute-axis events.
    pub absolute: bool,
    /// The device's multitouch axes, if it has an absolute-axis set.
    pub axes: Option<MtAxes>,
}

/// One entry of the input directory.
#[derive(Debug)]
pub struct Probe {
    /// The entry's path.
    pub path: String,
    /// The entry's file name, if it is text.
    pub file_name: Option<String>,
    /// What opening the entry showed, if it could be opened.
    pub caps: Option<Capabilities>,
}

/// Whether an entry with this file name is an event device.
pub open spec fn event_node(file_name: Seq<char>) -> bool {
    has_prefix(file_name, "event"@)
}

impl Capabilities {
    /// Whether the device speaks the multitouch slot protocol: it reports
    /// absolute events and has all three multitouch axes.
    pub open spec fn multitouch(&self) -> bool {
        &&& self.absolute
        &&& self.axes is Some
        &&& self.axes->0.slot
        &&& self.axes->0.position_x
        &&& self.axes->0.position_y
    }

    /// The device's name; `unknown` where it has none.
    pub open spec fn shown_name(&self) -> Seq<char> {
        match self.name {
            Some(n) => n@,
            None => "unknown"@,
        }
    }
}

impl Probe {
    /// Whether the entry is an event device that could be opened and speaks
    /// the multitouch slot protocol.
    pub open spec fn qualifies(&self) -> bool {
        &&& self.file_name is Some
        &&& event_node(self.file_name->0@)
        &&& self.caps is Some
        &&& self.caps->0.multitouch()
    }

    /// The record of a qualifying entry.
    pub open spec fn info(&self) -> DeviceInfoView {
        DeviceInfoView { path: self.path@, name: self.caps->0.shown_name() }
    }
}

/// The records of the qualifying entries among the first `n` of `probes`,
/// in order.
pub open spec fn selected(probes: Seq<Probe>, n: int) -> Seq<DeviceInfoView>
    decreases n,
{
    if n <= 0 {
        Seq::empty()
    } else if probes[n - 1].qualifies() {
        selected(probes, n - 1).push(probes[n - 1].info())
    } else {
        selected(probes, n - 1)
    }
}

/// The views of the records of `v`, in order.
pub open spec fn infos_view(v: Seq<DeviceInfo>) -> Seq<DeviceInfoView> {
    Seq::new(v.len(), |k: int| v[k]@)
}

/// The line that shows a device to the user: its name, then its path in
/// round brackets.
pub open spec fn label_of(d: DeviceInfoView) -> Seq<char> {
    d.name + " ("@ + d.path + ")"@
}

/// Whether a directory entry with this file name is an event device.
pub fn is_event_node(file_name: &str) -> (b: bool)
    ensures
        b == event_node(file_name@),
{
    let v = to_chars(file_name);
    starts_with(&v, "event")
}

/// Whether what opening a device showed makes it a multitouch device.
pub fn is_multitouch(caps: &Capabilities) -> (b: bool)
    ensures
        b == caps.multitouch(),
{
    caps.absolute && match caps.axes {
        Some(a) => a.slot && a.position_x && a.position_y,
        None => false,
    }
}

/// Picks the multitouch devices among the entries of the input directory:
/// those named `event*` that could be opened, report absolute events and
/// have the slot axis and both position axes. The others are skipped.
pub fn discover_multitouch(probes: &Vec<Probe>) -> (out: Vec<DeviceInfo>)
    ensures
        infos_view(out@) == selected(probes@, probes.len() as int),
{
    let mut out: Vec<DeviceInfo> = Vec::new();
    let mut i: usize = 0;
    assert(infos_view(out@) =~= selected(probes@, 0));
    while i < probes.len()
        invariant
            i <= probes.len(),
            infos_view(out@) == selected(probes@, i as int),
        decreases probes.len() - i,
    {
        let p = &probes[i];
        let ghost before = infos_view(out@);
        let named = match &p.file_name {
            Some(f) => is_event_node(f.as_str()),
            None => false,
        };
        if named {
            match &p.caps {
                Some(caps) => {
                    if is_multitouch(caps) {
                        let name = match &caps.name {
                            Some(n) => n.clone(),
                            None => String::from_str("unknown"),
                        };
                        out.push(DeviceInfo { path: p.path.clone(), name });
                        assert(infos_view(out@) =~= before.push(p.info()));
                    }
                },
                None => {},
            }
        }
        i += 1;
    }
    out
}

/// The line that shows a device to the user.
pub fn device_label(d: &DeviceInfo) -> (s: String)
    ensures
        s@ == label_of(d@),
{
    let mut s = d.name.clone();
    s.append(" (");
    s.append(d.path.as_str());
    s.append(")");
    s
}

} // verus!
