//! Grab arbitration: when the daemon owns the touch devices.
//!
//! With two or more fingers down the devices are grabbed, so that nothing
//! else reacts to the touches; with fewer they are released. The decision
//! follows the most recent frame of a tick and is carried out once, after
//! the tick's events have been processed.

use vstd::prelude::*;

verus! {

/// A change of device ownership.
#[derive(Debug, Clone, Copy, PartialEq, Eq, Structural)]
pub enum GrabAction {
    /// Take exclusive ownership of every opened device.
    Grab,
    /// Give the devices back.
    Release,
}

/// Whether a frame with `active_count` fingers asks for the grab.
pub open spec fn wants_grab(active_count: int) -> bool {
    active_count >= 2
}

/// The mathematical content of a `GrabArbiter`.
pub struct GrabView {
    pub grabbed: bool,
    /// What the most recent frame of the tick under way asks for.
    pub want: Option<bool>,
}

impl GrabView {
    /// The arbiter after a frame with `active_count` fingers.
    pub open spec fn observed(self, active_count: int) -> GrabView {
        GrabView { want: Some(wants_grab(active_count)), ..self }
    }

    /// The arbiter after the frames of a tick, given by their finger counts.
    pub open spec fn observed_all(self, counts: Seq<int>) -> GrabView
        decreases counts.len(),
    {
        if counts.len() == 0 {
            self
        } else {
            self.observed_all(counts.drop_last()).observed(counts.last())
        }
    }

    /// The transition that ends the tick, if any.
    pub open spec fn transition(self) -> Option<GrabAction> {
        match self.want {
            Some(w) => if w && !self.grabbed {
                Some(GrabAction::Grab)
            } else if !w && self.grabbed {
                Some(GrabAction::Release)
            } else {
                None
            },
            None => None,
        }
    }

    /// The arbiter once the tick has ended.
    pub open spec fn settled(self) -> GrabView {
        GrabView {
            grabbed: match self.want {
                Some(w) => w,
                None => self.grabbed,
            },
            want: None,
        }
    }

    /// The transition that lets go of the devices at the end of the run, if
    /// they are grabbed.
    pub open spec fn letting_go(self) -> Option<GrabAction> {
        if self.grabbed {
            Some(GrabAction::Release)
        } else {
            None
        }
    }

    /// The arbiter after a whole tick with the given frames.
    pub open spec fn after_tick(self, counts: Seq<int>) -> GrabView {
        self.observed_all(counts).settled()
    }

    /// The arbiter after the given ticks, in order.
    pub open spec fn after_ticks(self, ticks: Seq<Seq<int>>) -> GrabView
        decreases ticks.len(),
    {
        if ticks.len() == 0 {
            self
        } else {
            self.after_ticks(ticks.drop_last()).after_tick(ticks.last())
        }
    }
}

/// The finger count of the last frame of the given ticks, if they hold any
/// frame.
pub open spec fn last_count(ticks: Seq<Seq<int>>) -> Option<int>
    decreases ticks.len(),
{
    if ticks.len() == 0 {
        None
    } else if ticks.last().len() > 0 {
        Some(ticks.last().last())
    } else {
        last_count(ticks.drop_last())
    }
}

/// The frames of a tick leave the grab as it is and record what the last of
/// them asks for.
pub proof fn lemma_observed_all(g: GrabView, counts: Seq<int>)
    ensures
        g.observed_all(counts).grabbed == g.grabbed,
        counts.len() == 0 ==> g.observed_all(counts) == g,
        counts.len() > 0 ==> g.observed_all(counts).want == Some(wants_grab(counts.last())),
    decreases counts.len(),
{
    if counts.len() > 0 {
        lemma_observed_all(g, counts.drop_last());
    }
}

/// After any number of ticks that began with nothing pending, the devices
/// are grabbed exactly if the last frame showed two or more fingers; with
/// no frame at all the grab is as it was.
pub proof fn lemma_grab_follows_last_frame(g: GrabView, ticks: Seq<Seq<int>>)
    requires
        g.want is None,
    ensures
        g.after_ticks(ticks).want is None,
        match last_count(ticks) {
            Some(c) => g.after_ticks(ticks).grabbed == wants_grab(c),
            None => g.after_ticks(ticks).grabbed == g.grabbed,
        },
    decreases ticks.len(),
{
    if ticks.len() > 0 {
        lemma_grab_follows_last_frame(g, ticks.drop_last());
        lemma_observed_all(g.after_ticks(ticks.drop_last()), ticks.last());
    }
}

/// A tick changes the grab exactly if it ends with a transition, and then
/// the transition says which way.
pub proof fn lemma_transition_matches_change(g: GrabView)
    ensures
        g.transition() is None <==> g.settled().grabbed == g.grabbed,
        g.transition() == Some(GrabAction::Grab) <==> !g.grabbed && g.settled().grabbed,
        g.transition() == Some(GrabAction::Release) <==> g.grabbed && !g.settled().grabbed,
{
}

/// Decides when the touch devices are grabbed.
#[derive(Debug)]
pub struct GrabArbiter {
    grabbed: bool,
    want: Option<bool>,
}

impl View for GrabArbiter {
    type V = GrabView;

    closed spec fn view(&self) -> GrabView {
        GrabView { grabbed: self.grabbed, want: self.want }
    }
}

impl GrabArbiter {
    /// An arbiter that holds no grab.
    pub fn new() -> (a: GrabArbiter)
        ensures
            a@ == (GrabView { grabbed: false, want: None }),
    {
        GrabArbiter { grabbed: false, want: None }
    }

    /// Whether the devices are grabbed.
    pub fn is_grabbed(&self) -> (b: bool)
        ensures
            b == self@.grabbed,
    {
        self.grabbed
    }

    /// Records what a frame with `active_count` fingers asks for. Nothing
    /// changes hands before the tick ends.
    pub fn observe(&mut self, active_count: usize)
        ensures
            final(self)@ == old(self)@.observed(active_count as int),
    {
        self.want = Some(active_count >= 2);
    }

    /// Ends the run: gives the release that is due if the devices are
    /// grabbed, and takes it as done. What the frames of a tick under way
    /// asked for is forgotten.
    pub fn shutdown(&mut self) -> (action: Option<GrabAction>)
        ensures
            action == old(self)@.letting_go(),
            final(self)@ == (GrabView { grabbed: false, want: None }),
    {
        let action = if self.grabbed {
            Some(GrabAction::Release)
        } else {
            None
        };
        self.grabbed = false;
        self.want = None;
        action
    }

    /// Ends the tick: gives the one transition that the last frame of the
    /// tick asks for, if the grab has to change, and takes it as done.
    pub fn end_tick(&mut self) -> (action: Option<GrabAction>)
        ensures
            action == old(self)@.transition(),
            final(self)@ == old(self)@.settled(),
    {
        let action = match self.want {
            Some(true) => if !self.grabbed {
                Some(GrabAction::Grab)
            } else {
                None
            },
            Some(false) => if self.grabbed {
                Some(GrabAction::Release)
            } else {
                None
            },
            None => None,
        };
        match self.want {
            Some(w) => {
                self.grabbed = w;
            },
            None => {},
        }
        self.want = None;
        action
    }
}

} // verus!
