//! Per-channel priority gate.

use vstd::prelude::*;

verus! {

/// Priority gate of a channel.  The five values are totally ordered,
/// `Nothing < Critical < Important < Fluff < Everything`; a sound entry may
/// trigger only while its declared priority is admitted by the owning
/// channel's current threshold.
#[derive(Clone, Copy, Debug, PartialEq, Eq, Structural)]
pub enum Threshold {
    Nothing,
    Critical,
    Important,
    Fluff,
    Everything,
}

impl Threshold {
    /// Position in the total order, from `Nothing` at 0 to `Everything` at 4.
    pub open spec fn level(self) -> int {
        match self {
            Threshold::Nothing => 0,
            Threshold::Critical => 1,
            Threshold::Important => 2,
            Threshold::Fluff => 3,
            Threshold::Everything => 4,
        }
    }

    /// The threshold that follows `self` in the cycle, wrapping from
    /// `Everything` back to `Nothing`.
    pub open spec fn next_spec(self) -> Threshold {
        match self {
            Threshold::Nothing => Threshold::Critical,
            Threshold::Critical => Threshold::Important,
            Threshold::Important => Threshold::Fluff,
            Threshold::Fluff => Threshold::Everything,
            Threshold::Everything => Threshold::Nothing,
        }
    }

    /// Whether an entry of priority `priority` is admitted under this
    /// threshold: `Everything` admits all priorities, `Nothing` admits none,
    /// and otherwise an entry is admitted exactly when its priority does not
    /// exceed the threshold.
    pub open spec fn admits_spec(self, priority: Threshold) -> bool {
        self != Threshold::Nothing && priority.level() <= self.level()
    }

    /// Cycles a threshold to the next value, wrapping around.
    pub fn next_threshold(t: Threshold) -> (r: Threshold)
        ensures
            r == t.next_spec(),
    {
        match t {
            Threshold::Nothing => Threshold::Critical,
            Threshold::Critical => Threshold::Important,
            Threshold::Important => Threshold::Fluff,
            Threshold::Fluff => Threshold::Everything,
            Threshold::Everything => Threshold::Nothing,
        }
    }

    /// The order position as a small integer, as reported outward.
    pub fn as_level(self) -> (r: u8)
        ensures
            r as int == self.level(),
    {
        match self {
            Threshold::Nothing => 0,
            Threshold::Critical => 1,
            Threshold::Important => 2,
            Threshold::Fluff => 3,
            Threshold::Everything => 4,
        }
    }

    /// Decides admission of an entry priority under this threshold.
    pub fn admits(self, priority: Threshold) -> (r: bool)
        ensures
            r == self.admits_spec(priority),
    {
        match self {
            Threshold::Nothing => false,
            _ => priority.as_level() <= self.as_level(),
        }
    }
}

/// Law: the threshold cycle is total — `Everything` wraps to `Nothing`, and
/// cycling five times from any starting threshold returns to the start.
pub proof fn lemma_threshold_cycle(t: Threshold)
    ensures
        Threshold::Everything.next_spec() == Threshold::Nothing,
        t.next_spec().next_spec().next_spec().next_spec().next_spec() == t,
{
}

} // verus!
