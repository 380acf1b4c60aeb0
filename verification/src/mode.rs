//! How the driving loop schedules steps.
//!
//! The engine itself knows nothing of real time; the loop around it either
//! ticks continuously at a fixed cadence or advances one step at a time on
//! request. The decisions live here; the loop supplies only whether the
//! cadence timer is due.

use vstd::prelude::*;

verus! {

/// The stepping cadence: free-running ticks, or single steps on request.
#[derive(Clone, Copy, Debug, PartialEq, Eq, Structural)]
pub enum UpdateMode {
    Tick,
    Step { requested: bool },
}

impl UpdateMode {
    /// Free-running mode: a step runs whenever the cadence timer is due.
    pub fn new_tick() -> (m: UpdateMode)
        ensures
            m == UpdateMode::Tick,
    {
        UpdateMode::Tick
    }

    /// Single-step mode, with no step pending.
    pub fn new_step() -> (m: UpdateMode)
        ensures
            m == (UpdateMode::Step { requested: false }),
    {
        UpdateMode::Step { requested: false }
    }

    /// Switches between the two modes; entering single-step mode starts
    /// with no step pending.
    pub fn toggle(self) -> (m: UpdateMode)
        ensures
            self is Tick ==> m == (UpdateMode::Step { requested: false }),
            self is Step ==> m == UpdateMode::Tick,
    {
        match self {
            UpdateMode::Tick => UpdateMode::Step { requested: false },
            UpdateMode::Step { .. } => UpdateMode::Tick,
        }
    }

    /// Records a single-step request; in free-running mode the request has
    /// no meaning and nothing changes.
    pub fn request_step(self) -> (m: UpdateMode)
        ensures
            self is Tick ==> m == self,
            self is Step ==> m == (UpdateMode::Step { requested: true }),
    {
        match self {
            UpdateMode::Tick => self,
            UpdateMode::Step { .. } => UpdateMode::Step { requested: true },
        }
    }

    /// Decides whether a step runs now: in free-running mode exactly when
    /// the cadence timer is due; in single-step mode exactly when a step
    /// was requested, consuming the request.
    pub fn advance(self, timer_due: bool) -> (r: (UpdateMode, bool))
        ensures
            self is Tick ==> r == (self, timer_due),
            self matches UpdateMode::Step { requested } ==> r == (
                UpdateMode::Step { requested: false },
                requested,
            ),
    {
        match self {
            UpdateMode::Tick => (self, timer_due),
            UpdateMode::Step { requested } => (UpdateMode::Step { requested: false }, requested),
        }
    }
}

} // verus!
