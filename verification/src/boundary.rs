//! The failure boundary: executing a single call and reporting whether it
//! completed normally, with a value, or terminated abruptly — without letting
//! the abrupt termination propagate past the boundary.
//!
//! Within this library a surface reports abrupt termination as a value, a
//! [`CallOutcome`]; a verified call never panics. Code that guards a call
//! whose abrupt termination is a real nonlocal exit reconstructs the outcome
//! afterwards from an explicit [`ProgressMarker`]: the marker is written just
//! before control enters the guarded call and advanced when the call
//! completes, and inspecting it after the guarded region has exited through
//! any path tells apart the three possible histories.

use vstd::prelude::*;
use crate::value::{Value, ValueV};

verus! {

/// Mathematical abstraction of a [`CallOutcome`].
pub ghost enum CallOutcomeV {
    /// The call finished normally, with this value.
    Completed(ValueV),
    /// The call started but terminated abruptly.
    Aborted,
}

/// What one guarded call came to.
#[derive(Debug, PartialEq, Eq)]
pub enum CallOutcome {
    /// The call finished normally, with this value.
    Completed(Value),
    /// The call started but terminated abruptly.
    Aborted,
}

impl View for CallOutcome {
    type V = CallOutcomeV;

    open spec fn view(&self) -> CallOutcomeV {
        match self {
            CallOutcome::Completed(v) => CallOutcomeV::Completed(v@),
            CallOutcome::Aborted => CallOutcomeV::Aborted,
        }
    }
}

/// How far a guarded call has come. The three states are distinguishable
/// even when the capture mechanism for abrupt termination only says "did not
/// finish": the marker is advanced by the guarded code itself.
#[derive(Clone, Copy, PartialEq, Eq, Structural, Debug)]
pub enum Progress {
    /// Control has not yet entered the guarded call.
    NotStarted,
    /// Control entered the guarded call and has not completed it.
    Started,
    /// The guarded call completed normally.
    Finished,
}

/// The explicit progress marker of one failure boundary. A fresh marker is
/// [`Progress::NotStarted`]; the guarded region moves it forward, never
/// back, and whoever inspects it after the region has exited — normally or
/// abruptly — learns which phase failed.
pub struct ProgressMarker {
    phase: Progress,
}

impl View for ProgressMarker {
    type V = Progress;

    closed spec fn view(&self) -> Progress {
        self.phase
    }
}

impl ProgressMarker {
    /// A marker for a call that has not started.
    pub fn new() -> (r: ProgressMarker)
        ensures
            r@ == Progress::NotStarted,
    {
        ProgressMarker { phase: Progress::NotStarted }
    }

    /// Written just before control enters the guarded call.
    pub fn begin(&mut self)
        requires
            old(self)@ == Progress::NotStarted,
        ensures
            final(self)@ == Progress::Started,
    {
        self.phase = Progress::Started;
    }

    /// Advanced by the last statement of the guarded call: only a call that
    /// ran to its end can have done this.
    pub fn complete(&mut self)
        requires
            old(self)@ == Progress::Started,
        ensures
            final(self)@ == Progress::Finished,
    {
        self.phase = Progress::Finished;
    }

    /// Reads the marker after the guarded region has exited through any
    /// path.
    pub fn status(&self) -> (r: Progress)
        ensures
            r == self@,
    {
        self.phase
    }

    /// Reconstructs the outcome of the guarded call from the marker and, if
    /// the call finished, its value: a call whose marker still says
    /// [`Progress::Started`] terminated abruptly.
    pub fn resolve(&self, result: Option<Value>) -> (r: Option<CallOutcome>)
        requires
            self@ == Progress::Finished <==> result is Some,
        ensures
            match r {
                Some(oc) => {
                    &&& self@ != Progress::NotStarted
                    &&& oc@ == (match result {
                        Some(v) => CallOutcomeV::Completed(v@),
                        None => CallOutcomeV::Aborted,
                    })
                },
                None => self@ == Progress::NotStarted,
            },
    {
        match result {
            Some(v) => Some(CallOutcome::Completed(v)),
            None => {
                if self.status() == Progress::Started {
                    Some(CallOutcome::Aborted)
                } else {
                    None
                }
            },
        }
    }
}

} // verus!
