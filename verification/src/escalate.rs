//! Escalation of run failures.
//!
//! A failing classification must end the whole fuzz iteration, and the
//! process must terminate abnormally so the external fuzz driver records the
//! current input as a crashing one. The library computes the verdict and the
//! message; the payload type [`OutcomePanic`] marks the distinguished
//! abrupt-termination category that the process-wide escalation hook — owned
//! by the unverified shell around the library, installed once per process
//! before the first comparison, never torn down — recognizes and turns into
//! immediate process termination, so that no enclosing failure boundary can
//! swallow a detected divergence.

use vstd::prelude::*;
use crate::classify::FailureKind;

verus! {

/// The payload of an escalated run failure. An abrupt termination carrying
/// this type is no ordinary one: the process-wide escalation hook recognizes
/// it and terminates the process at once, regardless of any handler that
/// would otherwise catch and continue.
pub struct OutcomePanic(pub String);

/// The message a run failure escalates with.
pub open spec fn spec_failure_message(kind: FailureKind) -> Seq<char> {
    match kind {
        FailureKind::ResultMismatch => "The return values aren't equal"@,
        FailureKind::FirstFailedOnly => "Implementation did not panic while the model did"@,
        FailureKind::SecondFailedOnly => "Implementation panicked while the model did not"@,
        FailureKind::InvariantViolation => "A post-hook invariant was violated"@,
    }
}

/// Renders the message of a run failure, exactly as
/// [`spec_failure_message`] says.
pub fn failure_message(kind: &FailureKind) -> (r: String)
    ensures
        r@ == spec_failure_message(*kind),
{
    match kind {
        FailureKind::ResultMismatch => "The return values aren't equal".to_owned(),
        FailureKind::FirstFailedOnly => "Implementation did not panic while the model did"
            .to_owned(),
        FailureKind::SecondFailedOnly => "Implementation panicked while the model did not"
            .to_owned(),
        FailureKind::InvariantViolation => "A post-hook invariant was violated".to_owned(),
    }
}

impl OutcomePanic {
    /// The escalation payload for a run failure.
    pub fn from_failure(kind: &FailureKind) -> (r: OutcomePanic)
        ensures
            r.0@ == spec_failure_message(*kind),
    {
        OutcomePanic(failure_message(kind))
    }

    /// The message the payload carries.
    pub fn message(&self) -> (r: &str)
        ensures
            r@ == self.0@,
    {
        self.0.as_str()
    }
}

} // verus!
