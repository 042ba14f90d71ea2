//! Classification of the combined outcome of one operation applied to the
//! model and to the tested implementation.

use vstd::prelude::*;
use crate::boundary::{CallOutcome, CallOutcomeV};
use crate::descriptor::{CompareMode, spec_canonical};
use crate::value::value_eq;

verus! {

/// How the pair of outcomes of one operation is classified. Only
/// [`Classification::Equal`] and [`Classification::BothFailed`] let the run
/// continue; the other three fail the run.
#[derive(Clone, Copy, PartialEq, Eq, Structural, Debug)]
pub enum Classification {
    /// Both calls completed and the canonicalized results are equal.
    Equal,
    /// Both calls completed and the canonicalized results differ.
    Unequal,
    /// The model terminated abruptly; the tested implementation completed.
    FirstFailedOnly,
    /// The model completed; the tested implementation terminated abruptly.
    SecondFailedOnly,
    /// Both calls terminated abruptly: accepted, both sides agree that the
    /// operation is invalid.
    BothFailed,
}

/// Why a run failed.
#[derive(Clone, Copy, PartialEq, Eq, Structural, Debug)]
pub enum FailureKind {
    /// The two return values differ.
    ResultMismatch,
    /// The model terminated abruptly while the tested implementation did
    /// not.
    FirstFailedOnly,
    /// The tested implementation terminated abruptly while the model did
    /// not.
    SecondFailedOnly,
    /// A post-hook invariant did not hold.
    InvariantViolation,
}

/// The classification of a pair of outcomes: abrupt terminations are
/// compared first; two completed results are canonicalized independently and
/// compared by value equality.
pub open spec fn spec_classify(m: CallOutcomeV, t: CallOutcomeV, cmp: CompareMode) ->
    Classification {
    match (m, t) {
        (CallOutcomeV::Aborted, CallOutcomeV::Aborted) => Classification::BothFailed,
        (CallOutcomeV::Aborted, CallOutcomeV::Completed(_)) => Classification::FirstFailedOnly,
        (CallOutcomeV::Completed(_), CallOutcomeV::Aborted) => Classification::SecondFailedOnly,
        (CallOutcomeV::Completed(a), CallOutcomeV::Completed(b)) => if spec_canonical(cmp, a)
            == spec_canonical(cmp, b) {
            Classification::Equal
        } else {
            Classification::Unequal
        },
    }
}

/// Whether a classification fails the run.
pub open spec fn spec_classification_fails(c: Classification) -> bool {
    match c {
        Classification::Equal => false,
        Classification::BothFailed => false,
        Classification::Unequal => true,
        Classification::FirstFailedOnly => true,
        Classification::SecondFailedOnly => true,
    }
}

/// The failure a failing classification escalates as.
pub open spec fn spec_failure_of(c: Classification) -> Option<FailureKind> {
    match c {
        Classification::Unequal => Some(FailureKind::ResultMismatch),
        Classification::FirstFailedOnly => Some(FailureKind::FirstFailedOnly),
        Classification::SecondFailedOnly => Some(FailureKind::SecondFailedOnly),
        Classification::Equal => None,
        Classification::BothFailed => None,
    }
}

/// Classifies the pair of outcomes of one operation, exactly as
/// [`spec_classify`] says.
pub fn classify(m: CallOutcome, t: CallOutcome, cmp: &CompareMode) -> (r: Classification)
    ensures
        r == spec_classify(m@, t@, *cmp),
{
    match (m, t) {
        (CallOutcome::Aborted, CallOutcome::Aborted) => Classification::BothFailed,
        (CallOutcome::Aborted, CallOutcome::Completed(_)) => Classification::FirstFailedOnly,
        (CallOutcome::Completed(_), CallOutcome::Aborted) => Classification::SecondFailedOnly,
        (CallOutcome::Completed(a), CallOutcome::Completed(b)) => {
            let ca = crate::descriptor::canonicalize(cmp, a);
            let cb = crate::descriptor::canonicalize(cmp, b);
            if value_eq(&ca, &cb) {
                Classification::Equal
            } else {
                Classification::Unequal
            }
        },
    }
}

/// Tells whether a classification fails the run, exactly as
/// [`spec_classification_fails`] says.
pub fn classification_fails(c: &Classification) -> (r: bool)
    ensures
        r == spec_classification_fails(*c),
{
    match c {
        Classification::Equal => false,
        Classification::BothFailed => false,
        Classification::Unequal => true,
        Classification::FirstFailedOnly => true,
        Classification::SecondFailedOnly => true,
    }
}

/// The failure a failing classification escalates as, exactly as
/// [`spec_failure_of`] says.
pub fn failure_of(c: &Classification) -> (r: Option<FailureKind>)
    ensures
        r == spec_failure_of(*c),
{
    match c {
        Classification::Unequal => Some(FailureKind::ResultMismatch),
        Classification::FirstFailedOnly => Some(FailureKind::FirstFailedOnly),
        Classification::SecondFailedOnly => Some(FailureKind::SecondFailedOnly),
        Classification::Equal => None,
        Classification::BothFailed => None,
    }
}

/// An outcome as the comparison sees it: a completed value canonicalized
/// under the comparison mode, an abrupt termination as it is.
pub open spec fn spec_canonical_outcome(cmp: CompareMode, oc: CallOutcomeV) -> CallOutcomeV {
    match oc {
        CallOutcomeV::Completed(v) => CallOutcomeV::Completed(spec_canonical(cmp, v)),
        CallOutcomeV::Aborted => CallOutcomeV::Aborted,
    }
}

/// A classification passes exactly when the two outcomes agree as the
/// comparison sees them: both aborted, or completed with equal canonical
/// values.
pub proof fn lemma_classify_by_canonical(m: CallOutcomeV, t: CallOutcomeV, cmp: CompareMode)
    ensures
        !spec_classification_fails(spec_classify(m, t, cmp)) <==> spec_canonical_outcome(cmp, m)
            == spec_canonical_outcome(cmp, t),
{
}

/// Symmetric-failure tolerance at the classification: when both sides
/// terminate abruptly on one operation, the classification is
/// [`Classification::BothFailed`], which does not fail the run, whatever the
/// comparison mode.
pub proof fn lemma_symmetric_failure_accepted(cmp: CompareMode)
    ensures
        spec_classify(CallOutcomeV::Aborted, CallOutcomeV::Aborted, cmp)
            == Classification::BothFailed,
        !spec_classification_fails(
            spec_classify(CallOutcomeV::Aborted, CallOutcomeV::Aborted, cmp),
        ),
        spec_failure_of(spec_classify(CallOutcomeV::Aborted, CallOutcomeV::Aborted, cmp)) is None,
{
}

/// No false divergence at the classification: outcomes that agree — both
/// aborted, or both completed with results whose canonical forms are equal —
/// are never classified as [`Classification::Unequal`] or as one-sided
/// abrupt termination.
pub proof fn lemma_agreement_never_diverges(m: CallOutcomeV, t: CallOutcomeV, cmp: CompareMode)
    requires
        m == t,
    ensures
        !spec_classification_fails(spec_classify(m, t, cmp)),
        spec_failure_of(spec_classify(m, t, cmp)) is None,
{
}

} // verus!
