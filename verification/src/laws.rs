//! The engine's guarantees, stated and proved over the step and run
//! semantics of [`crate::engine`].

use vstd::prelude::*;
use crate::boundary::CallOutcomeV;
use crate::classify::{FailureKind, spec_canonical_outcome, spec_classification_fails};
use crate::descriptor::{CompareMode, MethodDescriptorV};
use crate::engine::{
    Hooks,
    RunVerdictV,
    Surface,
    spec_run_from,
    spec_step,
};
use crate::operation::{OperationV, op_matches_table};

verus! {

/// Hook ordering. The pre-hook's effect is computed from the states as they
/// are before the guarded calls, and it is part of every step, passing or
/// failing: the pre-hook always runs before the guarded calls. The post-hook
/// runs after classification, and only if the classification has not already
/// failed the run: a failing step leaves the hook state exactly as the
/// pre-hook left it.
pub proof fn lemma_hook_ordering<M: Surface, T: Surface, H: Hooks<M, T>>(
    cmp: CompareMode,
    op: OperationV,
    m: M::V,
    t: T::V,
    h: H::V,
)
    ensures
        ({
            let pre = H::spre(h, op, m, t);
            let s = spec_step::<M, T, H>(cmp, op, m, t, h);
            &&& spec_classification_fails(s.classification) ==> s.hooks == pre
            &&& !spec_classification_fails(s.classification) ==> s.hooks == H::spost(
                pre,
                op,
                s.model,
                s.tested,
            ).0
        }),
{
}

/// Symmetric-failure tolerance, at one step: when the model and the tested
/// implementation both terminate abruptly on one operation, the step is
/// classified [`crate::classify::Classification::BothFailed`] and escalates
/// no failure, provided the post-hook invariants hold.
pub proof fn lemma_symmetric_failure_step<M: Surface, T: Surface, H: Hooks<M, T>>(
    cmp: CompareMode,
    op: OperationV,
    m: M::V,
    t: T::V,
    h: H::V,
)
    requires
        M::sapply(m, op).1 == CallOutcomeV::Aborted,
        T::sapply(t, op).1 == CallOutcomeV::Aborted,
        H::spost(H::spre(h, op, m, t), op, M::sapply(m, op).0, T::sapply(t, op).0).1,
    ensures
        spec_step::<M, T, H>(cmp, op, m, t, h).classification
            == crate::classify::Classification::BothFailed,
        spec_step::<M, T, H>(cmp, op, m, t, h).failure is None,
{
}

/// Symmetric-failure tolerance, over a run: a both-failed operation whose
/// post-hook passes does not end the run — the run from that operation is
/// the run from the next one, in the states the step left behind.
pub proof fn lemma_symmetric_failure_run_continues<M: Surface, T: Surface, H: Hooks<M, T>>(
    table: Seq<MethodDescriptorV>,
    ops: Seq<OperationV>,
    i: int,
    m: M::V,
    t: T::V,
    h: H::V,
)
    requires
        0 <= i < ops.len(),
        M::sapply(m, ops[i]).1 == CallOutcomeV::Aborted,
        T::sapply(t, ops[i]).1 == CallOutcomeV::Aborted,
        H::spost(H::spre(h, ops[i], m, t), ops[i], M::sapply(m, ops[i]).0, T::sapply(t, ops[i]).0).1,
    ensures
        ({
            let s = spec_step::<M, T, H>(table[ops[i].method].compare, ops[i], m, t, h);
            spec_run_from::<M, T, H>(table, ops, i, m, t, h) == spec_run_from::<M, T, H>(
                table,
                ops,
                i + 1,
                s.model,
                s.tested,
                s.hooks,
            )
        }),
{
    lemma_symmetric_failure_step::<M, T, H>(table[ops[i].method].compare, ops[i], m, t, h);
}

/// No false divergence, at one step: if the model and the tested
/// implementation come to the same outcome on an operation — the same value,
/// or both abort — the step never escalates a result mismatch or a one-sided
/// abrupt termination.
pub proof fn lemma_no_false_divergence_step<M: Surface, T: Surface, H: Hooks<M, T>>(
    cmp: CompareMode,
    op: OperationV,
    m: M::V,
    t: T::V,
    h: H::V,
)
    requires
        M::sapply(m, op).1 == T::sapply(t, op).1,
    ensures
        spec_step::<M, T, H>(cmp, op, m, t, h).failure != Some(FailureKind::ResultMismatch),
        spec_step::<M, T, H>(cmp, op, m, t, h).failure != Some(FailureKind::FirstFailedOnly),
        spec_step::<M, T, H>(cmp, op, m, t, h).failure != Some(FailureKind::SecondFailedOnly),
{
    crate::classify::lemma_agreement_never_diverges(
        M::sapply(m, op).1,
        T::sapply(t, op).1,
        cmp,
    );
}

/// That a relation between model states and tested states makes the two
/// surfaces semantically equivalent: related states give every operation the
/// same outcome on both sides, and leave related states behind.
pub open spec fn equivalent_under<M: Surface, T: Surface>(
    r: spec_fn(M::V, T::V) -> bool,
) -> bool {
    forall|m: M::V, t: T::V, op: OperationV|
        #![trigger M::sapply(m, op), T::sapply(t, op)]
        r(m, t) ==> {
            &&& M::sapply(m, op).1 == T::sapply(t, op).1
            &&& r(M::sapply(m, op).0, T::sapply(t, op).0)
        }
}

/// No false divergence, over a run: on semantically equivalent surfaces the
/// engine never reports a result mismatch or a one-sided abrupt termination,
/// whatever the operation sequence. (A post-hook invariant of the harness
/// can still fail the run; that is its purpose.)
pub proof fn lemma_no_false_divergence_run<M: Surface, T: Surface, H: Hooks<M, T>>(
    r: spec_fn(M::V, T::V) -> bool,
    table: Seq<MethodDescriptorV>,
    ops: Seq<OperationV>,
    i: int,
    m: M::V,
    t: T::V,
    h: H::V,
)
    requires
        equivalent_under::<M, T>(r),
        r(m, t),
    ensures
        ({
            let rs = spec_run_from::<M, T, H>(table, ops, i, m, t, h);
            rs.verdict matches RunVerdictV::Failed { index, kind } ==> kind
                == FailureKind::InvariantViolation
        }),
    decreases ops.len() - i,
{
    if 0 <= i < ops.len() {
        let cmp = table[ops[i].method].compare;
        let op = ops[i];
        assert(M::sapply(m, op).1 == T::sapply(t, op).1 && r(
            M::sapply(m, op).0,
            T::sapply(t, op).0,
        ));
        lemma_no_false_divergence_step::<M, T, H>(cmp, op, m, t, h);
        let s = spec_step::<M, T, H>(cmp, op, m, t, h);
        if s.failure is None {
            lemma_no_false_divergence_run::<M, T, H>(r, table, ops, i + 1, s.model, s.tested, s.hooks);
        }
    }
}

/// That a relation makes two surfaces semantically equivalent for a given
/// table: on related states, every operation of the table comes to outcomes
/// that agree as the method's comparison sees them — both aborted, or
/// completed with equal canonical values — and leaves related states behind.
/// This is the equivalence the engine itself decides by, so surfaces that
/// differ only in what a normalizer forgets, such as iteration order, count
/// as equivalent.
pub open spec fn equivalent_modulo_normalization<M: Surface, T: Surface>(
    r: spec_fn(M::V, T::V) -> bool,
    table: Seq<MethodDescriptorV>,
) -> bool {
    forall|m: M::V, t: T::V, op: OperationV|
        #![trigger M::sapply(m, op), T::sapply(t, op)]
        r(m, t) && op_matches_table(table, op) ==> {
            &&& spec_canonical_outcome(table[op.method].compare, M::sapply(m, op).1)
                == spec_canonical_outcome(table[op.method].compare, T::sapply(t, op).1)
            &&& r(M::sapply(m, op).0, T::sapply(t, op).0)
        }
}

/// No false divergence, over a run, modulo normalization: on surfaces that
/// are semantically equivalent for the table — the decoder only produces
/// operations of the table — the engine never reports a result mismatch or
/// a one-sided abrupt termination, whatever the operation sequence.
pub proof fn lemma_no_false_divergence_run_normalized<M: Surface, T: Surface, H: Hooks<M, T>>(
    r: spec_fn(M::V, T::V) -> bool,
    table: Seq<MethodDescriptorV>,
    ops: Seq<OperationV>,
    i: int,
    m: M::V,
    t: T::V,
    h: H::V,
)
    requires
        equivalent_modulo_normalization::<M, T>(r, table),
        r(m, t),
        forall|j: int| 0 <= j < ops.len() ==> op_matches_table(table, #[trigger] ops[j]),
    ensures
        ({
            let rs = spec_run_from::<M, T, H>(table, ops, i, m, t, h);
            rs.verdict matches RunVerdictV::Failed { index, kind } ==> kind
                == FailureKind::InvariantViolation
        }),
    decreases ops.len() - i,
{
    if 0 <= i < ops.len() {
        let cmp = table[ops[i].method].compare;
        let op = ops[i];
        assert(op_matches_table(table, op));
        assert(spec_canonical_outcome(cmp, M::sapply(m, op).1) == spec_canonical_outcome(
            cmp,
            T::sapply(t, op).1,
        ) && r(M::sapply(m, op).0, T::sapply(t, op).0));
        crate::classify::lemma_classify_by_canonical(M::sapply(m, op).1, T::sapply(t, op).1, cmp);
        let s = spec_step::<M, T, H>(cmp, op, m, t, h);
        if s.failure is None {
            lemma_no_false_divergence_run_normalized::<M, T, H>(
                r,
                table,
                ops,
                i + 1,
                s.model,
                s.tested,
                s.hooks,
            );
        }
    }
}

/// A corollary on the simplest equivalence of all: running a surface
/// against a second instance of itself, started in the same state, never
/// reports a result mismatch or a one-sided abrupt termination, whatever
/// the operation sequence.
pub proof fn lemma_no_divergence_against_itself<M: Surface, H: Hooks<M, M>>(
    table: Seq<MethodDescriptorV>,
    ops: Seq<OperationV>,
    m: M::V,
    t: M::V,
    h: H::V,
)
    requires
        m == t,
    ensures
        ({
            let rs = spec_run_from::<M, M, H>(table, ops, 0, m, t, h);
            rs.verdict matches RunVerdictV::Failed { index, kind } ==> kind
                == FailureKind::InvariantViolation
        }),
{
    let r = |a: M::V, b: M::V| a == b;
    assert forall|a: M::V, b: M::V, op: OperationV|
        #![trigger M::sapply(a, op), M::sapply(b, op)]
        r(a, b) implies {
        &&& M::sapply(a, op).1 == M::sapply(b, op).1
        &&& r(M::sapply(a, op).0, M::sapply(b, op).0)
    } by {
    }
    lemma_no_false_divergence_run::<M, M, H>(r, table, ops, 0, m, t, h);
}

/// Fail-fast: once a failing classification occurs, no further operations in
/// the sequence are applied — a run that fails at `index` is, states and
/// verdict alike, the run over just the first `index + 1` operations.
pub proof fn lemma_fail_fast<M: Surface, T: Surface, H: Hooks<M, T>>(
    table: Seq<MethodDescriptorV>,
    ops: Seq<OperationV>,
    i: int,
    m: M::V,
    t: T::V,
    h: H::V,
)
    requires
        spec_run_from::<M, T, H>(table, ops, i, m, t, h).verdict matches RunVerdictV::Failed {
            index,
            kind,
        },
        0 <= i,
    ensures
        ({
            let rs = spec_run_from::<M, T, H>(table, ops, i, m, t, h);
            rs.verdict matches RunVerdictV::Failed { index, kind } ==> {
                &&& i <= index < ops.len()
                &&& rs == spec_run_from::<M, T, H>(table, ops.take(index + 1), i, m, t, h)
            }
        }),
    decreases ops.len() - i,
{
    let rs = spec_run_from::<M, T, H>(table, ops, i, m, t, h);
    if let RunVerdictV::Failed { index, kind } = rs.verdict {
        let s = spec_step::<M, T, H>(table[ops[i].method].compare, ops[i], m, t, h);
        let pre = ops.take(index + 1);
        if s.failure is Some {
            assert(index == i);
            assert(pre[i] == ops[i]);
            assert(i < pre.len());
        } else {
            lemma_fail_fast::<M, T, H>(table, ops, i + 1, s.model, s.tested, s.hooks);
            assert(i + 1 <= index < ops.len());
            assert(pre[i] == ops[i]);
            assert(ops.take(index + 1) =~= pre);
            assert(spec_run_from::<M, T, H>(table, ops, i + 1, s.model, s.tested, s.hooks)
                == spec_run_from::<M, T, H>(table, pre, i + 1, s.model, s.tested, s.hooks));
        }
    }
}

} // verus!
