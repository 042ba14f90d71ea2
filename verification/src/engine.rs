//! The dual-execution engine.
//!
//! For each decoded operation the engine runs the pre-hook, applies the
//! operation to the model and to the tested implementation — each of which
//! reports abrupt termination through its own failure boundary as a
//! [`CallOutcome`] — classifies the combined outcome, runs the post-hook if
//! the classification passes, and halts the whole run on the first failing
//! classification. Operations are applied strictly in decoded order; one
//! operation fully completes, through both targets, comparison and hooks,
//! before the next begins.

use vstd::prelude::*;
use crate::boundary::{CallOutcome, CallOutcomeV};
use crate::classify::{
    Classification,
    FailureKind,
    classify,
    failure_of,
    spec_classify,
    spec_failure_of,
};
use crate::decode::{
    OperationDecoder,
    lemma_decode_op_advances,
    spec_decode_ops,
};
use crate::descriptor::{CompareMode, MethodDescriptor, MethodDescriptorV, spec_table};
use crate::operation::{Operation, OperationV};
use crate::trace::{TraceRecorder, spec_render_lines};

verus! {

/// One target of the engine: a stateful implementation of the surface under
/// test. Implementors define the mathematical meaning of applying one
/// operation — the next state and the call outcome — and an executable
/// `apply` that behaves exactly so. A surface signals abrupt termination by
/// returning [`CallOutcome::Aborted`]; it never panics.
pub trait Surface: View + Sized {
    /// What applying `op` in state `s` means: the state afterwards and the
    /// outcome of the call.
    spec fn sapply(s: Self::V, op: OperationV) -> (Self::V, CallOutcomeV);

    /// Applies one operation, exactly as [`Surface::sapply`] says.
    fn apply(&mut self, op: &Operation) -> (r: CallOutcome)
        ensures
            final(self)@ == Self::sapply(old(self)@, op@).0,
            r@ == Self::sapply(old(self)@, op@).1,
    ;
}

/// The per-surface hook configuration. The pre-hook runs before the guarded
/// calls and sees the states as they then are; it may keep notes of its own
/// (a previously observed capacity) but cannot mutate the targets. The
/// post-hook runs after a passing classification, sees the post-states of
/// both targets, and reports whether its cross-cutting invariants hold; a
/// failing post-hook fails the run.
pub trait Hooks<M: Surface, T: Surface>: View + Sized {
    /// What the pre-hook does to the hook state.
    spec fn spre(h: Self::V, op: OperationV, m: M::V, t: T::V) -> Self::V;

    /// What the post-hook does to the hook state, and whether its
    /// invariants hold.
    spec fn spost(h: Self::V, op: OperationV, m: M::V, t: T::V) -> (Self::V, bool);

    /// Runs the pre-hook, exactly as [`Hooks::spre`] says.
    fn pre(&mut self, op: &Operation, model: &M, tested: &T)
        ensures
            final(self)@ == Self::spre(old(self)@, op@, model@, tested@),
    ;

    /// Runs the post-hook, exactly as [`Hooks::spost`] says.
    fn post(&mut self, op: &Operation, model: &M, tested: &T) -> (ok: bool)
        ensures
            (final(self)@, ok) == Self::spost(old(self)@, op@, model@, tested@),
    ;
}

/// The hook configuration of a surface that asserts nothing.
pub struct NoHooks {}

impl View for NoHooks {
    type V = ();

    open spec fn view(&self) -> () {
        ()
    }
}

impl NoHooks {
    /// A hook configuration that asserts nothing.
    pub fn new() -> (r: NoHooks) {
        NoHooks {}
    }
}

impl<M: Surface, T: Surface> Hooks<M, T> for NoHooks {
    open spec fn spre(h: (), op: OperationV, m: M::V, t: T::V) -> () {
        ()
    }

    open spec fn spost(h: (), op: OperationV, m: M::V, t: T::V) -> ((), bool) {
        ((), true)
    }

    fn pre(&mut self, op: &Operation, model: &M, tested: &T) {
    }

    fn post(&mut self, op: &Operation, model: &M, tested: &T) -> (ok: bool) {
        true
    }
}

/// Everything one engine step determines: the post-states of both targets
/// and of the hooks, the classification, and the failure the step escalates,
/// if any.
pub ghost struct StepSpec<MV, TV, HV> {
    pub model: MV,
    pub tested: TV,
    pub hooks: HV,
    pub classification: Classification,
    pub failure: Option<FailureKind>,
}

/// The meaning of one engine step on one operation:
/// pre-hook on the pre-states, both applications, classification, and — only
/// if the classification passes — the post-hook on the post-states, whose
/// verdict decides between continuing and an invariant violation.
pub open spec fn spec_step<M: Surface, T: Surface, H: Hooks<M, T>>(
    cmp: CompareMode,
    op: OperationV,
    m: M::V,
    t: T::V,
    h: H::V,
) -> StepSpec<M::V, T::V, H::V> {
    let h1 = H::spre(h, op, m, t);
    let m1 = M::sapply(m, op).0;
    let mres = M::sapply(m, op).1;
    let t1 = T::sapply(t, op).0;
    let tres = T::sapply(t, op).1;
    let c = spec_classify(mres, tres, cmp);
    match spec_failure_of(c) {
        Some(k) => StepSpec {
            model: m1,
            tested: t1,
            hooks: h1,
            classification: c,
            failure: Some(k),
        },
        None => {
            let h2 = H::spost(h1, op, m1, t1).0;
            let ok = H::spost(h1, op, m1, t1).1;
            StepSpec {
                model: m1,
                tested: t1,
                hooks: h2,
                classification: c,
                failure: if ok {
                    None
                } else {
                    Some(FailureKind::InvariantViolation)
                },
            }
        },
    }
}

/// What one engine step reports to the run loop.
#[derive(Clone, Copy, Debug, PartialEq, Eq)]
pub struct StepReport {
    /// How the pair of outcomes was classified.
    pub classification: Classification,
    /// The failure this step escalates, if any: a failing classification, or
    /// a post-hook whose invariants did not hold.
    pub failure: Option<FailureKind>,
}

/// Applies one operation to the model and to the tested implementation, each
/// behind its own failure boundary, classifies the pair of outcomes, and
/// runs the hooks around the guarded calls — exactly as [`spec_step`] says.
pub fn execute_and_compare<M: Surface, T: Surface, H: Hooks<M, T>>(
    desc: &MethodDescriptor,
    op: &Operation,
    model: &mut M,
    tested: &mut T,
    hooks: &mut H,
) -> (r: StepReport)
    ensures
        ({
            let s = spec_step::<M, T, H>(desc.compare, op@, old(model)@, old(tested)@, old(hooks)@);
            &&& final(model)@ == s.model
            &&& final(tested)@ == s.tested
            &&& final(hooks)@ == s.hooks
            &&& r.classification == s.classification
            &&& r.failure == s.failure
        }),
{
    hooks.pre(op, model, tested);
    let mres = model.apply(op);
    let tres = tested.apply(op);
    let c = classify(mres, tres, &desc.compare);
    match failure_of(&c) {
        Some(k) => StepReport { classification: c, failure: Some(k) },
        None => {
            let ok = hooks.post(op, model, tested);
            StepReport {
                classification: c,
                failure: if ok {
                    None
                } else {
                    Some(FailureKind::InvariantViolation)
                },
            }
        },
    }
}

/// Applies one operation to the tested implementation alone, discarding
/// nothing: the outcome — completion or abrupt termination — is handed back
/// as it is. Used for pure crash discovery, when no reference behavior
/// exists to compare against.
pub fn execute_only<T: Surface>(op: &Operation, tested: &mut T) -> (r: CallOutcome)
    ensures
        final(tested)@ == T::sapply(old(tested)@, op@).0,
        r@ == T::sapply(old(tested)@, op@).1,
{
    tested.apply(op)
}

/// The verdict of a whole run.
pub ghost enum RunVerdictV {
    /// Every decoded operation was executed and classified as passing.
    Passed,
    /// The operation at `index` produced this failure; nothing after it was
    /// executed.
    Failed { index: int, kind: FailureKind },
}

/// Everything a run determines: the final states and the verdict.
pub ghost struct RunSpec<MV, TV, HV> {
    pub model: MV,
    pub tested: TV,
    pub hooks: HV,
    pub verdict: RunVerdictV,
}

/// The meaning of running the engine over `ops[i..]`: steps in strict order,
/// halting at the first step that escalates a failure.
pub open spec fn spec_run_from<M: Surface, T: Surface, H: Hooks<M, T>>(
    table: Seq<MethodDescriptorV>,
    ops: Seq<OperationV>,
    i: int,
    m: M::V,
    t: T::V,
    h: H::V,
) -> RunSpec<M::V, T::V, H::V>
    decreases ops.len() - i,
{
    if i < 0 || i >= ops.len() {
        RunSpec { model: m, tested: t, hooks: h, verdict: RunVerdictV::Passed }
    } else {
        let s = spec_step::<M, T, H>(table[ops[i].method].compare, ops[i], m, t, h);
        match s.failure {
            Some(k) => RunSpec {
                model: s.model,
                tested: s.tested,
                hooks: s.hooks,
                verdict: RunVerdictV::Failed { index: i, kind: k },
            },
            None => spec_run_from::<M, T, H>(table, ops, i + 1, s.model, s.tested, s.hooks),
        }
    }
}

/// How a run ended.
#[derive(Clone, Copy, Debug, PartialEq, Eq)]
pub enum RunResult {
    /// Every decoded operation was executed and classified as passing;
    /// `executed` says how many there were.
    Passed { executed: usize },
    /// The operation at `index` produced this failure; no later operation
    /// was executed.
    Failed { index: usize, kind: FailureKind },
}

/// Decodes the buffer and runs every decoded operation through
/// [`execute_and_compare`], in decoded order, halting at the first failure —
/// exactly as [`spec_run_from`] says of the decoded sequence. Every
/// operation the engine starts, the failing one included, is appended to the
/// trace first, so the log replays the run.
pub fn run_and_compare_traced<M: Surface, T: Surface, H: Hooks<M, T>>(
    table: &Vec<MethodDescriptor>,
    bytes: &Vec<u8>,
    model: &mut M,
    tested: &mut T,
    hooks: &mut H,
    trace: &mut TraceRecorder,
) -> (r: RunResult)
    ensures
        ({
            let ops = spec_decode_ops(spec_table(table@), bytes@, 0);
            let rs = spec_run_from::<M, T, H>(
                spec_table(table@),
                ops,
                0,
                old(model)@,
                old(tested)@,
                old(hooks)@,
            );
            &&& final(model)@ == rs.model
            &&& final(tested)@ == rs.tested
            &&& final(hooks)@ == rs.hooks
            &&& match r {
                RunResult::Passed { executed } => rs.verdict == RunVerdictV::Passed && executed
                    == ops.len(),
                RunResult::Failed { index, kind } => rs.verdict == (RunVerdictV::Failed {
                    index: index as int,
                    kind,
                }),
            }
            &&& final(trace)@.enabled == old(trace)@.enabled
            &&& ({
                let executed = match r {
                    RunResult::Passed { executed } => executed as int,
                    RunResult::Failed { index, kind } => index + 1,
                };
                final(trace)@.log == if old(trace)@.enabled {
                    old(trace)@.log + spec_render_lines(
                        spec_table(table@),
                        ops.take(executed),
                        0,
                    )
                } else {
                    old(trace)@.log
                }
            })
        }),
{
    let ghost tv = spec_table(table@);
    let ghost ops = spec_decode_ops(tv, bytes@, 0);
    let blen = bytes.len();
    let mut dec = OperationDecoder::new(bytes.clone());
    let mut i: usize = 0;
    proof {
        assert(ops.skip(0) =~= ops);
        crate::decode::lemma_decode_ops_len(tv, bytes@, 0);
        assert(ops.take(0) =~= Seq::<OperationV>::empty());
        if old(trace)@.enabled {
            assert(old(trace)@.log + spec_render_lines(tv, ops.take(0), 0) =~= old(trace)@.log);
        }
    }
    loop
        invariant
            tv == spec_table(table@),
            ops == spec_decode_ops(tv, bytes@, 0),
            ops.len() <= blen,
            dec.wf(),
            dec@.bytes == bytes@,
            i <= ops.len(),
            spec_decode_ops(tv, bytes@, dec@.pos) == ops.skip(i as int),
            spec_run_from::<M, T, H>(tv, ops, 0, old(model)@, old(tested)@, old(hooks)@)
                == spec_run_from::<M, T, H>(tv, ops, i as int, model@, tested@, hooks@),
            trace@.enabled == old(trace)@.enabled,
            trace@.log == if old(trace)@.enabled {
                old(trace)@.log + spec_render_lines(tv, ops.take(i as int), 0)
            } else {
                old(trace)@.log
            },
        decreases ops.len() - i,
    {
        let ghost pos0 = dec@.pos;
        let next = dec.next_op(table);
        match next {
            None => {
                proof {
                    assert(spec_decode_ops(tv, bytes@, pos0) =~= Seq::<OperationV>::empty());
                    assert(ops.skip(i as int).len() == 0);
                    assert(i == ops.len());
                }
                return RunResult::Passed { executed: i };
            },
            Some(op) => {
                proof {
                    lemma_decode_op_advances(tv, bytes@, pos0);
                    assert(spec_decode_ops(tv, bytes@, pos0) == seq![op@] + spec_decode_ops(
                        tv,
                        bytes@,
                        dec@.pos,
                    ));
                    assert(ops.skip(i as int)[0] == op@);
                    assert(i < ops.len());
                    assert(ops[i as int] == op@);
                    assert(spec_decode_ops(tv, bytes@, dec@.pos) =~= ops.skip(i as int + 1)) by {
                        assert(spec_decode_ops(tv, bytes@, dec@.pos) =~= ops.skip(
                            i as int,
                        ).drop_first());
                        assert(ops.skip(i as int).drop_first() =~= ops.skip(i as int + 1));
                    }
                    assert(tv[op@.method] == table@[op.method as int]@);
                }
                let ghost mpre = model@;
                let ghost tpre = tested@;
                let ghost hpre = hooks@;
                let desc = &table[op.method];
                proof {
                    assert(desc.compare == tv[op@.method].compare);
                }
                trace.append(desc, &op);
                proof {
                    if old(trace)@.enabled {
                        crate::trace::lemma_render_lines_snoc(tv, ops, 0, i as int);
                        assert(desc@ == tv[op@.method]);
                        assert((old(trace)@.log + spec_render_lines(tv, ops.take(i as int), 0)) + (
                        crate::trace::spec_render_op(desc@, op@) + seq!['\n']) =~= old(trace)@.log
                            + (spec_render_lines(tv, ops.take(i as int), 0) + (
                        crate::trace::spec_render_op(desc@, op@) + seq!['\n'])));
                        assert(trace@.log == old(trace)@.log + spec_render_lines(
                            tv,
                            ops.take(i as int + 1),
                            0,
                        ));
                    }
                }
                let report = execute_and_compare(desc, &op, model, tested, hooks);
                proof {
                    let s = spec_step::<M, T, H>(tv[op@.method].compare, op@, mpre, tpre, hpre);
                    assert(model@ == s.model && tested@ == s.tested && hooks@ == s.hooks
                        && report.failure == s.failure);
                }
                match report.failure {
                    Some(kind) => {
                        proof {
                            assert(spec_run_from::<M, T, H>(tv, ops, i as int, mpre, tpre, hpre)
                                == (RunSpec {
                                model: model@,
                                tested: tested@,
                                hooks: hooks@,
                                verdict: RunVerdictV::Failed { index: i as int, kind },
                            }));
                        }
                        return RunResult::Failed { index: i, kind };
                    },
                    None => {
                        proof {
                            assert(spec_run_from::<M, T, H>(tv, ops, i as int, mpre, tpre, hpre)
                                == spec_run_from::<M, T, H>(
                                tv,
                                ops,
                                i as int + 1,
                                model@,
                                tested@,
                                hooks@,
                            ));
                        }
                        i += 1;
                    },
                }
            },
        }
    }
}

/// [`run_and_compare_traced`] without a trace: decodes the buffer and runs
/// every decoded operation, in decoded order, halting at the first failure.
pub fn run_and_compare<M: Surface, T: Surface, H: Hooks<M, T>>(
    table: &Vec<MethodDescriptor>,
    bytes: &Vec<u8>,
    model: &mut M,
    tested: &mut T,
    hooks: &mut H,
) -> (r: RunResult)
    ensures
        ({
            let ops = spec_decode_ops(spec_table(table@), bytes@, 0);
            let rs = spec_run_from::<M, T, H>(
                spec_table(table@),
                ops,
                0,
                old(model)@,
                old(tested)@,
                old(hooks)@,
            );
            &&& final(model)@ == rs.model
            &&& final(tested)@ == rs.tested
            &&& final(hooks)@ == rs.hooks
            &&& match r {
                RunResult::Passed { executed } => rs.verdict == RunVerdictV::Passed && executed
                    == ops.len(),
                RunResult::Failed { index, kind } => rs.verdict == (RunVerdictV::Failed {
                    index: index as int,
                    kind,
                }),
            }
        }),
{
    let mut trace = TraceRecorder::new(false);
    run_and_compare_traced(table, bytes, model, tested, hooks, &mut trace)
}

/// The final state of applying `ops[i..]` to the tested implementation
/// alone, and the index of the first operation that terminated abruptly, if
/// one did: nothing after that operation is applied.
pub open spec fn spec_apply_only<T: Surface>(ops: Seq<OperationV>, i: int, t: T::V) -> (
    T::V,
    Option<int>,
)
    decreases ops.len() - i,
{
    if i < 0 || i >= ops.len() {
        (t, None)
    } else {
        let t1 = T::sapply(t, ops[i]).0;
        match T::sapply(t, ops[i]).1 {
            CallOutcomeV::Aborted => (t1, Some(i)),
            CallOutcomeV::Completed(_) => spec_apply_only::<T>(ops, i + 1, t1),
        }
    }
}

/// The execute-only mode: decodes the buffer and applies every operation to
/// the tested implementation alone, discarding completed results and
/// propagating the first abrupt termination as the index of the aborting
/// operation — exactly as [`spec_apply_only`] says of the decoded sequence.
pub fn run_execute_only<T: Surface>(
    table: &Vec<MethodDescriptor>,
    bytes: &Vec<u8>,
    tested: &mut T,
) -> (r: Option<usize>)
    ensures
        ({
            let ops = spec_decode_ops(spec_table(table@), bytes@, 0);
            let rs = spec_apply_only::<T>(ops, 0, old(tested)@);
            &&& final(tested)@ == rs.0
            &&& match r {
                Some(index) => rs.1 == Some(index as int),
                None => rs.1 is None,
            }
        }),
{
    let ghost tv = spec_table(table@);
    let ghost ops = spec_decode_ops(tv, bytes@, 0);
    let blen = bytes.len();
    let mut dec = OperationDecoder::new(bytes.clone());
    let mut i: usize = 0;
    proof {
        assert(ops.skip(0) =~= ops);
        crate::decode::lemma_decode_ops_len(tv, bytes@, 0);
    }
    loop
        invariant
            tv == spec_table(table@),
            ops == spec_decode_ops(tv, bytes@, 0),
            ops.len() <= blen,
            dec.wf(),
            dec@.bytes == bytes@,
            i <= ops.len(),
            spec_decode_ops(tv, bytes@, dec@.pos) == ops.skip(i as int),
            spec_apply_only::<T>(ops, 0, old(tested)@) == spec_apply_only::<T>(
                ops,
                i as int,
                tested@,
            ),
        decreases ops.len() - i,
    {
        let ghost pos0 = dec@.pos;
        let next = dec.next_op(table);
        match next {
            None => {
                proof {
                    assert(spec_decode_ops(tv, bytes@, pos0) =~= Seq::<OperationV>::empty());
                    assert(ops.skip(i as int).len() == 0);
                    assert(i == ops.len());
                }
                return None;
            },
            Some(op) => {
                proof {
                    lemma_decode_op_advances(tv, bytes@, pos0);
                    assert(spec_decode_ops(tv, bytes@, pos0) == seq![op@] + spec_decode_ops(
                        tv,
                        bytes@,
                        dec@.pos,
                    ));
                    assert(ops.skip(i as int)[0] == op@);
                    assert(i < ops.len());
                    assert(ops[i as int] == op@);
                    assert(spec_decode_ops(tv, bytes@, dec@.pos) =~= ops.skip(i as int + 1)) by {
                        assert(spec_decode_ops(tv, bytes@, dec@.pos) =~= ops.skip(
                            i as int,
                        ).drop_first());
                        assert(ops.skip(i as int).drop_first() =~= ops.skip(i as int + 1));
                    }
                }
                let ghost tpre = tested@;
                let outcome = execute_only(&op, tested);
                proof {
                    assert(tested@ == T::sapply(tpre, op@).0);
                    assert(outcome@ == T::sapply(tpre, op@).1);
                }
                match outcome {
                    CallOutcome::Aborted => {
                        proof {
                            assert(spec_apply_only::<T>(ops, i as int, tpre) == (
                            tested@,
                            Some(i as int),
                            ));
                        }
                        return Some(i);
                    },
                    CallOutcome::Completed(_) => {
                        proof {
                            assert(spec_apply_only::<T>(ops, i as int, tpre)
                                == spec_apply_only::<T>(ops, i as int + 1, tested@));
                        }
                        i += 1;
                    },
                }
            },
        }
    }
}

} // verus!
