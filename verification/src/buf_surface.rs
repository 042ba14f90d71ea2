//! An indexed-buffer surface: a reference implementation that terminates
//! abruptly on an out-of-range read — as a bounds-checked implementation
//! does — and a tested implementation that never validates bounds and hands
//! back a default instead. A run over the two exhibits one-sided abrupt
//! termination on any out-of-range access.

use vstd::prelude::*;
use crate::boundary::{CallOutcome, CallOutcomeV};
use crate::descriptor::{
    ArgDescriptor,
    ArgDescriptorV,
    ArgKind,
    CompareMode,
    MethodDescriptor,
    MethodDescriptorV,
    PassingMode,
};
use crate::classify::{Classification, FailureKind};
use crate::engine::{Hooks, Surface, spec_step};
use crate::operation::{Operation, OperationV};
use crate::value::{Value, ValueV};

verus! {

/// Method index of `push(v)`.
pub const BUF_PUSH: usize = 0;

/// Method index of `get(i)`.
pub const BUF_GET: usize = 1;

/// Method index of `len()`.
pub const BUF_LEN: usize = 2;

/// What applying one operation to the bounds-checked reference buffer
/// means: an out-of-range `get` terminates abruptly.
pub open spec fn spec_buf_model_apply(s: Seq<u64>, op: OperationV) -> (Seq<u64>, CallOutcomeV) {
    if op.method == BUF_PUSH as int {
        match crate::map_surface::spec_key_arg(op) {
            Some(v) => (s.push(v), CallOutcomeV::Completed(ValueV::Unit)),
            None => (s, CallOutcomeV::Aborted),
        }
    } else if op.method == BUF_GET as int {
        match crate::map_surface::spec_key_arg(op) {
            Some(i) => if i < s.len() {
                (s, CallOutcomeV::Completed(ValueV::U64(s[i as int])))
            } else {
                (s, CallOutcomeV::Aborted)
            },
            None => (s, CallOutcomeV::Aborted),
        }
    } else if op.method == BUF_LEN as int {
        if op.args.len() == 0 {
            (s, CallOutcomeV::Completed(ValueV::U64(s.len() as u64)))
        } else {
            (s, CallOutcomeV::Aborted)
        }
    } else {
        (s, CallOutcomeV::Aborted)
    }
}

/// What applying one operation to the unchecked tested buffer means: an
/// out-of-range `get` completes with zero instead of failing.
pub open spec fn spec_lax_buf_apply(s: Seq<u64>, op: OperationV) -> (Seq<u64>, CallOutcomeV) {
    if op.method == BUF_PUSH as int {
        match crate::map_surface::spec_key_arg(op) {
            Some(v) => (s.push(v), CallOutcomeV::Completed(ValueV::Unit)),
            None => (s, CallOutcomeV::Aborted),
        }
    } else if op.method == BUF_GET as int {
        match crate::map_surface::spec_key_arg(op) {
            Some(i) => if i < s.len() {
                (s, CallOutcomeV::Completed(ValueV::U64(s[i as int])))
            } else {
                (s, CallOutcomeV::Completed(ValueV::U64(0)))
            },
            None => (s, CallOutcomeV::Aborted),
        }
    } else if op.method == BUF_LEN as int {
        if op.args.len() == 0 {
            (s, CallOutcomeV::Completed(ValueV::U64(s.len() as u64)))
        } else {
            (s, CallOutcomeV::Aborted)
        }
    } else {
        (s, CallOutcomeV::Aborted)
    }
}

/// The reference buffer: bounds-checked, aborting on out-of-range access.
pub struct BufModel {
    data: Vec<u64>,
}

impl View for BufModel {
    type V = Seq<u64>;

    closed spec fn view(&self) -> Seq<u64> {
        self.data@
    }
}

impl BufModel {
    /// An empty reference buffer.
    pub fn new() -> (r: BufModel)
        ensures
            r@ == Seq::<u64>::empty(),
    {
        BufModel { data: Vec::new() }
    }
}

impl Surface for BufModel {
    open spec fn sapply(s: Seq<u64>, op: OperationV) -> (Seq<u64>, CallOutcomeV) {
        spec_buf_model_apply(s, op)
    }

    fn apply(&mut self, op: &Operation) -> (r: CallOutcome) {
        proof {
            assert(op@.args.len() == op.args@.len());
        }
        if op.method == BUF_PUSH {
            if op.args.len() == 1 {
                proof {
                    assert(op@.args[0] == op.args@[0]@);
                }
                match &op.args[0] {
                    Value::U64(v) => {
                        self.data.push(*v);
                        CallOutcome::Completed(Value::Unit)
                    },
                    _ => CallOutcome::Aborted,
                }
            } else {
                CallOutcome::Aborted
            }
        } else if op.method == BUF_GET {
            if op.args.len() == 1 {
                proof {
                    assert(op@.args[0] == op.args@[0]@);
                }
                match &op.args[0] {
                    Value::U64(i) => {
                        if *i < self.data.len() as u64 {
                            let v = self.data[*i as usize];
                            CallOutcome::Completed(Value::U64(v))
                        } else {
                            CallOutcome::Aborted
                        }
                    },
                    _ => CallOutcome::Aborted,
                }
            } else {
                CallOutcome::Aborted
            }
        } else if op.method == BUF_LEN {
            if op.args.len() == 0 {
                CallOutcome::Completed(Value::U64(self.data.len() as u64))
            } else {
                CallOutcome::Aborted
            }
        } else {
            CallOutcome::Aborted
        }
    }
}

/// The tested buffer: never validates bounds; an out-of-range read hands
/// back zero.
pub struct LaxBuf {
    data: Vec<u64>,
}

impl View for LaxBuf {
    type V = Seq<u64>;

    closed spec fn view(&self) -> Seq<u64> {
        self.data@
    }
}

impl LaxBuf {
    /// An empty tested buffer.
    pub fn new() -> (r: LaxBuf)
        ensures
            r@ == Seq::<u64>::empty(),
    {
        LaxBuf { data: Vec::new() }
    }
}

impl Surface for LaxBuf {
    open spec fn sapply(s: Seq<u64>, op: OperationV) -> (Seq<u64>, CallOutcomeV) {
        spec_lax_buf_apply(s, op)
    }

    fn apply(&mut self, op: &Operation) -> (r: CallOutcome) {
        proof {
            assert(op@.args.len() == op.args@.len());
        }
        if op.method == BUF_PUSH {
            if op.args.len() == 1 {
                proof {
                    assert(op@.args[0] == op.args@[0]@);
                }
                match &op.args[0] {
                    Value::U64(v) => {
                        self.data.push(*v);
                        CallOutcome::Completed(Value::Unit)
                    },
                    _ => CallOutcome::Aborted,
                }
            } else {
                CallOutcome::Aborted
            }
        } else if op.method == BUF_GET {
            if op.args.len() == 1 {
                proof {
                    assert(op@.args[0] == op.args@[0]@);
                }
                match &op.args[0] {
                    Value::U64(i) => {
                        if *i < self.data.len() as u64 {
                            let v = self.data[*i as usize];
                            CallOutcome::Completed(Value::U64(v))
                        } else {
                            CallOutcome::Completed(Value::U64(0))
                        }
                    },
                    _ => CallOutcome::Aborted,
                }
            } else {
                CallOutcome::Aborted
            }
        } else if op.method == BUF_LEN {
            if op.args.len() == 0 {
                CallOutcome::Completed(Value::U64(self.data.len() as u64))
            } else {
                CallOutcome::Aborted
            }
        } else {
            CallOutcome::Aborted
        }
    }
}

/// One-sided failure, proved: on buffers holding the same elements, a read
/// past the end makes the bounds-checked model terminate abruptly while the
/// unchecked tested buffer completes, so the engine step escalates
/// [`FailureKind::FirstFailedOnly`] — whatever the hook configuration,
/// since a failing classification never reaches the post-hook.
pub proof fn lemma_unchecked_bounds_escalate<H: Hooks<BufModel, LaxBuf>>(
    s: Seq<u64>,
    i: u64,
    h: H::V,
)
    requires
        i >= s.len(),
    ensures
        ({
            let op = OperationV { method: BUF_GET as int, args: seq![ValueV::U64(i)] };
            let st = spec_step::<BufModel, LaxBuf, H>(CompareMode::Equal, op, s, s, h);
            &&& st.classification == Classification::FirstFailedOnly
            &&& st.failure == Some(FailureKind::FirstFailedOnly)
        }),
{
    let op = OperationV { method: BUF_GET as int, args: seq![ValueV::U64(i)] };
    assert(crate::map_surface::spec_key_arg(op) == Some(i));
}

/// The meaning of the buffer surface's registration table.
pub open spec fn spec_buf_surface_table() -> Seq<MethodDescriptorV> {
    seq![
        MethodDescriptorV {
            name: "push"@,
            args: seq![
                ArgDescriptorV { name: "v"@, kind: ArgKind::U16, mode: PassingMode::ByValue },
            ],
            compare: CompareMode::Equal,
        },
        MethodDescriptorV {
            name: "get"@,
            args: seq![
                ArgDescriptorV { name: "i"@, kind: ArgKind::U8, mode: PassingMode::ByValue },
            ],
            compare: CompareMode::Equal,
        },
        MethodDescriptorV { name: "len"@, args: seq![], compare: CompareMode::Equal },
    ]
}

/// Builds the buffer surface's registration table, exactly as
/// [`spec_buf_surface_table`] says.
pub fn buf_surface_table() -> (r: Vec<MethodDescriptor>)
    ensures
        crate::descriptor::spec_table(r@) == spec_buf_surface_table(),
{
    let mut t: Vec<MethodDescriptor> = Vec::new();

    let mut push_args: Vec<ArgDescriptor> = Vec::new();
    push_args.push(ArgDescriptor::new("v", ArgKind::U16, PassingMode::ByValue));
    t.push(MethodDescriptor::new("push", push_args, CompareMode::Equal));

    let mut get_args: Vec<ArgDescriptor> = Vec::new();
    get_args.push(ArgDescriptor::new("i", ArgKind::U8, PassingMode::ByValue));
    t.push(MethodDescriptor::new("get", get_args, CompareMode::Equal));

    t.push(MethodDescriptor::new("len", Vec::new(), CompareMode::Equal));

    proof {
        let tv = crate::descriptor::spec_table(t@);
        let sv = spec_buf_surface_table();
        assert(tv.len() == 3);
        assert(tv[0].args =~= sv[0].args);
        assert(tv[1].args =~= sv[1].args);
        assert(tv[2].args =~= sv[2].args);
        assert(tv =~= sv);
    }
    t
}

} // verus!
