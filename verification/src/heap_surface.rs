//! A max-heap surface: a reference implementation that scans an unordered
//! buffer for the maximum, a tested implementation that keeps its buffer
//! sorted, and the registration table describing the surface's methods.

use vstd::prelude::*;
use crate::boundary::{CallOutcome, CallOutcomeV};
use crate::descriptor::{
    ArgDescriptor,
    ArgDescriptorV,
    ArgKind,
    CompareMode,
    MethodDescriptor,
    MethodDescriptorV,
    Normalizer,
    PassingMode,
};
use crate::engine::Surface;
use crate::operation::{Operation, OperationV};
use crate::sort::{insert_sorted, spec_insert_sorted};
use crate::value::{Value, ValueV};

verus! {

/// Method index of `push(item)`.
pub const HEAP_PUSH: usize = 0;

/// Method index of `pop()`.
pub const HEAP_POP: usize = 1;

/// Method index of `peek()`.
pub const HEAP_PEEK: usize = 2;

/// Method index of `len()`.
pub const HEAP_LEN: usize = 3;

/// Method index of `is_empty()`.
pub const HEAP_IS_EMPTY: usize = 4;

/// Method index of `clear()`.
pub const HEAP_CLEAR: usize = 5;

/// Method index of `items()`, compared order-independently.
pub const HEAP_ITEMS: usize = 6;

/// The greatest element of a non-empty sequence.
pub open spec fn spec_max_val(s: Seq<u64>) -> u64
    decreases s.len(),
{
    if s.len() <= 1 {
        s[0]
    } else {
        let m = spec_max_val(s.drop_last());
        if s.last() > m {
            s.last()
        } else {
            m
        }
    }
}

/// The position of the first occurrence of `v`, or the length if there is
/// none.
pub open spec fn spec_find(s: Seq<u64>, v: u64) -> int
    decreases s.len(),
{
    if s.len() == 0 {
        0
    } else if s[0] == v {
        0
    } else {
        1 + spec_find(s.drop_first(), v)
    }
}

proof fn lemma_find_at(s: Seq<u64>, v: u64, i: int)
    requires
        0 <= i <= s.len(),
        forall|j: int| 0 <= j < i ==> s[j] != v,
        i < s.len() ==> s[i] == v,
        i == s.len() ==> forall|j: int| 0 <= j < s.len() ==> s[j] != v,
    ensures
        spec_find(s, v) == i,
    decreases i,
{
    if i > 0 {
        let rest = s.drop_first();
        lemma_find_at(rest, v, i - 1);
    }
}

/// Finds the position of the first occurrence of the maximum.
fn max_index(data: &Vec<u64>) -> (r: usize)
    requires
        data@.len() > 0,
    ensures
        r < data@.len(),
        data@[r as int] == spec_max_val(data@),
        spec_find(data@, spec_max_val(data@)) == r as int,
{
    let n = data.len();
    let mut best: u64 = data[0];
    let mut bi: usize = 0;
    let mut i: usize = 1;
    proof {
        assert(data@.take(1).len() == 1);
        assert(data@.take(1)[0] == data@[0]);
    }
    while i < n
        invariant
            n == data@.len(),
            1 <= i <= n,
            bi < i,
            data@[bi as int] == best,
            best == spec_max_val(data@.take(i as int)),
            forall|j: int| 0 <= j < i ==> data@[j] <= best,
            forall|j: int| 0 <= j < bi ==> data@[j] < best,
        decreases n - i,
    {
        proof {
            assert(data@.take(i as int + 1).drop_last() =~= data@.take(i as int));
            assert(data@.take(i as int + 1).last() == data@[i as int]);
        }
        if data[i] > best {
            best = data[i];
            bi = i;
        }
        i += 1;
    }
    proof {
        assert(data@.take(n as int) =~= data@);
        lemma_find_at(data@, best, bi as int);
    }
    bi
}

/// What applying one operation to the reference heap means. `pop` returns
/// the maximum and removes its first occurrence; on an empty heap `pop` and
/// `peek` complete with nothing rather than failing.
pub open spec fn spec_heap_model_apply(s: Seq<u64>, op: OperationV) -> (Seq<u64>, CallOutcomeV) {
    if op.method == HEAP_PUSH as int {
        match crate::map_surface::spec_key_arg(op) {
            Some(item) => (s.push(item), CallOutcomeV::Completed(ValueV::Unit)),
            None => (s, CallOutcomeV::Aborted),
        }
    } else if op.method == HEAP_POP as int {
        if op.args.len() == 0 {
            if s.len() == 0 {
                (s, CallOutcomeV::Completed(ValueV::OptU64(None)))
            } else {
                let m = spec_max_val(s);
                (
                    s.remove(spec_find(s, m)),
                    CallOutcomeV::Completed(ValueV::OptU64(Some(m))),
                )
            }
        } else {
            (s, CallOutcomeV::Aborted)
        }
    } else if op.method == HEAP_PEEK as int {
        if op.args.len() == 0 {
            if s.len() == 0 {
                (s, CallOutcomeV::Completed(ValueV::OptU64(None)))
            } else {
                (s, CallOutcomeV::Completed(ValueV::OptU64(Some(spec_max_val(s)))))
            }
        } else {
            (s, CallOutcomeV::Aborted)
        }
    } else if op.method == HEAP_LEN as int {
        if op.args.len() == 0 {
            (s, CallOutcomeV::Completed(ValueV::U64(s.len() as u64)))
        } else {
            (s, CallOutcomeV::Aborted)
        }
    } else if op.method == HEAP_IS_EMPTY as int {
        if op.args.len() == 0 {
            (s, CallOutcomeV::Completed(ValueV::Bool(s.len() == 0)))
        } else {
            (s, CallOutcomeV::Aborted)
        }
    } else if op.method == HEAP_CLEAR as int {
        if op.args.len() == 0 {
            (Seq::empty(), CallOutcomeV::Completed(ValueV::Unit))
        } else {
            (s, CallOutcomeV::Aborted)
        }
    } else if op.method == HEAP_ITEMS as int {
        if op.args.len() == 0 {
            (s, CallOutcomeV::Completed(ValueV::U64s(s)))
        } else {
            (s, CallOutcomeV::Aborted)
        }
    } else {
        (s, CallOutcomeV::Aborted)
    }
}

/// The reference heap: an unordered buffer scanned for its maximum, assumed
/// correct by construction.
pub struct HeapModel {
    data: Vec<u64>,
}

impl View for HeapModel {
    type V = Seq<u64>;

    closed spec fn view(&self) -> Seq<u64> {
        self.data@
    }
}

impl HeapModel {
    /// An empty reference heap.
    pub fn new() -> (r: HeapModel)
        ensures
            r@ == Seq::<u64>::empty(),
    {
        HeapModel { data: Vec::new() }
    }

    /// How many items the heap holds.
    pub fn len(&self) -> (r: usize)
        ensures
            r == self@.len(),
    {
        self.data.len()
    }
}

impl Surface for HeapModel {
    open spec fn sapply(s: Seq<u64>, op: OperationV) -> (Seq<u64>, CallOutcomeV) {
        spec_heap_model_apply(s, op)
    }

    fn apply(&mut self, op: &Operation) -> (r: CallOutcome) {
        proof {
            assert(op@.args.len() == op.args@.len());
        }
        if op.method == HEAP_PUSH {
            if op.args.len() == 1 {
                proof {
                    assert(op@.args[0] == op.args@[0]@);
                }
                match &op.args[0] {
                    Value::U64(item) => {
                        self.data.push(*item);
                        CallOutcome::Completed(Value::Unit)
                    },
                    _ => CallOutcome::Aborted,
                }
            } else {
                CallOutcome::Aborted
            }
        } else if op.method == HEAP_POP {
            if op.args.len() == 0 {
                if self.data.len() == 0 {
                    CallOutcome::Completed(Value::OptU64(None))
                } else {
                    let i = max_index(&self.data);
                    let m = self.data[i];
                    self.data.remove(i);
                    CallOutcome::Completed(Value::OptU64(Some(m)))
                }
            } else {
                CallOutcome::Aborted
            }
        } else if op.method == HEAP_PEEK {
            if op.args.len() == 0 {
                if self.data.len() == 0 {
                    CallOutcome::Completed(Value::OptU64(None))
                } else {
                    let i = max_index(&self.data);
                    CallOutcome::Completed(Value::OptU64(Some(self.data[i])))
                }
            } else {
                CallOutcome::Aborted
            }
        } else if op.method == HEAP_LEN {
            if op.args.len() == 0 {
                CallOutcome::Completed(Value::U64(self.data.len() as u64))
            } else {
                CallOutcome::Aborted
            }
        } else if op.method == HEAP_IS_EMPTY {
            if op.args.len() == 0 {
                CallOutcome::Completed(Value::Bool(self.data.len() == 0))
            } else {
                CallOutcome::Aborted
            }
        } else if op.method == HEAP_CLEAR {
            if op.args.len() == 0 {
                self.data.clear();
                CallOutcome::Completed(Value::Unit)
            } else {
                CallOutcome::Aborted
            }
        } else if op.method == HEAP_ITEMS {
            if op.args.len() == 0 {
                let items = copy_items(&self.data);
                CallOutcome::Completed(Value::U64s(items))
            } else {
                CallOutcome::Aborted
            }
        } else {
            CallOutcome::Aborted
        }
    }
}

fn copy_items(data: &Vec<u64>) -> (r: Vec<u64>)
    ensures
        r@ == data@,
{
    let n = data.len();
    let mut out: Vec<u64> = Vec::new();
    let mut i: usize = 0;
    while i < n
        invariant
            n == data@.len(),
            i <= n,
            out@ == data@.take(i as int),
        decreases n - i,
    {
        out.push(data[i]);
        i += 1;
        proof {
            assert(out@ =~= data@.take(i as int));
        }
    }
    proof {
        assert(data@.take(n as int) =~= data@);
    }
    out
}

/// What applying one operation to the tested heap means: the buffer is kept
/// sorted ascending, so the maximum is the last element.
pub open spec fn spec_ordered_heap_apply(s: Seq<u64>, op: OperationV) -> (Seq<u64>, CallOutcomeV) {
    if op.method == HEAP_PUSH as int {
        match crate::map_surface::spec_key_arg(op) {
            Some(item) => (spec_insert_sorted(item, s), CallOutcomeV::Completed(ValueV::Unit)),
            None => (s, CallOutcomeV::Aborted),
        }
    } else if op.method == HEAP_POP as int {
        if op.args.len() == 0 {
            if s.len() == 0 {
                (s, CallOutcomeV::Completed(ValueV::OptU64(None)))
            } else {
                (s.drop_last(), CallOutcomeV::Completed(ValueV::OptU64(Some(s.last()))))
            }
        } else {
            (s, CallOutcomeV::Aborted)
        }
    } else if op.method == HEAP_PEEK as int {
        if op.args.len() == 0 {
            if s.len() == 0 {
                (s, CallOutcomeV::Completed(ValueV::OptU64(None)))
            } else {
                (s, CallOutcomeV::Completed(ValueV::OptU64(Some(s.last()))))
            }
        } else {
            (s, CallOutcomeV::Aborted)
        }
    } else if op.method == HEAP_LEN as int {
        if op.args.len() == 0 {
            (s, CallOutcomeV::Completed(ValueV::U64(s.len() as u64)))
        } else {
            (s, CallOutcomeV::Aborted)
        }
    } else if op.method == HEAP_IS_EMPTY as int {
        if op.args.len() == 0 {
            (s, CallOutcomeV::Completed(ValueV::Bool(s.len() == 0)))
        } else {
            (s, CallOutcomeV::Aborted)
        }
    } else if op.method == HEAP_CLEAR as int {
        if op.args.len() == 0 {
            (Seq::empty(), CallOutcomeV::Completed(ValueV::Unit))
        } else {
            (s, CallOutcomeV::Aborted)
        }
    } else if op.method == HEAP_ITEMS as int {
        if op.args.len() == 0 {
            (s, CallOutcomeV::Completed(ValueV::U64s(s)))
        } else {
            (s, CallOutcomeV::Aborted)
        }
    } else {
        (s, CallOutcomeV::Aborted)
    }
}

/// The tested heap: a buffer kept sorted ascending, popping from the end.
/// Its iteration order differs from the reference heap's, so `items` is
/// compared order-independently.
pub struct OrderedHeap {
    data: Vec<u64>,
}

impl View for OrderedHeap {
    type V = Seq<u64>;

    closed spec fn view(&self) -> Seq<u64> {
        self.data@
    }
}

impl OrderedHeap {
    /// An empty tested heap.
    pub fn new() -> (r: OrderedHeap)
        ensures
            r@ == Seq::<u64>::empty(),
    {
        OrderedHeap { data: Vec::new() }
    }

    /// How many items the heap holds.
    pub fn len(&self) -> (r: usize)
        ensures
            r == self@.len(),
    {
        self.data.len()
    }
}

impl Surface for OrderedHeap {
    open spec fn sapply(s: Seq<u64>, op: OperationV) -> (Seq<u64>, CallOutcomeV) {
        spec_ordered_heap_apply(s, op)
    }

    fn apply(&mut self, op: &Operation) -> (r: CallOutcome) {
        proof {
            assert(op@.args.len() == op.args@.len());
        }
        if op.method == HEAP_PUSH {
            if op.args.len() == 1 {
                proof {
                    assert(op@.args[0] == op.args@[0]@);
                }
                match &op.args[0] {
                    Value::U64(item) => {
                        insert_sorted(*item, &mut self.data);
                        CallOutcome::Completed(Value::Unit)
                    },
                    _ => CallOutcome::Aborted,
                }
            } else {
                CallOutcome::Aborted
            }
        } else if op.method == HEAP_POP {
            if op.args.len() == 0 {
                let r = self.data.pop();
                proof {
                    if old(self)@.len() > 0 {
                        assert(self.data@ =~= old(self)@.drop_last());
                    }
                }
                CallOutcome::Completed(Value::OptU64(r))
            } else {
                CallOutcome::Aborted
            }
        } else if op.method == HEAP_PEEK {
            if op.args.len() == 0 {
                if self.data.len() == 0 {
                    CallOutcome::Completed(Value::OptU64(None))
                } else {
                    let last = self.data[self.data.len() - 1];
                    CallOutcome::Completed(Value::OptU64(Some(last)))
                }
            } else {
                CallOutcome::Aborted
            }
        } else if op.method == HEAP_LEN {
            if op.args.len() == 0 {
                CallOutcome::Completed(Value::U64(self.data.len() as u64))
            } else {
                CallOutcome::Aborted
            }
        } else if op.method == HEAP_IS_EMPTY {
            if op.args.len() == 0 {
                CallOutcome::Completed(Value::Bool(self.data.len() == 0))
            } else {
                CallOutcome::Aborted
            }
        } else if op.method == HEAP_CLEAR {
            if op.args.len() == 0 {
                self.data.clear();
                CallOutcome::Completed(Value::Unit)
            } else {
                CallOutcome::Aborted
            }
        } else if op.method == HEAP_ITEMS {
            if op.args.len() == 0 {
                let items = copy_items(&self.data);
                CallOutcome::Completed(Value::U64s(items))
            } else {
                CallOutcome::Aborted
            }
        } else {
            CallOutcome::Aborted
        }
    }
}

/// The meaning of the heap surface's registration table.
pub open spec fn spec_heap_surface_table() -> Seq<MethodDescriptorV> {
    seq![
        MethodDescriptorV {
            name: "push"@,
            args: seq![
                ArgDescriptorV { name: "item"@, kind: ArgKind::U16, mode: PassingMode::ByValue },
            ],
            compare: CompareMode::Equal,
        },
        MethodDescriptorV { name: "pop"@, args: seq![], compare: CompareMode::Equal },
        MethodDescriptorV { name: "peek"@, args: seq![], compare: CompareMode::Equal },
        MethodDescriptorV { name: "len"@, args: seq![], compare: CompareMode::Equal },
        MethodDescriptorV { name: "is_empty"@, args: seq![], compare: CompareMode::Equal },
        MethodDescriptorV { name: "clear"@, args: seq![], compare: CompareMode::Equal },
        MethodDescriptorV {
            name: "items"@,
            args: seq![],
            compare: CompareMode::EqualWith(Normalizer::SortU64s),
        },
    ]
}

/// Builds the heap surface's registration table, exactly as
/// [`spec_heap_surface_table`] says.
pub fn heap_surface_table() -> (r: Vec<MethodDescriptor>)
    ensures
        crate::descriptor::spec_table(r@) == spec_heap_surface_table(),
{
    let mut t: Vec<MethodDescriptor> = Vec::new();

    let mut push_args: Vec<ArgDescriptor> = Vec::new();
    push_args.push(ArgDescriptor::new("item", ArgKind::U16, PassingMode::ByValue));
    t.push(MethodDescriptor::new("push", push_args, CompareMode::Equal));

    t.push(MethodDescriptor::new("pop", Vec::new(), CompareMode::Equal));
    t.push(MethodDescriptor::new("peek", Vec::new(), CompareMode::Equal));
    t.push(MethodDescriptor::new("len", Vec::new(), CompareMode::Equal));
    t.push(MethodDescriptor::new("is_empty", Vec::new(), CompareMode::Equal));
    t.push(MethodDescriptor::new("clear", Vec::new(), CompareMode::Equal));
    t.push(
        MethodDescriptor::new("items", Vec::new(), CompareMode::EqualWith(Normalizer::SortU64s)),
    );

    proof {
        let tv = crate::descriptor::spec_table(t@);
        let sv = spec_heap_surface_table();
        assert(tv.len() == 7);
        assert(tv[0].args =~= sv[0].args);
        assert(tv[1].args =~= sv[1].args);
        assert(tv[2].args =~= sv[2].args);
        assert(tv[3].args =~= sv[3].args);
        assert(tv[4].args =~= sv[4].args);
        assert(tv[5].args =~= sv[5].args);
        assert(tv[6].args =~= sv[6].args);
        assert(tv =~= sv);
    }
    t
}

} // verus!
