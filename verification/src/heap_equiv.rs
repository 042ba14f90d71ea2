//! The two shipped heap implementations are semantically equivalent: a
//! reference heap buffer and a sorted tested buffer holding the same
//! elements give every operation of the heap surface's table outcomes that
//! agree as the comparison sees them, and stay related. By the engine's
//! no-false-divergence law, a run over the two never reports a result
//! mismatch or a one-sided abrupt termination.

use vstd::prelude::*;
use crate::classify::{FailureKind, spec_canonical_outcome};
use crate::descriptor::{CompareMode, Normalizer};
use crate::engine::{Hooks, RunVerdictV, Surface, spec_run_from};
use crate::heap_surface::{
    HEAP_CLEAR,
    HEAP_IS_EMPTY,
    HEAP_ITEMS,
    HEAP_LEN,
    HEAP_PEEK,
    HEAP_POP,
    HEAP_PUSH,
    HeapModel,
    OrderedHeap,
    spec_find,
    spec_heap_surface_table,
    spec_max_val,
};
use crate::operation::{OperationV, op_matches_table};
use crate::sort::{
    lemma_insert_sorted_multiset,
    lemma_insert_sorted_sorted,
    lemma_sort_eq_of_multiset,
    spec_sorted,
};

verus! {

/// When the reference heap and the tested heap count as the same heap: the
/// same elements, and the tested buffer sorted as its implementation keeps
/// it.
pub open spec fn heap_equivalent(m: Seq<u64>, t: Seq<u64>) -> bool {
    &&& m.to_multiset() == t.to_multiset()
    &&& spec_sorted(t)
}

/// [`heap_equivalent`], as the relation the engine's law quantifies over.
pub open spec fn heap_equiv_rel() -> spec_fn(Seq<u64>, Seq<u64>) -> bool {
    |m: Seq<u64>, t: Seq<u64>| heap_equivalent(m, t)
}

/// The maximum is an element, and no element exceeds it.
proof fn lemma_max_val_props(s: Seq<u64>)
    requires
        s.len() > 0,
    ensures
        s.contains(spec_max_val(s)),
        forall|i: int| 0 <= i < s.len() ==> s[i] <= spec_max_val(s),
    decreases s.len(),
{
    if s.len() == 1 {
        assert(s[0] == spec_max_val(s));
    } else {
        let head = s.drop_last();
        lemma_max_val_props(head);
        let mx = spec_max_val(s);
        if s.last() > spec_max_val(head) {
            assert(s[s.len() - 1] == mx);
        } else {
            let i = choose|i: int| 0 <= i < head.len() && head[i] == mx;
            assert(s[i] == mx);
        }
        assert forall|i: int| 0 <= i < s.len() implies s[i] <= mx by {
            if i < s.len() - 1 {
                assert(head[i] <= spec_max_val(head));
            }
        }
    }
}

/// The first position of a present element holds it.
proof fn lemma_find_present(s: Seq<u64>, v: u64)
    requires
        s.contains(v),
    ensures
        0 <= spec_find(s, v) < s.len(),
        s[spec_find(s, v)] == v,
    decreases s.len(),
{
    if s[0] != v {
        let rest = s.drop_first();
        let i = choose|i: int| 0 <= i < s.len() && s[i] == v;
        assert(rest[i - 1] == v);
        assert(rest.contains(v));
        lemma_find_present(rest, v);
        assert(s[1 + spec_find(rest, v)] == rest[spec_find(rest, v)]);
    }
}

/// On related heaps, the reference maximum is the last element of the
/// sorted tested buffer.
proof fn lemma_max_is_last(m: Seq<u64>, t: Seq<u64>)
    requires
        heap_equivalent(m, t),
        m.len() > 0,
        t.len() > 0,
    ensures
        spec_max_val(m) == t.last(),
{
    broadcast use vstd::seq_lib::group_to_multiset_ensures;

    lemma_max_val_props(m);
    let mx = spec_max_val(m);
    assert(m.to_multiset().count(mx) > 0);
    assert(t.contains(mx));
    let i = choose|i: int| 0 <= i < t.len() && t[i] == mx;
    assert(t[i] <= t.last());
    assert(t.contains(t.last()));
    assert(m.to_multiset().count(t.last()) > 0);
    assert(m.contains(t.last()));
    let j = choose|j: int| 0 <= j < m.len() && m[j] == t.last();
    assert(m[j] <= mx);
}

/// One step of the equivalence: on related heaps, any operation of the heap
/// surface's table comes to outcomes that agree as the method's comparison
/// sees them, and leaves related heaps.
proof fn lemma_heap_step(m: Seq<u64>, t: Seq<u64>, op: OperationV)
    requires
        heap_equivalent(m, t),
        op_matches_table(spec_heap_surface_table(), op),
    ensures
        ({
            let cmp = spec_heap_surface_table()[op.method].compare;
            spec_canonical_outcome(cmp, HeapModel::sapply(m, op).1) == spec_canonical_outcome(
                cmp,
                OrderedHeap::sapply(t, op).1,
            )
        }),
        heap_equivalent(HeapModel::sapply(m, op).0, OrderedHeap::sapply(t, op).0),
{
    broadcast use vstd::seq_lib::group_to_multiset_ensures;
    broadcast use vstd::multiset::group_multiset_axioms;

    let table = spec_heap_surface_table();
    assert(m.len() == m.to_multiset().len());
    assert(t.len() == t.to_multiset().len());
    if op.method == HEAP_PUSH as int {
        match crate::map_surface::spec_key_arg(op) {
            Some(item) => {
                lemma_insert_sorted_multiset(item, t);
                lemma_insert_sorted_sorted(item, t);
                assert(m.push(item).to_multiset() == m.to_multiset().insert(item));
            },
            None => {},
        }
    } else if op.method == HEAP_POP as int || op.method == HEAP_PEEK as int {
        if op.args.len() == 0 && m.len() > 0 {
            lemma_max_is_last(m, t);
            let mx = spec_max_val(m);
            if op.method == HEAP_POP as int {
                lemma_max_val_props(m);
                lemma_find_present(m, mx);
                let i = spec_find(m, mx);
                assert(m.remove(i).to_multiset() == m.to_multiset().remove(mx));
                let t2 = t.drop_last();
                assert(t =~= t2.push(t.last()));
                assert(t2.push(t.last()).to_multiset() == t2.to_multiset().insert(t.last()));
                assert(t2.to_multiset().insert(t.last()).remove(t.last()) =~= t2.to_multiset());
                assert forall|a: int, b: int| 0 <= a < b < t2.len() implies t2[a] <= t2[b] by {
                    assert(t[a] <= t[b]);
                }
            }
        }
    } else if op.method == HEAP_ITEMS as int {
        assert(table[op.method].compare == CompareMode::EqualWith(Normalizer::SortU64s));
        lemma_sort_eq_of_multiset(m, t);
    } else {
    }
}

/// The two shipped heap implementations are semantically equivalent for the
/// heap surface's table, under [`heap_equivalent`].
pub proof fn lemma_heap_surfaces_equivalent()
    ensures
        crate::laws::equivalent_modulo_normalization::<HeapModel, OrderedHeap>(
            heap_equiv_rel(),
            spec_heap_surface_table(),
        ),
{
    let r = heap_equiv_rel();
    let table = spec_heap_surface_table();
    assert forall|m: Seq<u64>, t: Seq<u64>, op: OperationV|
        #![trigger HeapModel::sapply(m, op), OrderedHeap::sapply(t, op)]
        r(m, t) && op_matches_table(table, op) implies {
        &&& spec_canonical_outcome(table[op.method].compare, HeapModel::sapply(m, op).1)
            == spec_canonical_outcome(table[op.method].compare, OrderedHeap::sapply(t, op).1)
        &&& r(HeapModel::sapply(m, op).0, OrderedHeap::sapply(t, op).0)
    } by {
        lemma_heap_step(m, t, op);
    }
}

/// No false divergence on the shipped heaps: over any operation sequence of
/// the heap surface's table, a run of the reference heap against a sorted
/// tested heap holding the same elements never reports a result mismatch or
/// a one-sided abrupt termination; only a post-hook invariant can fail such
/// a run.
pub proof fn lemma_heap_run_never_falsely_diverges<H: Hooks<HeapModel, OrderedHeap>>(
    ops: Seq<OperationV>,
    m: Seq<u64>,
    t: Seq<u64>,
    h: H::V,
)
    requires
        heap_equivalent(m, t),
        forall|j: int|
            0 <= j < ops.len() ==> op_matches_table(spec_heap_surface_table(), #[trigger] ops[j]),
    ensures
        ({
            let rs = spec_run_from::<HeapModel, OrderedHeap, H>(
                spec_heap_surface_table(),
                ops,
                0,
                m,
                t,
                h,
            );
            rs.verdict matches RunVerdictV::Failed { index, kind } ==> kind
                == FailureKind::InvariantViolation
        }),
{
    lemma_heap_surfaces_equivalent();
    crate::laws::lemma_no_false_divergence_run_normalized::<HeapModel, OrderedHeap, H>(
        heap_equiv_rel(),
        spec_heap_surface_table(),
        ops,
        0,
        m,
        t,
        h,
    );
}

/// The same, from the raw input: whatever byte buffer the fuzzer supplies,
/// the operations it decodes to are operations of the heap surface's table,
/// and a run of the shipped heaps over them never reports a result mismatch
/// or a one-sided abrupt termination.
pub proof fn lemma_heap_run_on_any_buffer<H: Hooks<HeapModel, OrderedHeap>>(
    bytes: Seq<u8>,
    m: Seq<u64>,
    t: Seq<u64>,
    h: H::V,
)
    requires
        heap_equivalent(m, t),
    ensures
        ({
            let ops = crate::decode::spec_decode_ops(spec_heap_surface_table(), bytes, 0);
            let rs = spec_run_from::<HeapModel, OrderedHeap, H>(
                spec_heap_surface_table(),
                ops,
                0,
                m,
                t,
                h,
            );
            rs.verdict matches RunVerdictV::Failed { index, kind } ==> kind
                == FailureKind::InvariantViolation
        }),
{
    crate::decode::lemma_decode_ops_wf(spec_heap_surface_table(), bytes, 0);
    let ops = crate::decode::spec_decode_ops(spec_heap_surface_table(), bytes, 0);
    lemma_heap_run_never_falsely_diverges::<H>(ops, m, t, h);
}

} // verus!
