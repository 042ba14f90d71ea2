//! The two shipped map implementations are semantically equivalent: related
//! states — same key-value association, keys unique on both sides, the same
//! keys up to order, no injected fault — give every operation of the map
//! surface's table outcomes that agree as the comparison sees them, and
//! leave related states behind. By the engine's no-false-divergence law, a
//! run over the two never reports a result mismatch or a one-sided abrupt
//! termination.

use vstd::prelude::*;
use crate::boundary::CallOutcomeV;
use crate::classify::{FailureKind, spec_canonical_outcome};
use crate::descriptor::{CompareMode, Normalizer};
use crate::engine::{Hooks, RunVerdictV, Surface, spec_run_from};
use crate::map_surface::{
    CapacityMap,
    CapacityMapV,
    MapModel,
    MAP_CLEAR,
    MAP_CONTAINS_KEY,
    MAP_GET,
    MAP_INSERT,
    MAP_IS_EMPTY,
    MAP_KEYS,
    MAP_LEN,
    MAP_REMOVE,
    spec_front_insert,
    spec_key_arg,
    spec_keys,
    spec_kv_args,
    spec_lookup,
    spec_map_insert,
    spec_map_remove,
    spec_map_surface_table,
};
use crate::operation::{OperationV, op_matches_table};

verus! {

/// No two entries share a key. Both map implementations keep this, and the
/// removal argument depends on it.
pub open spec fn keys_unique(s: Seq<(u64, u64)>) -> bool {
    forall|i: int, j: int| 0 <= i < j < s.len() ==> s[i].0 != s[j].0
}

/// A key looks up to nothing exactly when no entry carries it.
proof fn lemma_lookup_none_iff(s: Seq<(u64, u64)>, k: u64)
    ensures
        (spec_lookup(s, k) is None) <==> (forall|i: int| 0 <= i < s.len() ==> s[i].0 != k),
    decreases s.len(),
{
    if s.len() > 0 {
        let rest = s.drop_first();
        lemma_lookup_none_iff(rest, k);
        if s[0].0 != k {
            assert forall|i: int| 0 <= i < rest.len() implies rest[i] == s[i + 1] by {}
            if spec_lookup(s, k) is None {
                assert forall|i: int| 0 <= i < s.len() implies s[i].0 != k by {
                    if i > 0 {
                        assert(rest[i - 1].0 != k);
                    }
                }
            }
        }
    }
}

/// What a lookup finds after an insertion: the inserted value under the
/// inserted key, everything else untouched.
proof fn lemma_insert_lookup(s: Seq<(u64, u64)>, k: u64, v: u64, k2: u64)
    ensures
        spec_lookup(spec_map_insert(s, k, v), k2) == if k2 == k {
            Some(v)
        } else {
            spec_lookup(s, k2)
        },
    decreases s.len(),
{
    reveal_with_fuel(spec_lookup, 2);
    if s.len() == 0 {
        assert(seq![(k, v)].drop_first() =~= Seq::<(u64, u64)>::empty());
    } else if s[0].0 == k {
        let r = seq![(k, v)] + s.drop_first();
        assert(r.drop_first() =~= s.drop_first());
        assert(r[0] == (k, v));
    } else {
        let rest = s.drop_first();
        lemma_insert_lookup(rest, k, v, k2);
        let r = seq![s[0]] + spec_map_insert(rest, k, v);
        assert(r.drop_first() =~= spec_map_insert(rest, k, v));
        assert(r[0] == s[0]);
    }
}

/// The same, for the tested map's front-first insertion.
proof fn lemma_front_insert_lookup(s: Seq<(u64, u64)>, k: u64, v: u64, k2: u64)
    ensures
        spec_lookup(spec_front_insert(s, k, v), k2) == if k2 == k {
            Some(v)
        } else {
            spec_lookup(s, k2)
        },
{
    if spec_lookup(s, k) is Some {
        lemma_insert_lookup(s, k, v, k2);
    } else {
        let r = seq![(k, v)] + s;
        assert(r.drop_first() =~= s);
        assert(r[0] == (k, v));
    }
}

/// What a lookup finds after a removal, on unique keys: nothing under the
/// removed key, everything else untouched.
proof fn lemma_remove_lookup(s: Seq<(u64, u64)>, k: u64, k2: u64)
    requires
        keys_unique(s),
    ensures
        spec_lookup(spec_map_remove(s, k), k2) == if k2 == k {
            None::<u64>
        } else {
            spec_lookup(s, k2)
        },
    decreases s.len(),
{
    if s.len() == 0 {
    } else {
        let rest = s.drop_first();
        assert forall|i: int| 0 <= i < rest.len() implies rest[i] == s[i + 1] by {}
        assert(keys_unique(rest));
        if s[0].0 == k {
            assert forall|i: int| 0 <= i < rest.len() implies rest[i].0 != k by {
                assert(s[0].0 != s[i + 1].0);
            }
            lemma_lookup_none_iff(rest, k);
        } else {
            lemma_remove_lookup(rest, k, k2);
            let r = seq![s[0]] + spec_map_remove(rest, k);
            assert(r.drop_first() =~= spec_map_remove(rest, k));
            assert(r[0] == s[0]);
        }
    }
}

proof fn lemma_keys_cons(x: (u64, u64), s: Seq<(u64, u64)>)
    ensures
        spec_keys(seq![x] + s) == seq![x.0] + spec_keys(s),
{
    assert(spec_keys(seq![x] + s) =~= seq![x.0] + spec_keys(s));
}

/// Insertion keeps keys unique.
proof fn lemma_insert_unique(s: Seq<(u64, u64)>, k: u64, v: u64)
    requires
        keys_unique(s),
    ensures
        keys_unique(spec_map_insert(s, k, v)),
    decreases s.len(),
{
    if s.len() == 0 {
    } else if s[0].0 == k {
        let r = seq![(k, v)] + s.drop_first();
        assert forall|i: int, j: int| 0 <= i < j < r.len() implies r[i].0 != r[j].0 by {
            if i == 0 {
                assert(r[j] == s[j]);
                assert(s[0].0 != s[j].0);
            } else {
                assert(r[i] == s[i] && r[j] == s[j]);
            }
        }
    } else {
        let rest = s.drop_first();
        assert forall|i: int| 0 <= i < rest.len() implies rest[i] == s[i + 1] by {}
        assert(keys_unique(rest));
        lemma_insert_unique(rest, k, v);
        let ins = spec_map_insert(rest, k, v);
        lemma_insert_lookup(rest, k, v, s[0].0);
        lemma_lookup_none_iff(rest, s[0].0);
        assert forall|i: int| 0 <= i < rest.len() implies rest[i].0 != s[0].0 by {
            assert(s[0].0 != s[i + 1].0);
        }
        lemma_lookup_none_iff(ins, s[0].0);
        let r = seq![s[0]] + ins;
        assert forall|i: int, j: int| 0 <= i < j < r.len() implies r[i].0 != r[j].0 by {
            if i == 0 {
                assert(ins[j - 1].0 != s[0].0);
            } else {
                assert(ins[i - 1].0 != ins[j - 1].0);
            }
        }
    }
}

/// Front-first insertion keeps keys unique.
proof fn lemma_front_insert_unique(s: Seq<(u64, u64)>, k: u64, v: u64)
    requires
        keys_unique(s),
    ensures
        keys_unique(spec_front_insert(s, k, v)),
{
    if spec_lookup(s, k) is Some {
        lemma_insert_unique(s, k, v);
    } else {
        lemma_lookup_none_iff(s, k);
        let r = seq![(k, v)] + s;
        assert forall|i: int, j: int| 0 <= i < j < r.len() implies r[i].0 != r[j].0 by {
            if i == 0 {
                assert(r[j] == s[j - 1]);
                assert(s[j - 1].0 != k);
            } else {
                assert(r[i] == s[i - 1] && r[j] == s[j - 1]);
            }
        }
    }
}

/// What insertion does to the key sequence: nothing when the key was
/// present, one more key at the end when it was not.
proof fn lemma_insert_keys(s: Seq<(u64, u64)>, k: u64, v: u64)
    ensures
        spec_lookup(s, k) is Some ==> spec_keys(spec_map_insert(s, k, v)) == spec_keys(s),
        spec_lookup(s, k) is None ==> spec_keys(spec_map_insert(s, k, v)) == spec_keys(s).push(k),
    decreases s.len(),
{
    reveal_with_fuel(spec_lookup, 2);
    if s.len() == 0 {
        assert(spec_keys(seq![(k, v)]) =~= spec_keys(s).push(k));
    } else if s[0].0 == k {
        assert(spec_keys(seq![(k, v)] + s.drop_first()) =~= spec_keys(s));
    } else {
        let rest = s.drop_first();
        lemma_insert_keys(rest, k, v);
        let ins = spec_map_insert(rest, k, v);
        lemma_keys_cons(s[0], ins);
        if spec_lookup(rest, k) is Some {
            assert(seq![s[0].0] + spec_keys(rest) =~= spec_keys(s));
        } else {
            assert(seq![s[0].0] + spec_keys(rest).push(k) =~= spec_keys(s).push(k));
        }
    }
}

/// What front-first insertion does to the key sequence: nothing when the
/// key was present, one more key at the front when it was not.
proof fn lemma_front_insert_keys(s: Seq<(u64, u64)>, k: u64, v: u64)
    ensures
        spec_lookup(s, k) is Some ==> spec_keys(spec_front_insert(s, k, v)) == spec_keys(s),
        spec_lookup(s, k) is None ==> spec_keys(spec_front_insert(s, k, v)) == seq![k]
            + spec_keys(s),
{
    if spec_lookup(s, k) is Some {
        lemma_insert_keys(s, k, v);
    } else {
        lemma_keys_cons((k, v), s);
    }
}

/// What removal of a present key does to the keys, as a multiset: exactly
/// one occurrence of that key goes away.
proof fn lemma_remove_keys_multiset(s: Seq<(u64, u64)>, k: u64)
    requires
        keys_unique(s),
        spec_lookup(s, k) is Some,
    ensures
        spec_keys(spec_map_remove(s, k)).to_multiset() == spec_keys(s).to_multiset().remove(k),
    decreases s.len(),
{
    broadcast use vstd::seq_lib::group_to_multiset_ensures;
    broadcast use vstd::multiset::group_multiset_axioms;

    let rest = s.drop_first();
    assert forall|i: int| 0 <= i < rest.len() implies rest[i] == s[i + 1] by {}
    assert(keys_unique(rest));
    assert(seq![s[0]] + rest =~= s);
    if s[0].0 == k {
        lemma_keys_cons(s[0], rest);
        assert(seq![k] + spec_keys(rest) =~= spec_keys(rest).insert(0, k));
        assert(spec_keys(rest).insert(0, k).to_multiset() == spec_keys(rest).to_multiset().insert(
            k,
        ));
        assert(spec_keys(rest).to_multiset().insert(k).remove(k) =~= spec_keys(
            rest,
        ).to_multiset());
    } else {
        lemma_remove_lookup(rest, k, k);
        lemma_remove_keys_multiset(rest, k);
        let rem = spec_map_remove(rest, k);
        lemma_keys_cons(s[0], rem);
        lemma_keys_cons(s[0], rest);
        assert(seq![s[0].0] + spec_keys(rem) =~= spec_keys(rem).insert(0, s[0].0));
        assert(spec_keys(rem).insert(0, s[0].0).to_multiset() == spec_keys(
            rem,
        ).to_multiset().insert(s[0].0));
        assert(seq![s[0].0] + spec_keys(rest) =~= spec_keys(rest).insert(0, s[0].0));
        assert(spec_keys(rest).insert(0, s[0].0).to_multiset() == spec_keys(
            rest,
        ).to_multiset().insert(s[0].0));
        assert(spec_keys(rest).to_multiset().remove(k).insert(s[0].0) =~= spec_keys(
            rest,
        ).to_multiset().insert(s[0].0).remove(k));
    }
}

/// Removal keeps keys unique.
proof fn lemma_remove_unique(s: Seq<(u64, u64)>, k: u64)
    requires
        keys_unique(s),
    ensures
        keys_unique(spec_map_remove(s, k)),
    decreases s.len(),
{
    if s.len() == 0 {
    } else {
        let rest = s.drop_first();
        assert forall|i: int| 0 <= i < rest.len() implies rest[i] == s[i + 1] by {}
        assert(keys_unique(rest));
        if s[0].0 == k {
        } else {
            lemma_remove_unique(rest, k);
            let rem = spec_map_remove(rest, k);
            lemma_remove_lookup(rest, k, s[0].0);
            lemma_lookup_none_iff(rest, s[0].0);
            assert forall|i: int| 0 <= i < rest.len() implies rest[i].0 != s[0].0 by {
                assert(s[0].0 != s[i + 1].0);
            }
            lemma_lookup_none_iff(rem, s[0].0);
            let r = seq![s[0]] + rem;
            assert forall|i: int, j: int| 0 <= i < j < r.len() implies r[i].0 != r[j].0 by {
                if i == 0 {
                    assert(rem[j - 1].0 != s[0].0);
                } else {
                    assert(rem[i - 1].0 != rem[j - 1].0);
                }
            }
        }
    }
}

/// Removing an absent key changes nothing.
proof fn lemma_remove_absent(s: Seq<(u64, u64)>, k: u64)
    requires
        spec_lookup(s, k) is None,
    ensures
        spec_map_remove(s, k) == s,
    decreases s.len(),
{
    if s.len() > 0 {
        let rest = s.drop_first();
        lemma_remove_absent(rest, k);
        assert(seq![s[0]] + rest =~= s);
    }
}

/// When the reference map and the tested map count as the same map: no
/// injected fault, unique keys on both sides, the same value under every
/// key, and the same keys up to order.
pub open spec fn map_equivalent(m: Seq<(u64, u64)>, t: CapacityMapV) -> bool {
    &&& !t.skip_removal
    &&& keys_unique(m)
    &&& keys_unique(t.entries)
    &&& (forall|k: u64| #[trigger] spec_lookup(m, k) == spec_lookup(t.entries, k))
    &&& spec_keys(m).to_multiset() == spec_keys(t.entries).to_multiset()
}

/// [`map_equivalent`], as the relation the engine's law quantifies over.
pub open spec fn map_equiv_rel() -> spec_fn(Seq<(u64, u64)>, CapacityMapV) -> bool {
    |m: Seq<(u64, u64)>, t: CapacityMapV| map_equivalent(m, t)
}

/// The empty reference map and an empty, fault-free tested map count as the
/// same map, whatever capacity the tested one starts with.
pub proof fn lemma_map_equivalent_empty(t: CapacityMapV)
    requires
        t.entries == Seq::<(u64, u64)>::empty(),
        !t.skip_removal,
    ensures
        map_equivalent(Seq::empty(), t),
{
    assert(spec_keys(Seq::<(u64, u64)>::empty()) =~= Seq::<u64>::empty());
}

/// One step of the equivalence: on states that count as the same map, any
/// operation of the map surface's table comes to outcomes that agree as the
/// method's comparison sees them, and leaves states that count as the same
/// map again.
proof fn lemma_map_step(m: Seq<(u64, u64)>, t: CapacityMapV, op: OperationV)
    requires
        map_equivalent(m, t),
        op_matches_table(spec_map_surface_table(), op),
    ensures
        ({
            let cmp = spec_map_surface_table()[op.method].compare;
            spec_canonical_outcome(cmp, MapModel::sapply(m, op).1) == spec_canonical_outcome(
                cmp,
                CapacityMap::sapply(t, op).1,
            )
        }),
        map_equivalent(MapModel::sapply(m, op).0, CapacityMap::sapply(t, op).0),
{
    broadcast use vstd::seq_lib::group_to_multiset_ensures;
    broadcast use vstd::multiset::group_multiset_axioms;

    let table = spec_map_surface_table();
    let e = t.entries;
    // The key counts agree, so the entry counts do.
    assert(spec_keys(m).len() == spec_keys(m).to_multiset().len());
    assert(spec_keys(e).len() == spec_keys(e).to_multiset().len());
    assert(m.len() == e.len());
    if op.method == MAP_INSERT as int {
        match spec_kv_args(op) {
            Some((k, v)) => {
                assert(spec_lookup(m, k) == spec_lookup(e, k));
                lemma_insert_unique(m, k, v);
                lemma_front_insert_unique(e, k, v);
                let m2 = spec_map_insert(m, k, v);
                let e2 = spec_front_insert(e, k, v);
                assert forall|k2: u64| #[trigger] spec_lookup(m2, k2) == spec_lookup(
                    e2,
                    k2,
                ) by {
                    lemma_insert_lookup(m, k, v, k2);
                    lemma_front_insert_lookup(e, k, v, k2);
                }
                lemma_insert_keys(m, k, v);
                lemma_front_insert_keys(e, k, v);
                if spec_lookup(m, k) is None {
                    assert(seq![k] + spec_keys(e) =~= spec_keys(e).insert(0, k));
                    assert(spec_keys(m2).to_multiset() == spec_keys(m).to_multiset().insert(k));
                    assert(spec_keys(e2).to_multiset() == spec_keys(e).to_multiset().insert(k));
                }
            },
            None => {},
        }
    } else if op.method == MAP_REMOVE as int {
        match spec_key_arg(op) {
            Some(k) => {
                assert(spec_lookup(m, k) == spec_lookup(e, k));
                if spec_lookup(m, k) is None {
                    lemma_remove_absent(m, k);
                    lemma_remove_absent(e, k);
                } else {
                    lemma_remove_unique(m, k);
                    lemma_remove_unique(e, k);
                    let m2 = spec_map_remove(m, k);
                    let e2 = spec_map_remove(e, k);
                    assert forall|k2: u64| #[trigger] spec_lookup(m2, k2) == spec_lookup(
                        e2,
                        k2,
                    ) by {
                        lemma_remove_lookup(m, k, k2);
                        lemma_remove_lookup(e, k, k2);
                    }
                    lemma_remove_keys_multiset(m, k);
                    lemma_remove_keys_multiset(e, k);
                }
            },
            None => {},
        }
    } else if op.method == MAP_CONTAINS_KEY as int || op.method == MAP_GET as int {
        match spec_key_arg(op) {
            Some(k) => {
                assert(spec_lookup(m, k) == spec_lookup(e, k));
            },
            None => {},
        }
    } else if op.method == MAP_LEN as int || op.method == MAP_IS_EMPTY as int {
        assert(m.len() == e.len());
    } else if op.method == MAP_CLEAR as int {
        lemma_map_equivalent_empty(CapacityMap::sapply(t, op).0);
    } else if op.method == MAP_KEYS as int {
        assert(table[op.method].compare == CompareMode::EqualWith(Normalizer::SortU64s));
        crate::sort::lemma_sort_eq_of_multiset(spec_keys(m), spec_keys(e));
    } else {
    }
}

/// The two shipped map implementations are semantically equivalent for the
/// map surface's table, under [`map_equivalent`].
pub proof fn lemma_map_surfaces_equivalent()
    ensures
        crate::laws::equivalent_modulo_normalization::<MapModel, CapacityMap>(
            map_equiv_rel(),
            spec_map_surface_table(),
        ),
{
    let r = map_equiv_rel();
    let table = spec_map_surface_table();
    assert forall|m: Seq<(u64, u64)>, t: CapacityMapV, op: OperationV|
        #![trigger MapModel::sapply(m, op), CapacityMap::sapply(t, op)]
        r(m, t) && op_matches_table(table, op) implies {
        &&& spec_canonical_outcome(table[op.method].compare, MapModel::sapply(m, op).1)
            == spec_canonical_outcome(table[op.method].compare, CapacityMap::sapply(t, op).1)
        &&& r(MapModel::sapply(m, op).0, CapacityMap::sapply(t, op).0)
    } by {
        lemma_map_step(m, t, op);
    }
}

/// No false divergence on the shipped maps: over any operation sequence of
/// the map surface's table — the decoder produces no other — a run of the
/// reference map against a fault-free tested map that counts as the same
/// map never reports a result mismatch or a one-sided abrupt termination;
/// only a post-hook invariant can fail such a run.
pub proof fn lemma_map_run_never_falsely_diverges<H: Hooks<MapModel, CapacityMap>>(
    ops: Seq<OperationV>,
    m: Seq<(u64, u64)>,
    t: CapacityMapV,
    h: H::V,
)
    requires
        map_equivalent(m, t),
        forall|j: int|
            0 <= j < ops.len() ==> op_matches_table(spec_map_surface_table(), #[trigger] ops[j]),
    ensures
        ({
            let rs = spec_run_from::<MapModel, CapacityMap, H>(
                spec_map_surface_table(),
                ops,
                0,
                m,
                t,
                h,
            );
            rs.verdict matches RunVerdictV::Failed { index, kind } ==> kind
                == FailureKind::InvariantViolation
        }),
{
    lemma_map_surfaces_equivalent();
    crate::laws::lemma_no_false_divergence_run_normalized::<MapModel, CapacityMap, H>(
        map_equiv_rel(),
        spec_map_surface_table(),
        ops,
        0,
        m,
        t,
        h,
    );
}

/// Forced divergence, proved: against a tested map whose removal answers
/// correctly but removes nothing, removing a present key is classified
/// equal — both sides return the same value — yet the very next
/// `contains_key` on that key escalates
/// [`FailureKind::ResultMismatch`]: the model says the key is gone, the
/// faulty map still holds it.
pub proof fn lemma_skipped_removal_is_caught(m: Seq<(u64, u64)>, t: CapacityMapV, k: u64)
    requires
        keys_unique(m),
        t.skip_removal,
        spec_lookup(m, k) == spec_lookup(t.entries, k),
        spec_lookup(m, k) is Some,
    ensures
        ({
            let remove_op = OperationV {
                method: MAP_REMOVE as int,
                args: seq![crate::value::ValueV::U64(k)],
            };
            let contains_op = OperationV {
                method: MAP_CONTAINS_KEY as int,
                args: seq![crate::value::ValueV::U64(k)],
            };
            let s1 = crate::engine::spec_step::<MapModel, CapacityMap, crate::engine::NoHooks>(
                CompareMode::Equal,
                remove_op,
                m,
                t,
                (),
            );
            let s2 = crate::engine::spec_step::<MapModel, CapacityMap, crate::engine::NoHooks>(
                CompareMode::Equal,
                contains_op,
                s1.model,
                s1.tested,
                s1.hooks,
            );
            &&& s1.failure is None
            &&& s2.classification == crate::classify::Classification::Unequal
            &&& s2.failure == Some(FailureKind::ResultMismatch)
        }),
{
    let remove_op = OperationV {
        method: MAP_REMOVE as int,
        args: seq![crate::value::ValueV::U64(k)],
    };
    assert(spec_key_arg(remove_op) == Some(k));
    lemma_remove_lookup(m, k, k);
}

/// The same, from the raw input: whatever byte buffer the fuzzer supplies,
/// the operations it decodes to are operations of the map surface's table,
/// and a run of the shipped maps over them never reports a result mismatch
/// or a one-sided abrupt termination.
pub proof fn lemma_map_run_on_any_buffer<H: Hooks<MapModel, CapacityMap>>(
    bytes: Seq<u8>,
    m: Seq<(u64, u64)>,
    t: CapacityMapV,
    h: H::V,
)
    requires
        map_equivalent(m, t),
    ensures
        ({
            let ops = crate::decode::spec_decode_ops(spec_map_surface_table(), bytes, 0);
            let rs = spec_run_from::<MapModel, CapacityMap, H>(
                spec_map_surface_table(),
                ops,
                0,
                m,
                t,
                h,
            );
            rs.verdict matches RunVerdictV::Failed { index, kind } ==> kind
                == FailureKind::InvariantViolation
        }),
{
    crate::decode::lemma_decode_ops_wf(spec_map_surface_table(), bytes, 0);
    let ops = crate::decode::spec_decode_ops(spec_map_surface_table(), bytes, 0);
    lemma_map_run_never_falsely_diverges::<H>(ops, m, t, h);
}

} // verus!
