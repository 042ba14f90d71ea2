//! A key-value map surface: a reference implementation backed by an
//! association list, a tested implementation that also tracks its capacity,
//! a hook set asserting the capacity invariants, and the registration table
//! describing the surface's methods.
//!
//! The tested implementation can be built with deliberate faults — a
//! removal that removes nothing, a clear that drops the capacity — to
//! exercise the engine's divergence and invariant reporting.

use vstd::prelude::*;
use crate::boundary::{CallOutcome, CallOutcomeV};
use crate::descriptor::{
    ArgDescriptor,
    ArgDescriptorV,
    ArgKind,
    CompareMode,
    MethodDescriptor,
    MethodDescriptorV,
    Normalizer,
    PassingMode,
};
use crate::engine::{Hooks, Surface};
use crate::operation::{Operation, OperationV};
use crate::value::{Value, ValueV};

verus! {

/// Method index of `insert(k, v)`.
pub const MAP_INSERT: usize = 0;

/// Method index of `remove(&k)`.
pub const MAP_REMOVE: usize = 1;

/// Method index of `contains_key(&k)`.
pub const MAP_CONTAINS_KEY: usize = 2;

/// Method index of `get(&k)`.
pub const MAP_GET: usize = 3;

/// Method index of `len()`.
pub const MAP_LEN: usize = 4;

/// Method index of `is_empty()`.
pub const MAP_IS_EMPTY: usize = 5;

/// Method index of `clear()`.
pub const MAP_CLEAR: usize = 6;

/// Method index of `keys()`, compared order-independently.
pub const MAP_KEYS: usize = 7;

/// The value the first entry with key `k` holds, if one does.
pub open spec fn spec_lookup(s: Seq<(u64, u64)>, k: u64) -> Option<u64>
    decreases s.len(),
{
    if s.len() == 0 {
        None
    } else if s[0].0 == k {
        Some(s[0].1)
    } else {
        spec_lookup(s.drop_first(), k)
    }
}

/// Insertion into an association list: replaces the value of the first
/// entry with key `k`, or appends a new entry at the end.
pub open spec fn spec_map_insert(s: Seq<(u64, u64)>, k: u64, v: u64) -> Seq<(u64, u64)>
    decreases s.len(),
{
    if s.len() == 0 {
        seq![(k, v)]
    } else if s[0].0 == k {
        seq![(k, v)] + s.drop_first()
    } else {
        seq![s[0]] + spec_map_insert(s.drop_first(), k, v)
    }
}

/// Removal from an association list: drops the first entry with key `k`, if
/// one exists.
pub open spec fn spec_map_remove(s: Seq<(u64, u64)>, k: u64) -> Seq<(u64, u64)>
    decreases s.len(),
{
    if s.len() == 0 {
        s
    } else if s[0].0 == k {
        s.drop_first()
    } else {
        seq![s[0]] + spec_map_remove(s.drop_first(), k)
    }
}

/// The keys of an association list, in entry order.
pub open spec fn spec_keys(s: Seq<(u64, u64)>) -> Seq<u64> {
    s.map_values(|e: (u64, u64)| e.0)
}

/// Lookup, insertion and removal all hinge on the position of the first
/// entry with the key: given that position (or that there is none), each has
/// a closed form.
proof fn lemma_assoc_at(s: Seq<(u64, u64)>, k: u64, v: u64, i: int)
    requires
        0 <= i <= s.len(),
        forall|j: int| 0 <= j < i ==> s[j].0 != k,
        i < s.len() ==> s[i].0 == k,
    ensures
        spec_lookup(s, k) == if i < s.len() {
            Some(s[i].1)
        } else {
            None::<u64>
        },
        spec_map_insert(s, k, v) == if i < s.len() {
            s.update(i, (k, v))
        } else {
            s.push((k, v))
        },
        spec_map_remove(s, k) == if i < s.len() {
            s.remove(i)
        } else {
            s
        },
    decreases i,
{
    if i == 0 {
        if s.len() == 0 {
            assert(spec_map_insert(s, k, v) =~= s.push((k, v)));
        } else if s[0].0 == k {
            assert(seq![(k, v)] + s.drop_first() =~= s.update(0, (k, v)));
            assert(s.drop_first() =~= s.remove(0));
        }
    } else {
        let rest = s.drop_first();
        lemma_assoc_at(rest, k, v, i - 1);
        if i < s.len() {
            assert(rest[i - 1] == s[i]);
            assert(seq![s[0]] + rest.update(i - 1, (k, v)) =~= s.update(i, (k, v)));
            assert(seq![s[0]] + rest.remove(i - 1) =~= s.remove(i));
        } else {
            assert(seq![s[0]] + rest.push((k, v)) =~= s.push((k, v)));
            assert(seq![s[0]] + rest =~= s);
        }
    }
}

/// Finds the position of the first entry with key `k`, or the length if
/// there is none.
fn find_key(entries: &Vec<(u64, u64)>, k: u64) -> (r: usize)
    ensures
        r <= entries@.len(),
        forall|j: int| 0 <= j < r ==> entries@[j].0 != k,
        r < entries@.len() ==> entries@[r as int].0 == k,
{
    let n = entries.len();
    let mut i: usize = 0;
    while i < n
        invariant
            n == entries@.len(),
            i <= n,
            forall|j: int| 0 <= j < i ==> entries@[j].0 != k,
        decreases n - i,
    {
        if entries[i].0 == k {
            return i;
        }
        i += 1;
    }
    i
}

/// Looks the key up, exactly as [`spec_lookup`] says.
fn lookup(entries: &Vec<(u64, u64)>, k: u64) -> (r: Option<u64>)
    ensures
        r == spec_lookup(entries@, k),
{
    let i = find_key(entries, k);
    proof {
        lemma_assoc_at(entries@, k, 0, i as int);
    }
    if i < entries.len() {
        Some(entries[i].1)
    } else {
        None
    }
}

/// Collects the keys in entry order, exactly as [`spec_keys`] says.
fn collect_keys(entries: &Vec<(u64, u64)>) -> (r: Vec<u64>)
    ensures
        r@ == spec_keys(entries@),
{
    let n = entries.len();
    let mut out: Vec<u64> = Vec::new();
    let mut i: usize = 0;
    while i < n
        invariant
            n == entries@.len(),
            i <= n,
            out@ == spec_keys(entries@.take(i as int)),
        decreases n - i,
    {
        out.push(entries[i].0);
        i += 1;
        proof {
            assert(entries@.take(i as int).drop_last() =~= entries@.take(i as int - 1));
            assert(out@ =~= spec_keys(entries@.take(i as int)));
        }
    }
    proof {
        assert(entries@.take(n as int) =~= entries@);
    }
    out
}

/// The single key argument of a one-key method, if the operation carries
/// exactly that.
pub open spec fn spec_key_arg(op: OperationV) -> Option<u64> {
    if op.args.len() == 1 {
        match op.args[0] {
            ValueV::U64(k) => Some(k),
            _ => None,
        }
    } else {
        None
    }
}

/// The key and value arguments of `insert`, if the operation carries
/// exactly those.
pub open spec fn spec_kv_args(op: OperationV) -> Option<(u64, u64)> {
    if op.args.len() == 2 {
        match (op.args[0], op.args[1]) {
            (ValueV::U64(k), ValueV::U64(v)) => Some((k, v)),
            _ => None,
        }
    } else {
        None
    }
}

/// What applying one operation to the reference map means: the association
/// list afterwards and the call outcome. A malformed dispatch — an unknown
/// method index or arguments of the wrong shape — terminates abruptly.
pub open spec fn spec_model_apply(s: Seq<(u64, u64)>, op: OperationV) -> (
    Seq<(u64, u64)>,
    CallOutcomeV,
) {
    if op.method == MAP_INSERT as int {
        match spec_kv_args(op) {
            Some((k, v)) => (
                spec_map_insert(s, k, v),
                CallOutcomeV::Completed(ValueV::OptU64(spec_lookup(s, k))),
            ),
            None => (s, CallOutcomeV::Aborted),
        }
    } else if op.method == MAP_REMOVE as int {
        match spec_key_arg(op) {
            Some(k) => (
                spec_map_remove(s, k),
                CallOutcomeV::Completed(ValueV::OptU64(spec_lookup(s, k))),
            ),
            None => (s, CallOutcomeV::Aborted),
        }
    } else if op.method == MAP_CONTAINS_KEY as int {
        match spec_key_arg(op) {
            Some(k) => (s, CallOutcomeV::Completed(ValueV::Bool(spec_lookup(s, k) is Some))),
            None => (s, CallOutcomeV::Aborted),
        }
    } else if op.method == MAP_GET as int {
        match spec_key_arg(op) {
            Some(k) => (s, CallOutcomeV::Completed(ValueV::OptU64(spec_lookup(s, k)))),
            None => (s, CallOutcomeV::Aborted),
        }
    } else if op.method == MAP_LEN as int {
        if op.args.len() == 0 {
            (s, CallOutcomeV::Completed(ValueV::U64(s.len() as u64)))
        } else {
            (s, CallOutcomeV::Aborted)
        }
    } else if op.method == MAP_IS_EMPTY as int {
        if op.args.len() == 0 {
            (s, CallOutcomeV::Completed(ValueV::Bool(s.len() == 0)))
        } else {
            (s, CallOutcomeV::Aborted)
        }
    } else if op.method == MAP_CLEAR as int {
        if op.args.len() == 0 {
            (Seq::empty(), CallOutcomeV::Completed(ValueV::Unit))
        } else {
            (s, CallOutcomeV::Aborted)
        }
    } else if op.method == MAP_KEYS as int {
        if op.args.len() == 0 {
            (s, CallOutcomeV::Completed(ValueV::U64s(spec_keys(s))))
        } else {
            (s, CallOutcomeV::Aborted)
        }
    } else {
        (s, CallOutcomeV::Aborted)
    }
}

/// The reference map: an association list with one entry per key, assumed
/// correct by construction.
pub struct MapModel {
    entries: Vec<(u64, u64)>,
}

impl View for MapModel {
    type V = Seq<(u64, u64)>;

    closed spec fn view(&self) -> Seq<(u64, u64)> {
        self.entries@
    }
}

impl MapModel {
    /// An empty reference map.
    pub fn new() -> (r: MapModel)
        ensures
            r@ == Seq::<(u64, u64)>::empty(),
    {
        MapModel { entries: Vec::new() }
    }

    /// How many entries the map holds.
    pub fn len(&self) -> (r: usize)
        ensures
            r == self@.len(),
    {
        self.entries.len()
    }

    /// The value stored under `k`, if any.
    pub fn get(&self, k: u64) -> (r: Option<u64>)
        ensures
            r == spec_lookup(self@, k),
    {
        lookup(&self.entries, k)
    }
}

impl Surface for MapModel {
    open spec fn sapply(s: Seq<(u64, u64)>, op: OperationV) -> (Seq<(u64, u64)>, CallOutcomeV) {
        spec_model_apply(s, op)
    }

    fn apply(&mut self, op: &Operation) -> (r: CallOutcome) {
        proof {
            assert(op@.args.len() == op.args@.len());
        }
        if op.method == MAP_INSERT {
            if op.args.len() == 2 {
                proof {
                    assert(op@.args[0] == op.args@[0]@);
                    assert(op@.args[1] == op.args@[1]@);
                }
                match (&op.args[0], &op.args[1]) {
                    (Value::U64(k), Value::U64(v)) => {
                        let i = find_key(&self.entries, *k);
                        proof {
                            lemma_assoc_at(self.entries@, *k, *v, i as int);
                        }
                        let prev: Option<u64> = if i < self.entries.len() {
                            let p = self.entries[i].1;
                            self.entries[i] = (*k, *v);
                            Some(p)
                        } else {
                            self.entries.push((*k, *v));
                            None
                        };
                        CallOutcome::Completed(Value::OptU64(prev))
                    },
                    _ => CallOutcome::Aborted,
                }
            } else {
                CallOutcome::Aborted
            }
        } else if op.method == MAP_REMOVE {
            if op.args.len() == 1 {
                proof {
                    assert(op@.args[0] == op.args@[0]@);
                }
                match &op.args[0] {
                    Value::U64(k) => {
                        let i = find_key(&self.entries, *k);
                        proof {
                            lemma_assoc_at(self.entries@, *k, 0, i as int);
                        }
                        let prev: Option<u64> = if i < self.entries.len() {
                            let p = self.entries[i].1;
                            self.entries.remove(i);
                            Some(p)
                        } else {
                            None
                        };
                        CallOutcome::Completed(Value::OptU64(prev))
                    },
                    _ => CallOutcome::Aborted,
                }
            } else {
                CallOutcome::Aborted
            }
        } else if op.method == MAP_CONTAINS_KEY {
            if op.args.len() == 1 {
                proof {
                    assert(op@.args[0] == op.args@[0]@);
                }
                match &op.args[0] {
                    Value::U64(k) => {
                        let r = lookup(&self.entries, *k);
                        CallOutcome::Completed(Value::Bool(r.is_some()))
                    },
                    _ => CallOutcome::Aborted,
                }
            } else {
                CallOutcome::Aborted
            }
        } else if op.method == MAP_GET {
            if op.args.len() == 1 {
                proof {
                    assert(op@.args[0] == op.args@[0]@);
                }
                match &op.args[0] {
                    Value::U64(k) => {
                        let r = lookup(&self.entries, *k);
                        CallOutcome::Completed(Value::OptU64(r))
                    },
                    _ => CallOutcome::Aborted,
                }
            } else {
                CallOutcome::Aborted
            }
        } else if op.method == MAP_LEN {
            if op.args.len() == 0 {
                CallOutcome::Completed(Value::U64(self.entries.len() as u64))
            } else {
                CallOutcome::Aborted
            }
        } else if op.method == MAP_IS_EMPTY {
            if op.args.len() == 0 {
                CallOutcome::Completed(Value::Bool(self.entries.len() == 0))
            } else {
                CallOutcome::Aborted
            }
        } else if op.method == MAP_CLEAR {
            if op.args.len() == 0 {
                self.entries.clear();
                CallOutcome::Completed(Value::Unit)
            } else {
                CallOutcome::Aborted
            }
        } else if op.method == MAP_KEYS {
            if op.args.len() == 0 {
                let ks = collect_keys(&self.entries);
                CallOutcome::Completed(Value::U64s(ks))
            } else {
                CallOutcome::Aborted
            }
        } else {
            CallOutcome::Aborted
        }
    }
}

/// Insertion as the tested map lays entries out: the value of an existing
/// key is replaced in place; a new entry goes to the front, so iteration
/// order differs from the reference map's and only an order-independent
/// comparison can equate the two.
pub open spec fn spec_front_insert(s: Seq<(u64, u64)>, k: u64, v: u64) -> Seq<(u64, u64)> {
    if spec_lookup(s, k) is Some {
        spec_map_insert(s, k, v)
    } else {
        seq![(k, v)] + s
    }
}

/// The capacity after the entry count has reached `n`: doubled demand,
/// saturating, once the old capacity is outgrown.
pub open spec fn spec_grown(cap: u64, n: int) -> u64 {
    if n > cap {
        if 2 * n > u64::MAX {
            u64::MAX
        } else {
            (2 * n) as u64
        }
    } else {
        cap
    }
}

/// Mathematical abstraction of a [`CapacityMap`].
pub ghost struct CapacityMapV {
    pub entries: Seq<(u64, u64)>,
    pub cap: u64,
    pub drop_capacity_on_clear: bool,
    pub skip_removal: bool,
}

/// What applying one operation to the tested map means.
pub open spec fn spec_capacity_apply(s: CapacityMapV, op: OperationV) -> (
    CapacityMapV,
    CallOutcomeV,
) {
    if op.method == MAP_INSERT as int {
        match spec_kv_args(op) {
            Some((k, v)) => {
                let entries = spec_front_insert(s.entries, k, v);
                let cap = spec_grown(s.cap, entries.len() as int);
                (
                    CapacityMapV { entries, cap, ..s },
                    CallOutcomeV::Completed(ValueV::OptU64(spec_lookup(s.entries, k))),
                )
            },
            None => (s, CallOutcomeV::Aborted),
        }
    } else if op.method == MAP_REMOVE as int {
        match spec_key_arg(op) {
            Some(k) => {
                let entries = if s.skip_removal {
                    s.entries
                } else {
                    spec_map_remove(s.entries, k)
                };
                (
                    CapacityMapV { entries, ..s },
                    CallOutcomeV::Completed(ValueV::OptU64(spec_lookup(s.entries, k))),
                )
            },
            None => (s, CallOutcomeV::Aborted),
        }
    } else if op.method == MAP_CONTAINS_KEY as int {
        match spec_key_arg(op) {
            Some(k) => (
                s,
                CallOutcomeV::Completed(ValueV::Bool(spec_lookup(s.entries, k) is Some)),
            ),
            None => (s, CallOutcomeV::Aborted),
        }
    } else if op.method == MAP_GET as int {
        match spec_key_arg(op) {
            Some(k) => (s, CallOutcomeV::Completed(ValueV::OptU64(spec_lookup(s.entries, k)))),
            None => (s, CallOutcomeV::Aborted),
        }
    } else if op.method == MAP_LEN as int {
        if op.args.len() == 0 {
            (s, CallOutcomeV::Completed(ValueV::U64(s.entries.len() as u64)))
        } else {
            (s, CallOutcomeV::Aborted)
        }
    } else if op.method == MAP_IS_EMPTY as int {
        if op.args.len() == 0 {
            (s, CallOutcomeV::Completed(ValueV::Bool(s.entries.len() == 0)))
        } else {
            (s, CallOutcomeV::Aborted)
        }
    } else if op.method == MAP_CLEAR as int {
        if op.args.len() == 0 {
            (
                CapacityMapV {
                    entries: Seq::empty(),
                    cap: if s.drop_capacity_on_clear {
                        0
                    } else {
                        s.cap
                    },
                    ..s
                },
                CallOutcomeV::Completed(ValueV::Unit),
            )
        } else {
            (s, CallOutcomeV::Aborted)
        }
    } else if op.method == MAP_KEYS as int {
        if op.args.len() == 0 {
            (s, CallOutcomeV::Completed(ValueV::U64s(spec_keys(s.entries))))
        } else {
            (s, CallOutcomeV::Aborted)
        }
    } else {
        (s, CallOutcomeV::Aborted)
    }
}

/// The tested map: behaviorally a map like the reference one, laid out
/// front-first, and additionally tracking a capacity that grows with the
/// entry count and survives `clear`. Deliberate faults can be injected at
/// construction, to exercise the engine's failure reporting.
pub struct CapacityMap {
    entries: Vec<(u64, u64)>,
    cap: u64,
    drop_capacity_on_clear: bool,
    skip_removal: bool,
}

impl View for CapacityMap {
    type V = CapacityMapV;

    closed spec fn view(&self) -> CapacityMapV {
        CapacityMapV {
            entries: self.entries@,
            cap: self.cap,
            drop_capacity_on_clear: self.drop_capacity_on_clear,
            skip_removal: self.skip_removal,
        }
    }
}

impl CapacityMap {
    /// An empty tested map with the given initial capacity and no faults.
    pub fn new(capacity: u64) -> (r: CapacityMap)
        ensures
            r@ == (CapacityMapV {
                entries: Seq::empty(),
                cap: capacity,
                drop_capacity_on_clear: false,
                skip_removal: false,
            }),
    {
        CapacityMap {
            entries: Vec::new(),
            cap: capacity,
            drop_capacity_on_clear: false,
            skip_removal: false,
        }
    }

    /// An empty tested map with deliberate faults: a `clear` that drops the
    /// capacity, or a `remove` that answers correctly but removes nothing.
    pub fn with_faults(capacity: u64, drop_capacity_on_clear: bool, skip_removal: bool) -> (r:
        CapacityMap)
        ensures
            r@ == (CapacityMapV {
                entries: Seq::empty(),
                cap: capacity,
                drop_capacity_on_clear,
                skip_removal,
            }),
    {
        CapacityMap { entries: Vec::new(), cap: capacity, drop_capacity_on_clear, skip_removal }
    }

    /// The capacity as the map currently reports it.
    pub fn capacity(&self) -> (r: u64)
        ensures
            r == self@.cap,
    {
        self.cap
    }

    /// How many entries the map holds.
    pub fn len(&self) -> (r: usize)
        ensures
            r == self@.entries.len(),
    {
        self.entries.len()
    }

    /// The value stored under `k`, if any.
    pub fn get(&self, k: u64) -> (r: Option<u64>)
        ensures
            r == spec_lookup(self@.entries, k),
    {
        lookup(&self.entries, k)
    }
}

impl Surface for CapacityMap {
    open spec fn sapply(s: CapacityMapV, op: OperationV) -> (CapacityMapV, CallOutcomeV) {
        spec_capacity_apply(s, op)
    }

    fn apply(&mut self, op: &Operation) -> (r: CallOutcome) {
        proof {
            assert(op@.args.len() == op.args@.len());
        }
        if op.method == MAP_INSERT {
            if op.args.len() == 2 {
                proof {
                    assert(op@.args[0] == op.args@[0]@);
                    assert(op@.args[1] == op.args@[1]@);
                }
                match (&op.args[0], &op.args[1]) {
                    (Value::U64(k), Value::U64(v)) => {
                        let i = find_key(&self.entries, *k);
                        proof {
                            lemma_assoc_at(self.entries@, *k, *v, i as int);
                        }
                        let prev: Option<u64> = if i < self.entries.len() {
                            let p = self.entries[i].1;
                            self.entries[i] = (*k, *v);
                            Some(p)
                        } else {
                            self.entries.insert(0, (*k, *v));
                            proof {
                                assert(self.entries@ =~= seq![(*k, *v)] + old(self)@.entries);
                            }
                            None
                        };
                        let n = self.entries.len() as u64;
                        if n > self.cap {
                            let want: u128 = 2 * (n as u128);
                            self.cap = if want > u64::MAX as u128 {
                                u64::MAX
                            } else {
                                want as u64
                            };
                        }
                        CallOutcome::Completed(Value::OptU64(prev))
                    },
                    _ => CallOutcome::Aborted,
                }
            } else {
                CallOutcome::Aborted
            }
        } else if op.method == MAP_REMOVE {
            if op.args.len() == 1 {
                proof {
                    assert(op@.args[0] == op.args@[0]@);
                }
                match &op.args[0] {
                    Value::U64(k) => {
                        if self.skip_removal {
                            let r = lookup(&self.entries, *k);
                            CallOutcome::Completed(Value::OptU64(r))
                        } else {
                            let i = find_key(&self.entries, *k);
                            proof {
                                lemma_assoc_at(self.entries@, *k, 0, i as int);
                            }
                            let prev: Option<u64> = if i < self.entries.len() {
                                let p = self.entries[i].1;
                                self.entries.remove(i);
                                Some(p)
                            } else {
                                None
                            };
                            CallOutcome::Completed(Value::OptU64(prev))
                        }
                    },
                    _ => CallOutcome::Aborted,
                }
            } else {
                CallOutcome::Aborted
            }
        } else if op.method == MAP_CONTAINS_KEY {
            if op.args.len() == 1 {
                proof {
                    assert(op@.args[0] == op.args@[0]@);
                }
                match &op.args[0] {
                    Value::U64(k) => {
                        let r = lookup(&self.entries, *k);
                        CallOutcome::Completed(Value::Bool(r.is_some()))
                    },
                    _ => CallOutcome::Aborted,
                }
            } else {
                CallOutcome::Aborted
            }
        } else if op.method == MAP_GET {
            if op.args.len() == 1 {
                proof {
                    assert(op@.args[0] == op.args@[0]@);
                }
                match &op.args[0] {
                    Value::U64(k) => {
                        let r = lookup(&self.entries, *k);
                        CallOutcome::Completed(Value::OptU64(r))
                    },
                    _ => CallOutcome::Aborted,
                }
            } else {
                CallOutcome::Aborted
            }
        } else if op.method == MAP_LEN {
            if op.args.len() == 0 {
                CallOutcome::Completed(Value::U64(self.entries.len() as u64))
            } else {
                CallOutcome::Aborted
            }
        } else if op.method == MAP_IS_EMPTY {
            if op.args.len() == 0 {
                CallOutcome::Completed(Value::Bool(self.entries.len() == 0))
            } else {
                CallOutcome::Aborted
            }
        } else if op.method == MAP_CLEAR {
            if op.args.len() == 0 {
                self.entries.clear();
                if self.drop_capacity_on_clear {
                    self.cap = 0;
                }
                CallOutcome::Completed(Value::Unit)
            } else {
                CallOutcome::Aborted
            }
        } else if op.method == MAP_KEYS {
            if op.args.len() == 0 {
                let ks = collect_keys(&self.entries);
                CallOutcome::Completed(Value::U64s(ks))
            } else {
                CallOutcome::Aborted
            }
        } else {
            CallOutcome::Aborted
        }
    }
}

/// Whether the capacity invariants hold after one operation, `recorded`
/// being the capacity the pre-hook recorded: a `clear` has kept the
/// capacity, the capacity never falls below the reference entry count, and
/// both maps hold equally many entries.
pub open spec fn spec_capacity_invariants_hold(
    op: OperationV,
    m: Seq<(u64, u64)>,
    t: CapacityMapV,
    recorded: u64,
) -> bool {
    &&& (op.method == MAP_CLEAR as int ==> t.cap == recorded)
    &&& t.cap >= m.len()
    &&& t.entries.len() == m.len()
}

/// The capacity invariants a map surface asserts around every operation:
/// the pre-hook records the tested map's capacity; the post-hook requires
/// that a `clear` has kept the capacity exactly as recorded, that the
/// capacity never falls below the reference entry count, and that both maps
/// hold equally many entries.
pub struct CapacityHooks {
    prev_capacity: u64,
}

impl View for CapacityHooks {
    type V = u64;

    closed spec fn view(&self) -> u64 {
        self.prev_capacity
    }
}

impl CapacityHooks {
    /// A fresh hook state: no capacity recorded yet.
    pub fn new() -> (r: CapacityHooks)
        ensures
            r@ == 0u64,
    {
        CapacityHooks { prev_capacity: 0 }
    }
}

impl Hooks<MapModel, CapacityMap> for CapacityHooks {
    open spec fn spre(h: u64, op: OperationV, m: Seq<(u64, u64)>, t: CapacityMapV) -> u64 {
        t.cap
    }

    open spec fn spost(h: u64, op: OperationV, m: Seq<(u64, u64)>, t: CapacityMapV) -> (
        u64,
        bool,
    ) {
        (h, spec_capacity_invariants_hold(op, m, t, h))
    }

    fn pre(&mut self, op: &Operation, model: &MapModel, tested: &CapacityMap) {
        self.prev_capacity = tested.capacity();
    }

    fn post(&mut self, op: &Operation, model: &MapModel, tested: &CapacityMap) -> (ok: bool) {
        let cap = tested.capacity();
        let clear_kept_capacity = if op.method == MAP_CLEAR {
            cap == self.prev_capacity
        } else {
            true
        };
        let model_len = model.len();
        clear_kept_capacity && cap >= model_len as u64 && tested.len() == model_len
    }
}

/// The meaning of the map surface's registration table: one descriptor per
/// method, each argument with its encoding and passing mode, and the keys
/// iteration compared order-independently.
pub open spec fn spec_map_surface_table() -> Seq<MethodDescriptorV> {
    seq![
        MethodDescriptorV {
            name: "insert"@,
            args: seq![
                ArgDescriptorV { name: "k"@, kind: ArgKind::U16, mode: PassingMode::ByValue },
                ArgDescriptorV { name: "v"@, kind: ArgKind::U16, mode: PassingMode::ByValue },
            ],
            compare: CompareMode::Equal,
        },
        MethodDescriptorV {
            name: "remove"@,
            args: seq![
                ArgDescriptorV { name: "k"@, kind: ArgKind::U16, mode: PassingMode::ByRef },
            ],
            compare: CompareMode::Equal,
        },
        MethodDescriptorV {
            name: "contains_key"@,
            args: seq![
                ArgDescriptorV { name: "k"@, kind: ArgKind::U16, mode: PassingMode::ByRef },
            ],
            compare: CompareMode::Equal,
        },
        MethodDescriptorV {
            name: "get"@,
            args: seq![
                ArgDescriptorV { name: "k"@, kind: ArgKind::U16, mode: PassingMode::ByRef },
            ],
            compare: CompareMode::Equal,
        },
        MethodDescriptorV { name: "len"@, args: seq![], compare: CompareMode::Equal },
        MethodDescriptorV { name: "is_empty"@, args: seq![], compare: CompareMode::Equal },
        MethodDescriptorV { name: "clear"@, args: seq![], compare: CompareMode::Equal },
        MethodDescriptorV {
            name: "keys"@,
            args: seq![],
            compare: CompareMode::EqualWith(Normalizer::SortU64s),
        },
    ]
}

/// Builds the map surface's registration table, exactly as
/// [`spec_map_surface_table`] says.
pub fn map_surface_table() -> (r: Vec<MethodDescriptor>)
    ensures
        crate::descriptor::spec_table(r@) == spec_map_surface_table(),
{
    let mut t: Vec<MethodDescriptor> = Vec::new();

    let mut insert_args: Vec<ArgDescriptor> = Vec::new();
    insert_args.push(ArgDescriptor::new("k", ArgKind::U16, PassingMode::ByValue));
    insert_args.push(ArgDescriptor::new("v", ArgKind::U16, PassingMode::ByValue));
    t.push(MethodDescriptor::new("insert", insert_args, CompareMode::Equal));

    let mut remove_args: Vec<ArgDescriptor> = Vec::new();
    remove_args.push(ArgDescriptor::new("k", ArgKind::U16, PassingMode::ByRef));
    t.push(MethodDescriptor::new("remove", remove_args, CompareMode::Equal));

    let mut contains_args: Vec<ArgDescriptor> = Vec::new();
    contains_args.push(ArgDescriptor::new("k", ArgKind::U16, PassingMode::ByRef));
    t.push(MethodDescriptor::new("contains_key", contains_args, CompareMode::Equal));

    let mut get_args: Vec<ArgDescriptor> = Vec::new();
    get_args.push(ArgDescriptor::new("k", ArgKind::U16, PassingMode::ByRef));
    t.push(MethodDescriptor::new("get", get_args, CompareMode::Equal));

    t.push(MethodDescriptor::new("len", Vec::new(), CompareMode::Equal));
    t.push(MethodDescriptor::new("is_empty", Vec::new(), CompareMode::Equal));
    t.push(MethodDescriptor::new("clear", Vec::new(), CompareMode::Equal));
    t.push(
        MethodDescriptor::new("keys", Vec::new(), CompareMode::EqualWith(Normalizer::SortU64s)),
    );

    proof {
        let tv = crate::descriptor::spec_table(t@);
        let sv = spec_map_surface_table();
        assert(tv.len() == 8);
        assert(tv[0].args =~= sv[0].args);
        assert(tv[1].args =~= sv[1].args);
        assert(tv[2].args =~= sv[2].args);
        assert(tv[3].args =~= sv[3].args);
        assert(tv[4].args =~= sv[4].args);
        assert(tv[5].args =~= sv[5].args);
        assert(tv[6].args =~= sv[6].args);
        assert(tv[7].args =~= sv[7].args);
        assert(tv =~= sv);
    }
    t
}

} // verus!
