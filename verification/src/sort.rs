//! Sorting of integer sequences, used by the result normalizer that makes an
//! unordered-iteration result order-independent before comparison.

use vstd::prelude::*;

verus! {

/// Inserts `x` in front of the first element of the sorted sequence `s` that
/// is not smaller than `x`.
pub open spec fn spec_insert_sorted(x: u64, s: Seq<u64>) -> Seq<u64>
    decreases s.len(),
{
    if s.len() == 0 {
        seq![x]
    } else if x <= s[0] {
        seq![x] + s
    } else {
        seq![s[0]] + spec_insert_sorted(x, s.drop_first())
    }
}

/// Insertion sort: the canonical ascending ordering of `s`.
pub open spec fn spec_sort(s: Seq<u64>) -> Seq<u64>
    decreases s.len(),
{
    if s.len() == 0 {
        Seq::empty()
    } else {
        spec_insert_sorted(s[0], spec_sort(s.drop_first()))
    }
}

/// Whether `s` is sorted ascending.
pub open spec fn spec_sorted(s: Seq<u64>) -> bool {
    forall|i: int, j: int| 0 <= i < j < s.len() ==> s[i] <= s[j]
}

/// Inserting into a sequence is the same as splitting it at the first
/// position whose element is not smaller than the inserted value.
proof fn lemma_insert_at(x: u64, s: Seq<u64>, idx: int)
    requires
        0 <= idx <= s.len(),
        forall|j: int| 0 <= j < idx ==> s[j] < x,
        idx < s.len() ==> x <= s[idx],
    ensures
        spec_insert_sorted(x, s) == s.subrange(0, idx) + seq![x] + s.subrange(idx, s.len() as int),
    decreases idx,
{
    if idx == 0 {
        if s.len() == 0 {
            assert(spec_insert_sorted(x, s) =~= s.subrange(0, 0) + seq![x] + s.subrange(0, 0));
        } else {
            assert(spec_insert_sorted(x, s) =~= s.subrange(0, 0) + seq![x] + s.subrange(
                0,
                s.len() as int,
            ));
        }
    } else {
        let rest = s.drop_first();
        assert(s[0] < x);
        lemma_insert_at(x, rest, idx - 1);
        assert(seq![s[0]] + (rest.subrange(0, idx - 1) + seq![x] + rest.subrange(
            idx - 1,
            rest.len() as int,
        )) =~= s.subrange(0, idx) + seq![x] + s.subrange(idx, s.len() as int));
    }
}

/// Inserts `x` into the sorted vector `v`, keeping it sorted — exactly as
/// [`spec_insert_sorted`] says.
pub fn insert_sorted(x: u64, v: &mut Vec<u64>)
    ensures
        final(v)@ == spec_insert_sorted(x, old(v)@),
{
    let n = v.len();
    let mut idx: usize = 0;
    while idx < n && v[idx] < x
        invariant
            n == v.len(),
            idx <= n,
            forall|j: int| 0 <= j < idx ==> v@[j] < x,
        decreases n - idx,
    {
        idx += 1;
    }
    proof {
        lemma_insert_at(x, v@, idx as int);
        assert(v@.insert(idx as int, x) =~= v@.subrange(0, idx as int) + seq![x] + v@.subrange(
            idx as int,
            v@.len() as int,
        ));
    }
    v.insert(idx, x);
}

/// Sorts a vector of integers ascending, into the canonical ordering
/// [`spec_sort`].
pub fn sort_u64s(v: Vec<u64>) -> (r: Vec<u64>)
    ensures
        r@ == spec_sort(v@),
{
    let ghost s = v@;
    let n = v.len();
    let mut acc: Vec<u64> = Vec::new();
    let mut i: usize = n;
    while i > 0
        invariant
            n == s.len(),
            i <= n,
            v@ == s,
            acc@ == spec_sort(s.skip(i as int)),
        decreases i,
    {
        i -= 1;
        let x = v[i];
        insert_sorted(x, &mut acc);
        proof {
            assert(s.skip(i as int).drop_first() =~= s.skip(i + 1));
            assert(s.skip(i as int)[0] == s[i as int]);
        }
    }
    proof {
        assert(s.skip(0) =~= s);
    }
    acc
}

/// The canonical ordering is sorted: the fact callers of the normalizer rely
/// on when they treat normalized results as order-independent.
pub proof fn lemma_spec_sort_sorted(s: Seq<u64>)
    ensures
        spec_sorted(spec_sort(s)),
    decreases s.len(),
{
    if s.len() > 0 {
        lemma_spec_sort_sorted(s.drop_first());
        lemma_insert_sorted_sorted(s[0], spec_sort(s.drop_first()));
    }
}

/// The canonical ordering keeps exactly the elements of the input.
pub proof fn lemma_spec_sort_multiset(s: Seq<u64>)
    ensures
        spec_sort(s).to_multiset() == s.to_multiset(),
    decreases s.len(),
{
    broadcast use vstd::seq_lib::group_to_multiset_ensures;

    if s.len() > 0 {
        let rest = s.drop_first();
        lemma_spec_sort_multiset(rest);
        lemma_insert_sorted_multiset(s[0], spec_sort(rest));
        assert(s =~= rest.insert(0, s[0]));
        assert(rest.insert(0, s[0]).to_multiset() == rest.to_multiset().insert(s[0]));
    }
}

/// The canonical ordering is the same for any two sequences with the same
/// elements: sorting forgets nothing but the order.
pub proof fn lemma_sort_eq_of_multiset(a: Seq<u64>, b: Seq<u64>)
    requires
        a.to_multiset() == b.to_multiset(),
    ensures
        spec_sort(a) == spec_sort(b),
{
    let leq = |x: u64, y: u64| x <= y;
    lemma_spec_sort_sorted(a);
    lemma_spec_sort_sorted(b);
    lemma_spec_sort_multiset(a);
    lemma_spec_sort_multiset(b);
    assert(vstd::relations::total_ordering(leq)) by {
        assert(vstd::relations::reflexive(leq));
        assert(vstd::relations::transitive(leq));
        assert(vstd::relations::antisymmetric(leq));
        assert(vstd::relations::connected(leq));
    }
    assert(vstd::relations::sorted_by(spec_sort(a), leq));
    assert(vstd::relations::sorted_by(spec_sort(b), leq));
    vstd::seq_lib::lemma_sorted_unique(spec_sort(a), spec_sort(b), leq);
}

/// Inserting into a sorted sequence keeps it sorted.
pub proof fn lemma_insert_sorted_sorted(x: u64, s: Seq<u64>)
    requires
        spec_sorted(s),
    ensures
        spec_sorted(spec_insert_sorted(x, s)),
    decreases s.len(),
{
    if s.len() == 0 {
    } else if x <= s[0] {
        let r = seq![x] + s;
        assert forall|i: int, j: int| 0 <= i < j < r.len() implies r[i] <= r[j] by {
            if i > 0 {
                assert(s[i - 1] <= s[j - 1]);
            }
        }
    } else {
        let rest = s.drop_first();
        assert(spec_sorted(rest));
        lemma_insert_sorted_sorted(x, rest);
        let inner = spec_insert_sorted(x, rest);
        let r = seq![s[0]] + inner;
        lemma_insert_sorted_first(x, rest);
        assert forall|i: int, j: int| 0 <= i < j < r.len() implies r[i] <= r[j] by {
            if i == 0 {
                if inner.len() > 0 {
                    assert(inner[0] == x || (rest.len() > 0 && inner[0] == rest[0]));
                    if j - 1 > 0 {
                        assert(inner[0] <= inner[j - 1]);
                    }
                }
            } else {
                assert(inner[i - 1] <= inner[j - 1]);
            }
        }
    }
}

/// The first element after an insertion is the smaller of `x` and the old
/// first element.
proof fn lemma_insert_sorted_first(x: u64, s: Seq<u64>)
    ensures
        spec_insert_sorted(x, s).len() == s.len() + 1,
        s.len() == 0 ==> spec_insert_sorted(x, s)[0] == x,
        s.len() > 0 ==> spec_insert_sorted(x, s)[0] == if x <= s[0] {
            x
        } else {
            s[0]
        },
    decreases s.len(),
{
    if s.len() > 0 && x > s[0] {
        lemma_insert_sorted_first(x, s.drop_first());
    }
}

/// Inserting adds exactly one occurrence of the inserted element.
pub proof fn lemma_insert_sorted_multiset(x: u64, s: Seq<u64>)
    ensures
        spec_insert_sorted(x, s).to_multiset() == s.to_multiset().insert(x),
    decreases s.len(),
{
    broadcast use vstd::seq_lib::group_to_multiset_ensures;
    broadcast use vstd::multiset::group_multiset_axioms;

    if s.len() == 0 {
        assert(seq![x] =~= s.insert(0, x));
        assert(s.insert(0, x).to_multiset() == s.to_multiset().insert(x));
    } else if x <= s[0] {
        assert(seq![x] + s =~= s.insert(0, x));
        assert(s.insert(0, x).to_multiset() == s.to_multiset().insert(x));
    } else {
        let rest = s.drop_first();
        lemma_insert_sorted_multiset(x, rest);
        let inner = spec_insert_sorted(x, rest);
        assert(seq![s[0]] + inner =~= inner.insert(0, s[0]));
        assert(inner.insert(0, s[0]).to_multiset() == inner.to_multiset().insert(s[0]));
        assert(s =~= rest.insert(0, s[0]));
        assert(rest.insert(0, s[0]).to_multiset() == rest.to_multiset().insert(s[0]));
        assert(rest.to_multiset().insert(x).insert(s[0]) =~= rest.to_multiset().insert(
            s[0],
        ).insert(x));
    }
}

} // verus!
