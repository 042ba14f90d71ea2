//! Owned argument and result values of decoded operations.
//!
//! An operation owns a copy of every argument, whatever the declared passing
//! mode of the method, so that the same value can be applied independently to
//! the model and to the tested implementation without aliasing.

use vstd::prelude::*;

verus! {

/// Mathematical abstraction of a [`Value`].
pub ghost enum ValueV {
    Unit,
    Bool(bool),
    U64(u64),
    OptU64(Option<u64>),
    U64s(Seq<u64>),
    Bytes(Seq<u8>),
}

/// One owned argument or result value.
///
/// Arguments are produced by the decoder; results are produced by the
/// surfaces. Variable-length reference-shaped arguments are materialized as
/// owned, sized buffers (`U64s`, `Bytes`).
#[derive(Debug, PartialEq, Eq)]
pub enum Value {
    Unit,
    Bool(bool),
    U64(u64),
    OptU64(Option<u64>),
    U64s(Vec<u64>),
    Bytes(Vec<u8>),
}

impl View for Value {
    type V = ValueV;

    open spec fn view(&self) -> ValueV {
        match self {
            Value::Unit => ValueV::Unit,
            Value::Bool(b) => ValueV::Bool(*b),
            Value::U64(n) => ValueV::U64(*n),
            Value::OptU64(o) => ValueV::OptU64(*o),
            Value::U64s(v) => ValueV::U64s(v@),
            Value::Bytes(v) => ValueV::Bytes(v@),
        }
    }
}

/// Decides value equality: two values are equal exactly when their
/// abstractions are.
pub fn value_eq(a: &Value, b: &Value) -> (r: bool)
    ensures
        r == (a@ == b@),
{
    match (a, b) {
        (Value::Unit, Value::Unit) => true,
        (Value::Bool(x), Value::Bool(y)) => x == y,
        (Value::U64(x), Value::U64(y)) => x == y,
        (Value::OptU64(x), Value::OptU64(y)) => {
            match (x, y) {
                (Some(u), Some(v)) => u == v,
                (None, None) => true,
                _ => false,
            }
        },
        (Value::U64s(x), Value::U64s(y)) => u64_vec_eq(x, y),
        (Value::Bytes(x), Value::Bytes(y)) => byte_vec_eq(x, y),
        _ => false,
    }
}

fn u64_vec_eq(a: &Vec<u64>, b: &Vec<u64>) -> (r: bool)
    ensures
        r == (a@ == b@),
{
    if a.len() != b.len() {
        assert(a@ != b@) by {
            assert(a@.len() != b@.len());
        }
        return false;
    }
    let n = a.len();
    let mut i: usize = 0;
    while i < n
        invariant
            n == a.len() == b.len(),
            i <= n,
            forall|j: int| 0 <= j < i ==> a@[j] == b@[j],
        decreases n - i,
    {
        if a[i] != b[i] {
            return false;
        }
        i += 1;
    }
    proof {
        assert(a@ =~= b@);
    }
    true
}

fn byte_vec_eq(a: &Vec<u8>, b: &Vec<u8>) -> (r: bool)
    ensures
        r == (a@ == b@),
{
    if a.len() != b.len() {
        assert(a@ != b@) by {
            assert(a@.len() != b@.len());
        }
        return false;
    }
    let n = a.len();
    let mut i: usize = 0;
    while i < n
        invariant
            n == a.len() == b.len(),
            i <= n,
            forall|j: int| 0 <= j < i ==> a@[j] == b@[j],
        decreases n - i,
    {
        if a[i] != b[i] {
            return false;
        }
        i += 1;
    }
    proof {
        assert(a@ =~= b@);
    }
    true
}

} // verus!
