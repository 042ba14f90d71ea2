//! The operation decoder: turns an opaque byte buffer into a lazy, finite,
//! forward-only sequence of operations.
//!
//! Decoding is total and deterministic: the buffer and the cursor position
//! alone determine the next operation or the terminal signal. A decode
//! attempt either fully succeeds, advancing the cursor past one complete
//! operation, or produces nothing; production stops permanently, and
//! cleanly, on buffer exhaustion or on a malformed discriminant.

use vstd::prelude::*;
use crate::descriptor::{ArgKind, MethodDescriptor, MethodDescriptorV, spec_table};
use crate::operation::{Operation, OperationV, op_matches_table};
use crate::value::{Value, ValueV};

verus! {

/// Value of two little-endian bytes.
pub open spec fn spec_u16_le(b: Seq<u8>, pos: int) -> int {
    b[pos] + 0x100 * b[pos + 1]
}

/// Value of four little-endian bytes.
pub open spec fn spec_u32_le(b: Seq<u8>, pos: int) -> int {
    b[pos] + 0x100 * b[pos + 1] + 0x1_0000 * b[pos + 2] + 0x100_0000 * b[pos + 3]
}

/// Value of eight little-endian bytes.
pub open spec fn spec_u64_le(b: Seq<u8>, pos: int) -> int {
    b[pos] + 0x100 * b[pos + 1] + 0x1_0000 * b[pos + 2] + 0x100_0000 * b[pos + 3]
        + 0x1_0000_0000 * b[pos + 4] + 0x100_0000_0000 * b[pos + 5] + 0x1_0000_0000_0000 * b[pos
        + 6] + 0x100_0000_0000_0000 * b[pos + 7]
}

/// The type-directed encoding of one argument: what one decode attempt at
/// `pos` yields, and where the cursor stands afterwards. `None` means the
/// buffer is exhausted before the argument is complete.
pub open spec fn spec_decode_value(kind: ArgKind, b: Seq<u8>, pos: int) -> Option<(ValueV, int)> {
    match kind {
        ArgKind::Bool => if 0 <= pos && pos + 1 <= b.len() {
            Some((ValueV::Bool(b[pos] % 2 == 1), pos + 1))
        } else {
            None
        },
        ArgKind::U8 => if 0 <= pos && pos + 1 <= b.len() {
            Some((ValueV::U64(b[pos] as u64), pos + 1))
        } else {
            None
        },
        ArgKind::U16 => if 0 <= pos && pos + 2 <= b.len() {
            Some((ValueV::U64(spec_u16_le(b, pos) as u64), pos + 2))
        } else {
            None
        },
        ArgKind::U32 => if 0 <= pos && pos + 4 <= b.len() {
            Some((ValueV::U64(spec_u32_le(b, pos) as u64), pos + 4))
        } else {
            None
        },
        ArgKind::U64 => if 0 <= pos && pos + 8 <= b.len() {
            Some((ValueV::U64(spec_u64_le(b, pos) as u64), pos + 8))
        } else {
            None
        },
        ArgKind::Bytes => if 0 <= pos && pos + 1 + b[pos] <= b.len() && pos < b.len() {
            Some((ValueV::Bytes(b.subrange(pos + 1, pos + 1 + b[pos])), pos + 1 + b[pos]))
        } else {
            None
        },
    }
}

/// Decodes one argument per kind, in order, threading the cursor. `None` as
/// soon as one argument cannot be completed: no operation is ever left half
/// constructed.
pub open spec fn spec_decode_args(kinds: Seq<ArgKind>, b: Seq<u8>, pos: int) -> Option<
    (Seq<ValueV>, int),
>
    decreases kinds.len(),
{
    if kinds.len() == 0 {
        Some((Seq::empty(), pos))
    } else {
        match spec_decode_value(kinds[0], b, pos) {
            None => None,
            Some((v, p)) => match spec_decode_args(kinds.drop_first(), b, p) {
                None => None,
                Some((vs, p2)) => Some((seq![v] + vs, p2)),
            },
        }
    }
}

/// The kinds of a descriptor's arguments, in declared order: the order in
/// which their bytes are consumed.
pub open spec fn arg_kinds(d: MethodDescriptorV) -> Seq<ArgKind> {
    d.args.map_values(|a: crate::descriptor::ArgDescriptorV| a.kind)
}

/// One decode attempt at `pos`: a discriminant byte selecting a method of
/// the table, then that method's arguments. `None` on exhaustion or on a
/// malformed (out-of-table) discriminant.
pub open spec fn spec_decode_op(table: Seq<MethodDescriptorV>, b: Seq<u8>, pos: int) -> Option<
    (OperationV, int),
> {
    if 0 <= pos < b.len() && (b[pos] as int) < table.len() {
        match spec_decode_args(arg_kinds(table[b[pos] as int]), b, pos + 1) {
            None => None,
            Some((vs, p2)) => Some((OperationV { method: b[pos] as int, args: vs }, p2)),
        }
    } else {
        None
    }
}

/// The whole operation sequence a buffer decodes to from `pos`: decode
/// attempts repeated until the first terminal signal.
pub open spec fn spec_decode_ops(table: Seq<MethodDescriptorV>, b: Seq<u8>, pos: int) -> Seq<
    OperationV,
>
    decreases b.len() - pos,
{
    if pos < 0 || pos > b.len() {
        Seq::empty()
    } else {
        match spec_decode_op(table, b, pos) {
            None => Seq::empty(),
            // The guard keeps the recursion well-founded; a successful
            // decode always advances the cursor within the buffer
            // (`lemma_decode_op_advances`), so the fallback arm never
            // describes an actual decode.
            Some((op, p2)) => if pos < p2 <= b.len() {
                seq![op] + spec_decode_ops(table, b, p2)
            } else {
                seq![op]
            },
        }
    }
}

/// A successful argument decode moves the cursor forward, never past the
/// end, and yields exactly as many values as kinds.
pub proof fn lemma_decode_args_bounds(kinds: Seq<ArgKind>, b: Seq<u8>, pos: int)
    requires
        spec_decode_args(kinds, b, pos) is Some,
    ensures
        pos <= spec_decode_args(kinds, b, pos)->Some_0.1 <= b.len() || kinds.len() == 0,
        kinds.len() > 0 ==> pos < spec_decode_args(kinds, b, pos)->Some_0.1,
        spec_decode_args(kinds, b, pos)->Some_0.0.len() == kinds.len(),
    decreases kinds.len(),
{
    if kinds.len() > 0 {
        let (v, p) = spec_decode_value(kinds[0], b, pos)->Some_0;
        lemma_decode_args_bounds(kinds.drop_first(), b, p);
    }
}

/// A successful decode attempt yields an operation of the table, with one
/// argument per descriptor, and moves the cursor strictly forward, never
/// past the end.
pub proof fn lemma_decode_op_advances(table: Seq<MethodDescriptorV>, b: Seq<u8>, pos: int)
    requires
        spec_decode_op(table, b, pos) is Some,
    ensures
        pos < spec_decode_op(table, b, pos)->Some_0.1 <= b.len(),
        op_matches_table(table, spec_decode_op(table, b, pos)->Some_0.0),
{
    let m = b[pos] as int;
    lemma_decode_args_bounds(arg_kinds(table[m]), b, pos + 1);
}

/// Every operation of a decoded sequence selects a method of the table and
/// carries one argument per declared descriptor.
pub proof fn lemma_decode_ops_wf(table: Seq<MethodDescriptorV>, b: Seq<u8>, pos: int)
    ensures
        forall|i: int|
            0 <= i < spec_decode_ops(table, b, pos).len() ==> op_matches_table(
                table,
                #[trigger] spec_decode_ops(table, b, pos)[i],
            ),
    decreases b.len() - pos,
{
    if 0 <= pos <= b.len() {
        if let Some((op, p2)) = spec_decode_op(table, b, pos) {
            lemma_decode_op_advances(table, b, pos);
            lemma_decode_ops_wf(table, b, p2);
            let ops = spec_decode_ops(table, b, pos);
            let rest = spec_decode_ops(table, b, p2);
            assert(ops == seq![op] + rest);
            assert forall|i: int| 0 <= i < ops.len() implies op_matches_table(
                table,
                ops[i],
            ) by {
                if i > 0 {
                    assert(ops[i] == rest[i - 1]);
                }
            }
        }
    }
}

/// Each decoded operation consumes at least one byte, so a buffer decodes to
/// at most as many operations as it has bytes left.
pub proof fn lemma_decode_ops_len(table: Seq<MethodDescriptorV>, b: Seq<u8>, pos: int)
    requires
        0 <= pos <= b.len(),
    ensures
        spec_decode_ops(table, b, pos).len() <= b.len() - pos,
    decreases b.len() - pos,
{
    if let Some((op, p2)) = spec_decode_op(table, b, pos) {
        lemma_decode_op_advances(table, b, pos);
        lemma_decode_ops_len(table, b, p2);
    }
}

/// Decoding is deterministic: the buffer alone (with the table) determines
/// the operation sequence, so decoding one buffer twice yields identical
/// sequences. Together with the postcondition of [`decode_sequence`], two
/// runs of the decoder over equal buffers return view-equal operation
/// vectors.
pub proof fn lemma_decode_deterministic(
    table: Seq<MethodDescriptorV>,
    b1: Seq<u8>,
    b2: Seq<u8>,
)
    requires
        b1 == b2,
    ensures
        spec_decode_ops(table, b1, 0) == spec_decode_ops(table, b2, 0),
{
}

fn read_u16_le(b: &Vec<u8>, pos: usize) -> (r: u64)
    requires
        pos + 2 <= b@.len(),
    ensures
        r == spec_u16_le(b@, pos as int),
{
    let _n = b.len();
    let b0 = b[pos] as u64;
    let b1 = b[pos + 1] as u64;
    b0 + 0x100 * b1
}

fn read_u32_le(b: &Vec<u8>, pos: usize) -> (r: u64)
    requires
        pos + 4 <= b@.len(),
    ensures
        r == spec_u32_le(b@, pos as int),
{
    let _n = b.len();
    let b0 = b[pos] as u64;
    let b1 = b[pos + 1] as u64;
    let b2 = b[pos + 2] as u64;
    let b3 = b[pos + 3] as u64;
    b0 + 0x100 * b1 + 0x1_0000 * b2 + 0x100_0000 * b3
}

fn read_u64_le(b: &Vec<u8>, pos: usize) -> (r: u64)
    requires
        pos + 8 <= b@.len(),
    ensures
        r == spec_u64_le(b@, pos as int),
{
    let _n = b.len();
    let b0 = b[pos] as u64;
    let b1 = b[pos + 1] as u64;
    let b2 = b[pos + 2] as u64;
    let b3 = b[pos + 3] as u64;
    let b4 = b[pos + 4] as u64;
    let b5 = b[pos + 5] as u64;
    let b6 = b[pos + 6] as u64;
    let b7 = b[pos + 7] as u64;
    b0 + 0x100 * b1 + 0x1_0000 * b2 + 0x100_0000 * b3 + 0x1_0000_0000 * b4 + 0x100_0000_0000 * b5
        + 0x1_0000_0000_0000 * b6 + 0x100_0000_0000_0000 * b7
}

fn read_bytes(b: &Vec<u8>, pos: usize, n: usize) -> (r: Vec<u8>)
    requires
        pos + n <= b@.len(),
    ensures
        r@ == b@.subrange(pos as int, pos + n),
{
    let total = b.len();
    let mut out: Vec<u8> = Vec::new();
    let mut i: usize = 0;
    while i < n
        invariant
            total == b@.len(),
            pos + n <= b@.len(),
            i <= n,
            out@ == b@.subrange(pos as int, pos + i),
        decreases n - i,
    {
        out.push(b[pos + i]);
        i += 1;
        proof {
            assert(out@ =~= b@.subrange(pos as int, pos + i));
        }
    }
    out
}

/// Decodes one argument of the given kind at `pos`, exactly as
/// [`spec_decode_value`] says.
fn decode_value(kind: ArgKind, b: &Vec<u8>, pos: usize) -> (r: Option<(Value, usize)>)
    ensures
        match r {
            Some((v, p)) => spec_decode_value(kind, b@, pos as int) == Some((v@, p as int)),
            None => spec_decode_value(kind, b@, pos as int) is None,
        },
{
    match kind {
        ArgKind::Bool => {
            if pos < b.len() {
                Some((Value::Bool(b[pos] % 2 == 1), pos + 1))
            } else {
                None
            }
        },
        ArgKind::U8 => {
            if pos < b.len() {
                Some((Value::U64(b[pos] as u64), pos + 1))
            } else {
                None
            }
        },
        ArgKind::U16 => {
            if b.len() >= 2 && pos <= b.len() - 2 {
                Some((Value::U64(read_u16_le(b, pos)), pos + 2))
            } else {
                None
            }
        },
        ArgKind::U32 => {
            if b.len() >= 4 && pos <= b.len() - 4 {
                Some((Value::U64(read_u32_le(b, pos)), pos + 4))
            } else {
                None
            }
        },
        ArgKind::U64 => {
            if b.len() >= 8 && pos <= b.len() - 8 {
                Some((Value::U64(read_u64_le(b, pos)), pos + 8))
            } else {
                None
            }
        },
        ArgKind::Bytes => {
            if pos < b.len() {
                let n = b[pos] as usize;
                if n <= b.len() - (pos + 1) {
                    Some((Value::Bytes(read_bytes(b, pos + 1, n)), pos + 1 + n))
                } else {
                    None
                }
            } else {
                None
            }
        },
    }
}

/// Decodes all arguments of one method, exactly as [`spec_decode_args`]
/// says.
fn decode_args(desc: &MethodDescriptor, b: &Vec<u8>, pos: usize) -> (r: Option<(Vec<Value>, usize)>)
    ensures
        match r {
            Some((vs, p)) => spec_decode_args(arg_kinds(desc@), b@, pos as int) == Some(
                (vs@.map_values(|v: Value| v@), p as int),
            ),
            None => spec_decode_args(arg_kinds(desc@), b@, pos as int) is None,
        },
{
    let ghost kinds = arg_kinds(desc@);
    let n = desc.args.len();
    let mut vals: Vec<Value> = Vec::new();
    let mut cur: usize = pos;
    let mut i: usize = 0;
    proof {
        assert(kinds.len() == n);
        assert(kinds.skip(0) =~= kinds);
        if let Some((vs, p)) = spec_decode_args(kinds, b@, pos as int) {
            assert(vals@.map_values(|v: Value| v@) + vs =~= vs);
        }
    }
    while i < n
        invariant
            n == desc.args.len(),
            kinds == arg_kinds(desc@),
            kinds.len() == n,
            i <= n,
            vals@.len() == i,
            spec_decode_args(kinds, b@, pos as int) == match spec_decode_args(
                kinds.skip(i as int),
                b@,
                cur as int,
            ) {
                None => None::<(Seq<ValueV>, int)>,
                Some((vs, p)) => Some((vals@.map_values(|v: Value| v@) + vs, p)),
            },
        decreases n - i,
    {
        let kind = desc.args[i].kind;
        proof {
            assert(kinds[i as int] == desc.args@[i as int]@.kind);
            assert(kinds.skip(i as int)[0] == kinds[i as int]);
        }
        match decode_value(kind, b, cur) {
            None => {
                proof {
                    assert(spec_decode_args(kinds.skip(i as int), b@, cur as int) is None);
                }
                return None;
            },
            Some((v, p)) => {
                proof {
                    let tail = kinds.skip(i as int);
                    assert(tail.drop_first() =~= kinds.skip(i + 1));
                    assert(spec_decode_value(tail[0], b@, cur as int) == Some((v@, p as int)));
                    let old_map = vals@.map_values(|vv: Value| vv@);
                    assert((vals@ + seq![v]).map_values(|vv: Value| vv@) =~= old_map + seq![v@]);
                    if let Some((vs2, p2)) = spec_decode_args(kinds.skip(i + 1), b@, p as int) {
                        assert(old_map + (seq![v@] + vs2) =~= (old_map + seq![v@]) + vs2);
                    }
                }
                vals.push(v);
                cur = p;
                i += 1;
            },
        }
    }
    proof {
        assert(kinds.skip(n as int) =~= Seq::<ArgKind>::empty());
        assert(spec_decode_args(kinds.skip(n as int), b@, cur as int) == Some(
            (Seq::<ValueV>::empty(), cur as int),
        ));
        assert(vals@.map_values(|v: Value| v@) + Seq::<ValueV>::empty() =~= vals@.map_values(
            |v: Value| v@,
        ));
    }
    Some((vals, cur))
}

/// Mathematical abstraction of an [`OperationDecoder`].
pub ghost struct OperationDecoderV {
    pub bytes: Seq<u8>,
    pub pos: int,
}

/// A forward-only, non-restartable cursor over a finite byte buffer,
/// producing one operation per successful decode attempt.
pub struct OperationDecoder {
    bytes: Vec<u8>,
    pos: usize,
}

impl View for OperationDecoder {
    type V = OperationDecoderV;

    closed spec fn view(&self) -> OperationDecoderV {
        OperationDecoderV { bytes: self.bytes@, pos: self.pos as int }
    }
}

impl OperationDecoder {
    /// The cursor never stands past the end of the buffer.
    pub open spec fn wf(self) -> bool {
        0 <= self@.pos <= self@.bytes.len()
    }

    /// Starts a decoder at the beginning of the buffer.
    pub fn new(bytes: Vec<u8>) -> (r: OperationDecoder)
        ensures
            r.wf(),
            r@.bytes == bytes@,
            r@.pos == 0,
    {
        OperationDecoder { bytes, pos: 0 }
    }

    /// One decode attempt at the cursor: `Some` operation with the cursor
    /// advanced past it, or `None` — exhaustion or a malformed encoding —
    /// with the cursor unchanged, after which every further attempt yields
    /// `None` as well.
    pub fn next_op(&mut self, table: &Vec<MethodDescriptor>) -> (r: Option<Operation>)
        requires
            old(self).wf(),
        ensures
            final(self).wf(),
            final(self)@.bytes == old(self)@.bytes,
            match r {
                Some(op) => {
                    &&& spec_decode_op(spec_table(table@), old(self)@.bytes, old(self)@.pos)
                        == Some((op@, final(self)@.pos))
                    &&& old(self)@.pos < final(self)@.pos
                },
                None => {
                    &&& spec_decode_op(spec_table(table@), old(self)@.bytes, old(self)@.pos)
                        is None
                    &&& final(self)@.pos == old(self)@.pos
                },
            },
    {
        let ghost t = spec_table(table@);
        if self.pos >= self.bytes.len() {
            return None;
        }
        let d = self.bytes[self.pos] as usize;
        if d >= table.len() {
            return None;
        }
        proof {
            assert(t[d as int] == table@[d as int]@);
        }
        match decode_args(&table[d], &self.bytes, self.pos + 1) {
            None => None,
            Some((vals, p2)) => {
                proof {
                    lemma_decode_args_bounds(arg_kinds(t[d as int]), self@.bytes, self@.pos + 1);
                }
                self.pos = p2;
                let op = Operation { method: d, args: vals };
                Some(op)
            },
        }
    }
}

/// Decodes the whole buffer into its operation sequence, exactly as
/// [`spec_decode_ops`] says; every operation selects a method of the table
/// and carries one argument per declared descriptor.
pub fn decode_sequence(table: &Vec<MethodDescriptor>, bytes: &Vec<u8>) -> (r: Vec<Operation>)
    ensures
        r@.map_values(|op: Operation| op@) == spec_decode_ops(spec_table(table@), bytes@, 0),
        forall|i: int| 0 <= i < r@.len() ==> op_matches_table(spec_table(table@), #[trigger] r@[i]@),
{
    let ghost t = spec_table(table@);
    let mut dec = OperationDecoder::new(bytes.clone());
    proof {
        assert(dec@.bytes == bytes@);
    }
    let mut out: Vec<Operation> = Vec::new();
    loop
        invariant
            t == spec_table(table@),
            dec.wf(),
            dec@.bytes == bytes@,
            spec_decode_ops(t, bytes@, 0) == out@.map_values(|op: Operation| op@)
                + spec_decode_ops(t, bytes@, dec@.pos),
        decreases bytes@.len() - dec@.pos,
    {
        let ghost pos0 = dec@.pos;
        let r = dec.next_op(table);
        match r {
            None => {
                proof {
                    assert(spec_decode_ops(t, bytes@, pos0) =~= Seq::<OperationV>::empty());
                    assert(out@.map_values(|op: Operation| op@) + Seq::<OperationV>::empty()
                        =~= out@.map_values(|op: Operation| op@));
                    lemma_decode_ops_wf(t, bytes@, 0);
                    assert forall|i: int| 0 <= i < out@.len() implies op_matches_table(
                        t,
                        out@[i]@,
                    ) by {
                        assert(out@.map_values(|op: Operation| op@)[i] == out@[i]@);
                    }
                }
                return out;
            },
            Some(op) => {
                proof {
                    lemma_decode_op_advances(t, bytes@, pos0);
                    let omap = out@.map_values(|o: Operation| o@);
                    assert(spec_decode_ops(t, bytes@, pos0) == seq![op@] + spec_decode_ops(
                        t,
                        bytes@,
                        dec@.pos,
                    ));
                    assert((out@ + seq![op]).map_values(|o: Operation| o@) =~= omap + seq![op@]);
                    assert(omap + (seq![op@] + spec_decode_ops(t, bytes@, dec@.pos)) =~= (omap
                        + seq![op@]) + spec_decode_ops(t, bytes@, dec@.pos));
                }
                out.push(op);
            },
        }
    }
}

} // verus!
