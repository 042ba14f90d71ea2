//! The trace recorder: renders each executed operation to a line of text
//! reconstructable as a literal call — method name, then each argument
//! formatted according to its passing mode. Purely a debugging aid, kept
//! apart from classification; disabled, it records nothing.

use vstd::prelude::*;
use crate::descriptor::{ArgDescriptorV, MethodDescriptor, MethodDescriptorV, PassingMode};
use crate::operation::{Operation, OperationV};
use crate::value::{Value, ValueV};

verus! {

/// The decimal digit character for `d`.
pub open spec fn digit_char(d: int) -> char {
    if d == 0 {
        '0'
    } else if d == 1 {
        '1'
    } else if d == 2 {
        '2'
    } else if d == 3 {
        '3'
    } else if d == 4 {
        '4'
    } else if d == 5 {
        '5'
    } else if d == 6 {
        '6'
    } else if d == 7 {
        '7'
    } else if d == 8 {
        '8'
    } else {
        '9'
    }
}

/// The decimal rendering of a number, most significant digit first.
pub open spec fn spec_u64_dec(n: int) -> Seq<char>
    decreases n,
{
    if n < 10 {
        seq![digit_char(n)]
    } else {
        spec_u64_dec(n / 10) + seq![digit_char(n % 10)]
    }
}

fn digit_str(d: u64) -> (r: &'static str)
    requires
        d < 10,
    ensures
        r@ == seq![digit_char(d as int)],
{
    if d == 0 {
        proof {
            reveal_strlit("0");
            assert("0"@ =~= seq![digit_char(0)]);
        }
        "0"
    } else if d == 1 {
        proof {
            reveal_strlit("1");
            assert("1"@ =~= seq![digit_char(1)]);
        }
        "1"
    } else if d == 2 {
        proof {
            reveal_strlit("2");
            assert("2"@ =~= seq![digit_char(2)]);
        }
        "2"
    } else if d == 3 {
        proof {
            reveal_strlit("3");
            assert("3"@ =~= seq![digit_char(3)]);
        }
        "3"
    } else if d == 4 {
        proof {
            reveal_strlit("4");
            assert("4"@ =~= seq![digit_char(4)]);
        }
        "4"
    } else if d == 5 {
        proof {
            reveal_strlit("5");
            assert("5"@ =~= seq![digit_char(5)]);
        }
        "5"
    } else if d == 6 {
        proof {
            reveal_strlit("6");
            assert("6"@ =~= seq![digit_char(6)]);
        }
        "6"
    } else if d == 7 {
        proof {
            reveal_strlit("7");
            assert("7"@ =~= seq![digit_char(7)]);
        }
        "7"
    } else if d == 8 {
        proof {
            reveal_strlit("8");
            assert("8"@ =~= seq![digit_char(8)]);
        }
        "8"
    } else {
        proof {
            reveal_strlit("9");
            assert("9"@ =~= seq![digit_char(9)]);
        }
        "9"
    }
}

/// Renders a number in decimal, exactly as [`spec_u64_dec`] says.
pub fn u64_to_dec(n: u64) -> (r: String)
    ensures
        r@ == spec_u64_dec(n as int),
    decreases n,
{
    if n < 10 {
        digit_str(n).to_owned()
    } else {
        let mut s = u64_to_dec(n / 10);
        s.append(digit_str(n % 10));
        s
    }
}

/// The list rendering of `s[i..]`: each element in decimal, a comma-space
/// in front of every element but the whole list's first.
pub open spec fn spec_render_nums(s: Seq<u64>, i: int) -> Seq<char>
    decreases s.len() - i,
{
    if i < 0 || i >= s.len() {
        Seq::empty()
    } else {
        let sep: Seq<char> = if i > 0 {
            ", "@
        } else {
            Seq::empty()
        };
        sep + spec_u64_dec(s[i] as int) + spec_render_nums(s, i + 1)
    }
}

fn render_nums(s: &Vec<u64>) -> (r: String)
    ensures
        r@ == spec_render_nums(s@, 0),
{
    let n = s.len();
    let mut out = String::new();
    let mut i: usize = 0;
    while i < n
        invariant
            n == s@.len(),
            i <= n,
            spec_render_nums(s@, 0) == out@ + spec_render_nums(s@, i as int),
        decreases n - i,
    {
        let ghost before = out@;
        let ghost sep: Seq<char> = if i > 0 {
            ", "@
        } else {
            Seq::<char>::empty()
        };
        if i > 0 {
            out.append(", ");
        }
        let d = u64_to_dec(s[i]);
        out.append(d.as_str());
        i += 1;
        proof {
            assert(out@ =~= before + (sep + d@));
            assert(spec_render_nums(s@, i - 1) =~= (sep + d@) + spec_render_nums(s@, i as int));
            assert(before + ((sep + d@) + spec_render_nums(s@, i as int)) =~= (before + (sep
                + d@)) + spec_render_nums(s@, i as int));
        }
    }
    proof {
        assert(out@ + Seq::<char>::empty() =~= out@);
    }
    out
}

/// The rendering of one value: unit and booleans literally, numbers in
/// decimal, options spelled out, sequences bracketed element by element.
pub open spec fn spec_render_value(v: ValueV) -> Seq<char> {
    match v {
        ValueV::Unit => "()"@,
        ValueV::Bool(b) => if b {
            "true"@
        } else {
            "false"@
        },
        ValueV::U64(n) => spec_u64_dec(n as int),
        ValueV::OptU64(o) => match o {
            None => "None"@,
            Some(n) => "Some("@ + spec_u64_dec(n as int) + ")"@,
        },
        ValueV::U64s(s) => "["@ + spec_render_nums(s, 0) + "]"@,
        ValueV::Bytes(b) => "["@ + spec_render_nums(b.map_values(|x: u8| x as u64), 0) + "]"@,
    }
}

fn bytes_as_u64s(b: &Vec<u8>) -> (r: Vec<u64>)
    ensures
        r@ == b@.map_values(|x: u8| x as u64),
{
    let n = b.len();
    let mut out: Vec<u64> = Vec::new();
    let mut i: usize = 0;
    while i < n
        invariant
            n == b@.len(),
            i <= n,
            out@ == b@.take(i as int).map_values(|x: u8| x as u64),
        decreases n - i,
    {
        out.push(b[i] as u64);
        i += 1;
        proof {
            assert(out@ =~= b@.take(i as int).map_values(|x: u8| x as u64));
        }
    }
    proof {
        assert(b@.take(n as int) =~= b@);
    }
    out
}

/// Renders one value, exactly as [`spec_render_value`] says.
pub fn render_value(v: &Value) -> (r: String)
    ensures
        r@ == spec_render_value(v@),
{
    match v {
        Value::Unit => "()".to_owned(),
        Value::Bool(b) => if *b {
            "true".to_owned()
        } else {
            "false".to_owned()
        },
        Value::U64(n) => u64_to_dec(*n),
        Value::OptU64(o) => {
            match o {
                None => "None".to_owned(),
                Some(n) => {
                    let mut s = "Some(".to_owned();
                    let d = u64_to_dec(*n);
                    s.append(d.as_str());
                    s.append(")");
                    s
                },
            }
        },
        Value::U64s(vs) => {
            let mut s = "[".to_owned();
            let inner = render_nums(vs);
            s.append(inner.as_str());
            s.append("]");
            s
        },
        Value::Bytes(bs) => {
            let mapped = bytes_as_u64s(bs);
            let mut s = "[".to_owned();
            let inner = render_nums(&mapped);
            s.append(inner.as_str());
            s.append("]");
            s
        },
    }
}

/// The passing mode of argument `i`, by-value where the descriptor says
/// nothing.
pub open spec fn spec_mode_of(dargs: Seq<ArgDescriptorV>, i: int) -> PassingMode {
    if 0 <= i < dargs.len() {
        dargs[i].mode
    } else {
        PassingMode::ByValue
    }
}

/// The rendering of one argument: its value, annotated according to its
/// passing mode.
pub open spec fn spec_render_arg(mode: PassingMode, v: ValueV) -> Seq<char> {
    match mode {
        PassingMode::ByValue => spec_render_value(v),
        PassingMode::ByRef => "&"@ + spec_render_value(v),
        PassingMode::ByRefMut => "&mut "@ + spec_render_value(v),
    }
}

/// The rendering of the arguments from `i` on, each preceded by a
/// comma-space unless it is the whole list's first.
pub open spec fn spec_render_args(
    dargs: Seq<ArgDescriptorV>,
    args: Seq<ValueV>,
    i: int,
) -> Seq<char>
    decreases args.len() - i,
{
    if i < 0 || i >= args.len() {
        Seq::empty()
    } else {
        let sep: Seq<char> = if i > 0 {
            ", "@
        } else {
            Seq::empty()
        };
        sep + spec_render_arg(spec_mode_of(dargs, i), args[i]) + spec_render_args(
            dargs,
            args,
            i + 1,
        )
    }
}

/// The rendering of one operation as a literal call: `v.<name>(<args>);`.
pub open spec fn spec_render_op(desc: MethodDescriptorV, op: OperationV) -> Seq<char> {
    "v."@ + desc.name + "("@ + spec_render_args(desc.args, op.args, 0) + ");"@
}

/// Renders one executed operation as a replayable call, exactly as
/// [`spec_render_op`] says.
pub fn render_op(desc: &MethodDescriptor, op: &Operation) -> (r: String)
    ensures
        r@ == spec_render_op(desc@, op@),
{
    let ghost dargs = desc@.args;
    let ghost argsv = op@.args;
    let mut out = "v.".to_owned();
    out.append(desc.name.as_str());
    out.append("(");
    let ghost head = out@;
    let n = op.args.len();
    let mut i: usize = 0;
    proof {
        assert(argsv.len() == op.args@.len());
    }
    while i < n
        invariant
            dargs == desc@.args,
            argsv == op@.args,
            n == op.args@.len(),
            argsv.len() == n,
            i <= n,
            head == "v."@ + desc@.name + "("@,
            out@ + spec_render_args(dargs, argsv, i as int) == head + spec_render_args(
                dargs,
                argsv,
                0,
            ),
        decreases n - i,
    {
        let ghost before = out@;
        let ghost sep: Seq<char> = if i > 0 {
            ", "@
        } else {
            Seq::<char>::empty()
        };
        if i > 0 {
            out.append(", ");
        }
        let ghost mid = out@;
        let mode = if i < desc.args.len() {
            desc.args[i].mode
        } else {
            PassingMode::ByValue
        };
        proof {
            assert(mode == spec_mode_of(dargs, i as int));
        }
        match mode {
            PassingMode::ByValue => {},
            PassingMode::ByRef => out.append("&"),
            PassingMode::ByRefMut => out.append("&mut "),
        }
        let ghost prefix: Seq<char> = match mode {
            PassingMode::ByValue => Seq::<char>::empty(),
            PassingMode::ByRef => "&"@,
            PassingMode::ByRefMut => "&mut "@,
        };
        let rendered = render_value(&op.args[i]);
        out.append(rendered.as_str());
        proof {
            assert(argsv[i as int] == op.args@[i as int]@);
            assert(out@ =~= before + (sep + (prefix + rendered@)));
            assert(prefix + spec_render_value(argsv[i as int]) =~= spec_render_arg(
                mode,
                argsv[i as int],
            ));
            assert(spec_render_args(dargs, argsv, i as int) =~= (sep + (prefix + rendered@))
                + spec_render_args(dargs, argsv, i as int + 1));
            assert((before + (sep + (prefix + rendered@))) + spec_render_args(
                dargs,
                argsv,
                i as int + 1,
            ) =~= before + ((sep + (prefix + rendered@)) + spec_render_args(
                dargs,
                argsv,
                i as int + 1,
            )));
        }
        i += 1;
    }
    proof {
        assert(out@ + Seq::<char>::empty() =~= out@);
        assert(out@ == head + spec_render_args(dargs, argsv, 0));
    }
    out.append(");");
    proof {
        assert(("v."@ + desc@.name + "("@) + spec_render_args(dargs, argsv, 0) + ");"@
            =~= spec_render_op(desc@, op@));
    }
    out
}

/// The rendering of the operations from `i` on, one line each, each method
/// looked up in the table.
pub open spec fn spec_render_lines(
    table: Seq<MethodDescriptorV>,
    ops: Seq<OperationV>,
    i: int,
) -> Seq<char>
    decreases ops.len() - i,
{
    if i < 0 || i >= ops.len() {
        Seq::empty()
    } else {
        spec_render_op(table[ops[i].method], ops[i]) + seq!['\n'] + spec_render_lines(
            table,
            ops,
            i + 1,
        )
    }
}

/// Rendering one more operation appends one more line.
pub proof fn lemma_render_lines_snoc(
    table: Seq<MethodDescriptorV>,
    ops: Seq<OperationV>,
    i: int,
    j: int,
)
    requires
        0 <= i <= j < ops.len(),
    ensures
        spec_render_lines(table, ops.take(j + 1), i) == spec_render_lines(table, ops.take(j), i)
            + (spec_render_op(table[ops[j].method], ops[j]) + seq!['\n']),
    decreases j - i,
{
    let line = spec_render_op(table[ops[j].method], ops[j]) + seq!['\n'];
    if i == j {
        assert(ops.take(j + 1)[j] == ops[j]);
        assert(spec_render_lines(table, ops.take(j + 1), j + 1) =~= Seq::<char>::empty());
        assert(spec_render_lines(table, ops.take(j), j) =~= Seq::<char>::empty());
        assert(line + Seq::<char>::empty() =~= line);
        assert(Seq::<char>::empty() + line =~= line);
    } else {
        lemma_render_lines_snoc(table, ops, i + 1, j);
        assert(ops.take(j + 1)[i] == ops[i]);
        assert(ops.take(j)[i] == ops[i]);
        let head = spec_render_op(table[ops[i].method], ops[i]) + seq!['\n'];
        assert(head + (spec_render_lines(table, ops.take(j), i + 1) + line) =~= (head
            + spec_render_lines(table, ops.take(j), i + 1)) + line);
    }
}

/// Mathematical abstraction of a [`TraceRecorder`].
pub ghost struct TraceRecorderV {
    pub enabled: bool,
    pub log: Seq<char>,
}

/// Collects the rendered calls of one run, one line per operation. A
/// disabled recorder keeps nothing; either way it has no part in decoding,
/// execution or classification.
pub struct TraceRecorder {
    enabled: bool,
    log: String,
}

impl View for TraceRecorder {
    type V = TraceRecorderV;

    closed spec fn view(&self) -> TraceRecorderV {
        TraceRecorderV { enabled: self.enabled, log: self.log@ }
    }
}

impl TraceRecorder {
    /// A fresh recorder, recording only if `enabled`.
    pub fn new(enabled: bool) -> (r: TraceRecorder)
        ensures
            r@.enabled == enabled,
            r@.log == Seq::<char>::empty(),
    {
        TraceRecorder { enabled, log: String::new() }
    }

    /// Appends one executed operation to the log, as a line — or nothing,
    /// if the recorder is disabled.
    pub fn append(&mut self, desc: &MethodDescriptor, op: &Operation)
        ensures
            final(self)@.enabled == old(self)@.enabled,
            final(self)@.log == if old(self)@.enabled {
                old(self)@.log + spec_render_op(desc@, op@) + seq!['\n']
            } else {
                old(self)@.log
            },
    {
        if self.enabled {
            let line = render_op(desc, op);
            self.log.append(line.as_str());
            self.log.append("\n");
            proof {
                reveal_strlit("\n");
                assert("\n"@ =~= seq!['\n']);
            }
        }
    }

    /// The log so far.
    pub fn text(&self) -> (r: &str)
        ensures
            r@ == self@.log,
    {
        self.log.as_str()
    }
}

} // verus!
