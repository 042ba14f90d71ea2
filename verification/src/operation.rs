//! One decoded, replayable unit of work: a method selector plus owned copies
//! of all arguments.

use vstd::prelude::*;
use crate::descriptor::MethodDescriptorV;
use crate::value::{Value, ValueV};

verus! {

/// Mathematical abstraction of an [`Operation`].
pub ghost struct OperationV {
    /// Index of the method descriptor in the registration table.
    pub method: int,
    /// The decoded arguments, in declared order.
    pub args: Seq<ValueV>,
}

/// One decoded operation. Created by the decoder, consumed exactly once by
/// the engine. It owns every argument value, whatever the declared passing
/// mode, so the same operation can be applied to two targets without
/// aliasing.
#[derive(Debug, PartialEq, Eq)]
pub struct Operation {
    /// Index of the method descriptor in the registration table.
    pub method: usize,
    /// The decoded arguments, in declared order.
    pub args: Vec<Value>,
}

impl View for Operation {
    type V = OperationV;

    open spec fn view(&self) -> OperationV {
        OperationV {
            method: self.method as int,
            args: self.args@.map_values(|v: Value| v@),
        }
    }
}

/// Whether an operation selects a method of the table and carries one
/// argument per declared argument descriptor. Every operation the decoder
/// produces satisfies this.
pub open spec fn op_matches_table(table: Seq<MethodDescriptorV>, op: OperationV) -> bool {
    &&& 0 <= op.method < table.len()
    &&& op.args.len() == table[op.method].args.len()
}

} // verus!
