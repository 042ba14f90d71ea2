//! The registration table: static descriptors of the methods of an API
//! surface.
//!
//! A `MethodDescriptor` records a method's name, its argument descriptors in
//! declared order (the order in which the decoder consumes bytes), and how
//! the results of the model and of the tested implementation are compared:
//! directly, or after a normalizer has been applied to each side.

use vstd::prelude::*;
use crate::value::{Value, ValueV};

verus! {

/// How an argument is passed to the method. The operation owns the value in
/// every mode; the mode only governs how a trace line renders the argument.
#[derive(Clone, Copy, PartialEq, Eq, Structural)]
pub enum PassingMode {
    ByValue,
    ByRef,
    ByRefMut,
}

/// The type-directed encoding of one argument in the input byte stream.
#[derive(Clone, Copy, PartialEq, Eq, Structural)]
pub enum ArgKind {
    /// One byte; odd means `true`.
    Bool,
    /// One byte, as an unsigned integer.
    U8,
    /// Two bytes, little endian.
    U16,
    /// Four bytes, little endian.
    U32,
    /// Eight bytes, little endian.
    U64,
    /// One length byte, then that many bytes, as an owned buffer.
    Bytes,
}

/// A normalizer canonicalizes a raw result before equality comparison, so
/// that a comparison can ignore what the surface leaves unspecified (for
/// example the iteration order of an unordered collection).
#[derive(Clone, Copy, PartialEq, Eq, Structural)]
pub enum Normalizer {
    /// Sorts a sequence of integers ascending; leaves every other value as
    /// it is.
    SortU64s,
}

/// How the two results of one operation are compared.
#[derive(Clone, Copy, PartialEq, Eq, Structural)]
pub enum CompareMode {
    /// Plain value equality.
    Equal,
    /// Value equality after the normalizer has been applied independently to
    /// both sides.
    EqualWith(Normalizer),
}

/// Mathematical abstraction of an [`ArgDescriptor`].
pub ghost struct ArgDescriptorV {
    pub name: Seq<char>,
    pub kind: ArgKind,
    pub mode: PassingMode,
}

/// Describes one argument: its name, its encoding, and its passing mode.
pub struct ArgDescriptor {
    pub name: String,
    pub kind: ArgKind,
    pub mode: PassingMode,
}

impl View for ArgDescriptor {
    type V = ArgDescriptorV;

    open spec fn view(&self) -> ArgDescriptorV {
        ArgDescriptorV { name: self.name@, kind: self.kind, mode: self.mode }
    }
}

/// Mathematical abstraction of a [`MethodDescriptor`].
pub ghost struct MethodDescriptorV {
    pub name: Seq<char>,
    pub args: Seq<ArgDescriptorV>,
    pub compare: CompareMode,
}

/// Describes one method of the surface under test. Immutable once
/// registered; the argument order is the order in which bytes are consumed
/// during decoding.
pub struct MethodDescriptor {
    pub name: String,
    pub args: Vec<ArgDescriptor>,
    pub compare: CompareMode,
}

impl View for MethodDescriptor {
    type V = MethodDescriptorV;

    open spec fn view(&self) -> MethodDescriptorV {
        MethodDescriptorV {
            name: self.name@,
            args: self.args@.map_values(|a: ArgDescriptor| a@),
            compare: self.compare,
        }
    }
}

/// Abstraction of a whole registration table.
pub open spec fn spec_table(table: Seq<MethodDescriptor>) -> Seq<MethodDescriptorV> {
    table.map_values(|d: MethodDescriptor| d@)
}

impl ArgDescriptor {
    /// Builds one argument descriptor.
    pub fn new(name: &str, kind: ArgKind, mode: PassingMode) -> (r: ArgDescriptor)
        ensures
            r@ == (ArgDescriptorV { name: name@, kind, mode }),
    {
        ArgDescriptor { name: name.to_owned(), kind, mode }
    }
}

impl MethodDescriptor {
    /// Builds one method descriptor.
    pub fn new(name: &str, args: Vec<ArgDescriptor>, compare: CompareMode) -> (r:
        MethodDescriptor)
        ensures
            r@ == (MethodDescriptorV {
                name: name@,
                args: args@.map_values(|a: ArgDescriptor| a@),
                compare,
            }),
    {
        MethodDescriptor { name: name.to_owned(), args, compare }
    }
}

/// The normalizer's meaning: what a raw result becomes before comparison.
pub open spec fn spec_normalize(n: Normalizer, v: ValueV) -> ValueV {
    match n {
        Normalizer::SortU64s => match v {
            ValueV::U64s(s) => ValueV::U64s(crate::sort::spec_sort(s)),
            _ => v,
        },
    }
}

/// What a raw result becomes under a comparison mode: unchanged for
/// [`CompareMode::Equal`], normalized for [`CompareMode::EqualWith`].
pub open spec fn spec_canonical(c: CompareMode, v: ValueV) -> ValueV {
    match c {
        CompareMode::Equal => v,
        CompareMode::EqualWith(n) => spec_normalize(n, v),
    }
}

/// Applies a normalizer to a raw result.
pub fn normalize(n: &Normalizer, v: Value) -> (r: Value)
    ensures
        r@ == spec_normalize(*n, v@),
{
    match n {
        Normalizer::SortU64s => match v {
            Value::U64s(s) => Value::U64s(crate::sort::sort_u64s(s)),
            other => other,
        },
    }
}

/// Applies the canonicalization a comparison mode calls for.
pub fn canonicalize(c: &CompareMode, v: Value) -> (r: Value)
    ensures
        r@ == spec_canonical(*c, v@),
{
    match c {
        CompareMode::Equal => v,
        CompareMode::EqualWith(n) => normalize(n, v),
    }
}

} // verus!
