//! Core data types: runtime values, function identifiers and source spans.

use vstd::prelude::*;
use vstd::std_specs::cmp::PartialEqSpecImpl;
use crate::binary64;

verus! {

/// Identifier that joins bytecode, IR, compiled code and profiler state of
/// one function across all tiers.
pub type FunctionId = usize;

/// A runtime value.
///
/// `Number` carries the bit pattern of an IEEE-754 binary64 value.
#[derive(Debug, Clone, Copy)]
pub enum Value {
    /// A binary64 number, as its 64-bit pattern.
    Number(u64),
    /// A reference to a function by its identifier.
    Function(FunctionId),
    /// The undefined value.
    Undefined,
}

impl Value {
    /// Equality of values: numbers compare as binary64 numbers (a NaN equals
    /// nothing, the two zeros are equal), function references by identifier.
    pub open spec fn same(self, other: Value) -> bool {
        match (self, other) {
            (Value::Number(a), Value::Number(b)) => binary64::equal(a, b),
            (Value::Function(a), Value::Function(b)) => a == b,
            (Value::Undefined, Value::Undefined) => true,
            _ => false,
        }
    }

    /// The name of the value's runtime type.
    pub open spec fn kind_name_spec(self) -> Seq<char> {
        match self {
            Value::Number(_) => "number"@,
            Value::Function(_) => "function"@,
            Value::Undefined => "undefined"@,
        }
    }

    /// The name of the value's runtime type: `"number"`, `"function"` or
    /// `"undefined"`.
    pub fn kind_name(&self) -> (name: &'static str)
        ensures
            name@ == self.kind_name_spec(),
    {
        match self {
            Value::Number(_) => "number",
            Value::Function(_) => "function",
            Value::Undefined => "undefined",
        }
    }

    /// Whether a conditional jump treats the value as false: the number zero
    /// (of either sign) and `Undefined` are false, everything else is true.
    pub open spec fn is_falsy_spec(self) -> bool {
        match self {
            Value::Number(n) => binary64::is_zero(n),
            Value::Undefined => true,
            Value::Function(_) => false,
        }
    }

    /// Whether a conditional jump treats the value as false.
    pub fn is_falsy(&self) -> (b: bool)
        ensures
            b == self.is_falsy_spec(),
    {
        match self {
            Value::Number(n) => binary64::bits_are_zero(*n),
            Value::Undefined => true,
            Value::Function(_) => false,
        }
    }
}

impl PartialEq for Value {
    fn eq(&self, other: &Value) -> (r: bool) {
        match (self, other) {
            (Value::Number(a), Value::Number(b)) => binary64::bits_equal(*a, *b),
            (Value::Function(a), Value::Function(b)) => *a == *b,
            (Value::Undefined, Value::Undefined) => true,
            _ => false,
        }
    }
}

impl PartialEqSpecImpl for Value {
    open spec fn obeys_eq_spec() -> bool {
        true
    }

    open spec fn eq_spec(&self, other: &Value) -> bool {
        self.same(*other)
    }
}

impl Default for Value {
    fn default() -> (v: Value)
        ensures
            v == Value::Undefined,
    {
        Value::Undefined
    }
}

/// A half-open range of positions in source text.
#[derive(Debug, Clone, Copy, PartialEq, Eq, Structural)]
pub struct Span {
    /// First position covered.
    pub start: usize,
    /// Position just past the last one covered.
    pub end: usize,
}

impl Span {
    /// A span from `start` to `end`.
    pub fn new(start: usize, end: usize) -> (s: Span)
        ensures
            s == (Span { start, end }),
    {
        Span { start, end }
    }

    /// A span that starts and ends at `pos`.
    pub fn single(pos: usize) -> (s: Span)
        ensures
            s == (Span { start: pos, end: pos }),
    {
        Span { start: pos, end: pos }
    }

    /// The smallest span that covers both `self` and `other`.
    pub open spec fn merge_spec(self, other: Span) -> Span {
        Span {
            start: if self.start <= other.start { self.start } else { other.start },
            end: if self.end >= other.end { self.end } else { other.end },
        }
    }

    /// The smallest span that covers both `self` and `other`: it starts at
    /// the lesser start and ends at the greater end.
    pub fn merge(self, other: Span) -> (s: Span)
        ensures
            s == self.merge_spec(other),
    {
        Span {
            start: if self.start <= other.start { self.start } else { other.start },
            end: if self.end >= other.end { self.end } else { other.end },
        }
    }
}

} // verus!
