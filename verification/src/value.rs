//! Values that cross the boundary between a guest and its supervisor.

use vstd::prelude::*;

verus! {

/// A number that a guest module can receive or return.
///
/// Floating-point numbers are kept as their raw bit patterns.
#[derive(Copy, Clone, Debug, PartialEq, Eq, Structural)]
pub enum Value {
    /// A 32-bit integer.
    I32(i32),
    /// A 64-bit integer.
    I64(i64),
    /// The bit pattern of a 32-bit floating-point number.
    F32(u32),
    /// The bit pattern of a 64-bit floating-point number.
    F64(u64),
}

/// A value as a compiled engine reports it.
///
/// Besides numbers such an engine knows references and vectors, which never cross the boundary.
#[derive(Copy, Clone, Debug, PartialEq, Eq, Structural)]
pub enum EngineValue {
    /// A number.
    Number(Value),
    /// A reference or a vector.
    Other,
}

impl EngineValue {
    /// The number that this value is, if it is one.
    pub open spec fn number(self) -> Option<Value> {
        match self {
            EngineValue::Number(value) => Some(value),
            EngineValue::Other => None,
        }
    }

    /// Returns the number that this value is, if it is one.
    pub fn as_number(self) -> (r: Option<Value>)
        ensures
            r == self.number(),
    {
        match self {
            EngineValue::Number(value) => Some(value),
            EngineValue::Other => None,
        }
    }
}

/// What a supervisor function returns.
#[derive(Copy, Clone, Debug, PartialEq, Eq, Structural)]
pub enum ReturnValue {
    /// Nothing.
    Unit,
    /// One value.
    Value(Value),
}

/// The failure that a supervisor function reports in place of a return value.
#[derive(Copy, Clone, Debug, PartialEq, Eq, Structural)]
pub struct HostError;

} // verus!
