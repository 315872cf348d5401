//! Runtime values and value types of the bytecode ABI.
//!
//! The host-call surface uses only `i32` and `i64`: pointers into linear
//! memory travel as `i32` (reinterpreted as unsigned offsets) and sizes as
//! `i64` (reinterpreted as unsigned byte counts).

use vstd::prelude::*;

verus! {

/// A value on the interpreter's value stack.
#[derive(Clone, Copy, Debug, PartialEq, Eq, Structural)]
pub enum RuntimeValue {
    I32(i32),
    I64(i64),
}

/// The type of a parameter or result in a function signature.
#[derive(Clone, Copy, Debug, PartialEq, Eq, Structural)]
pub enum ValueType {
    I32,
    I64,
}

impl RuntimeValue {
    pub open spec fn value_type(self) -> ValueType {
        match self {
            RuntimeValue::I32(_) => ValueType::I32,
            RuntimeValue::I64(_) => ValueType::I64,
        }
    }

    /// The `i32` payload; meaningful only on `I32` values.
    pub open spec fn spec_i32(self) -> i32 {
        match self {
            RuntimeValue::I32(x) => x,
            RuntimeValue::I64(x) => x as i32,
        }
    }

    /// The `i64` payload; meaningful only on `I64` values.
    pub open spec fn spec_i64(self) -> i64 {
        match self {
            RuntimeValue::I32(x) => x as i64,
            RuntimeValue::I64(x) => x,
        }
    }
}

/// Whether each value matches the corresponding declared type.
pub open spec fn args_match(args: Seq<RuntimeValue>, params: Seq<ValueType>) -> bool {
    args.len() == params.len() && forall|i: int|
        0 <= i < args.len() ==> (#[trigger] args[i]).value_type() == params[i]
}

} // verus!
