use vstd::prelude::*;
use crate::structure::types::ValType;

verus! {

/// A value. Floating-point values are carried as their IEEE 754 bit patterns.
#[derive(Debug, Clone, Copy, PartialEq, Eq, Structural)]
pub enum Val {
    I32(i32),
    I64(i64),
    F32(u32),
    F64(u64),
}

/// The type of a value.
pub open spec fn type_of(v: Val) -> ValType {
    match v {
        Val::I32(_) => ValType::I32,
        Val::I64(_) => ValType::I64,
        Val::F32(_) => ValType::F32,
        Val::F64(_) => ValType::F64,
    }
}

impl Val {
    pub fn val_type(&self) -> (t: ValType)
        ensures
            t == type_of(*self),
    {
        match self {
            Val::I32(_) => ValType::I32,
            Val::I64(_) => ValType::I64,
            Val::F32(_) => ValType::F32,
            Val::F64(_) => ValType::F64,
        }
    }

    /// The payload of an `I32` value.
    pub fn unwrap_i32(&self) -> (r: i32)
        requires
            *self is I32,
        ensures
            *self == Val::I32(r),
    {
        match self {
            Val::I32(x) => *x,
            _ => 0,
        }
    }
}

} // verus!
