use vstd::prelude::*;
use crate::structure::modules::GlobalIdx;

verus! {

/// Instructions. Floating-point constants are carried as their IEEE 754
/// bit patterns.
#[derive(Debug, Clone, Copy, PartialEq, Eq, Structural)]
pub enum Instr {
    Unreachable,
    Nop,
    I32Const(i32),
    I64Const(i64),
    F32Const(u32),
    F64Const(u64),
    GlobalGet(GlobalIdx),
    GlobalSet(GlobalIdx),
}

/// An expression: a sequence of instructions.
#[derive(Debug)]
pub struct Expr(pub Vec<Instr>);

impl Clone for Expr {
    fn clone(&self) -> (r: Self)
        ensures
            r.0@ == self.0@,
    {
        Expr(self.0.clone())
    }
}

} // verus!
