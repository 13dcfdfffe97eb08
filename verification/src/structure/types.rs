use vstd::prelude::*;

verus! {

/// The four value types of WebAssembly.
#[derive(Debug, Clone, Copy, PartialEq, Eq, Structural)]
pub enum ValType {
    I32,
    I64,
    F32,
    F64,
}

/// Mutability of a global.
#[derive(Debug, Clone, Copy, PartialEq, Eq, Structural)]
pub enum Mut {
    Const,
    Var,
}

/// The type of a global: its mutability and the type of its value.
#[derive(Debug, Clone, Copy, PartialEq, Eq, Structural)]
pub struct GlobalType(pub Mut, pub ValType);

/// Size limits of a table (in elements) or a memory (in pages).
#[derive(Debug, Clone, Copy, PartialEq, Eq, Structural)]
pub struct Limits {
    pub min: u32,
    pub max: Option<u32>,
}

/// The type of a table of function references.
#[derive(Debug, Clone, Copy, PartialEq, Eq, Structural)]
pub struct TableType(pub Limits);

/// The type of a linear memory.
#[derive(Debug, Clone, Copy, PartialEq, Eq, Structural)]
pub struct MemType(pub Limits);

/// A function type: parameter types and result types.
#[derive(Debug)]
pub struct FuncType(pub Vec<ValType>, pub Vec<ValType>);

/// Import matching of limits: the limits `actual` of a provided table or
/// memory satisfy the limits `expected` that an import declares.
pub open spec fn limits_match(actual: Limits, expected: Limits) -> bool {
    &&& actual.min >= expected.min
    &&& match expected.max {
        None => true,
        Some(m2) => match actual.max {
            Some(m1) => m1 <= m2,
            None => false,
        },
    }
}

impl Limits {
    /// Whether these limits (of the provided value) satisfy `other` (the import's).
    pub fn is_match(&self, other: &Limits) -> (r: bool)
        ensures
            r == limits_match(*self, *other),
    {
        if self.min < other.min {
            return false;
        }
        match other.max {
            None => true,
            Some(m2) => match self.max {
                Some(m1) => m1 <= m2,
                None => false,
            },
        }
    }
}

impl TableType {
    pub fn is_match(&self, other: &TableType) -> (r: bool)
        ensures
            r == limits_match(self.0, other.0),
    {
        self.0.is_match(&other.0)
    }
}

impl MemType {
    pub fn is_match(&self, other: &MemType) -> (r: bool)
        ensures
            r == limits_match(self.0, other.0),
    {
        self.0.is_match(&other.0)
    }
}

impl GlobalType {
    /// Globals match when mutability and value type are the same.
    pub fn is_match(&self, other: &GlobalType) -> (r: bool)
        ensures
            r == (*self == *other),
    {
        let m = match (self.0, other.0) {
            (Mut::Const, Mut::Const) => true,
            (Mut::Var, Mut::Var) => true,
            _ => false,
        };
        m && self.1 == other.1
    }
}

fn val_types_eq(a: &Vec<ValType>, b: &Vec<ValType>) -> (r: bool)
    ensures
        r == (a@ == b@),
{
    if a.len() != b.len() {
        return false;
    }
    let mut i: usize = 0;
    while i < a.len()
        invariant
            a.len() == b.len(),
            i <= a.len(),
            forall|j: int| 0 <= j < i ==> a@[j] == b@[j],
        decreases a.len() - i,
    {
        if a[i] != b[i] {
            return false;
        }
        i = i + 1;
    }
    assert(a@ =~= b@);
    true
}

impl FuncType {
    /// Function types match when they are equal.
    pub fn is_match(&self, other: &FuncType) -> (r: bool)
        ensures
            r == (self.0@ == other.0@ && self.1@ == other.1@),
    {
        val_types_eq(&self.0, &other.0) && val_types_eq(&self.1, &other.1)
    }
}

impl Clone for FuncType {
    fn clone(&self) -> (r: Self)
        ensures
            r.0@ == self.0@,
            r.1@ == self.1@,
    {
        FuncType(self.0.clone(), self.1.clone())
    }
}

} // verus!
