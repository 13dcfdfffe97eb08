use vstd::prelude::*;
use crate::structure::instructions::Expr;
use crate::structure::types::{FuncType, GlobalType, MemType, TableType, ValType};

verus! {

/// Index into the type section.
#[derive(Debug, Clone, Copy, PartialEq, Eq, Structural)]
pub struct TypeIdx(pub u32);

/// Index into the function index space (imported functions first).
#[derive(Debug, Clone, Copy, PartialEq, Eq, Structural)]
pub struct FuncIdx(pub u32);

/// Index into the table index space.
#[derive(Debug, Clone, Copy, PartialEq, Eq, Structural)]
pub struct TableIdx(pub u32);

/// Index into the memory index space.
#[derive(Debug, Clone, Copy, PartialEq, Eq, Structural)]
pub struct MemIdx(pub u32);

/// Index into the global index space (imported globals first).
#[derive(Debug, Clone, Copy, PartialEq, Eq, Structural)]
pub struct GlobalIdx(pub u32);

/// An index of one of the index spaces, convertible to a position in a vector.
pub trait TypedIdx {
    spec fn spec_idx(&self) -> nat;

    fn to_idx(&self) -> (r: usize)
        ensures
            r as nat == self.spec_idx(),
    ;
}

impl TypedIdx for TypeIdx {
    open spec fn spec_idx(&self) -> nat {
        self.0 as nat
    }

    fn to_idx(&self) -> (r: usize) {
        self.0 as usize
    }
}

impl TypedIdx for FuncIdx {
    open spec fn spec_idx(&self) -> nat {
        self.0 as nat
    }

    fn to_idx(&self) -> (r: usize) {
        self.0 as usize
    }
}

impl TypedIdx for TableIdx {
    open spec fn spec_idx(&self) -> nat {
        self.0 as nat
    }

    fn to_idx(&self) -> (r: usize) {
        self.0 as usize
    }
}

impl TypedIdx for MemIdx {
    open spec fn spec_idx(&self) -> nat {
        self.0 as nat
    }

    fn to_idx(&self) -> (r: usize) {
        self.0 as usize
    }
}

impl TypedIdx for GlobalIdx {
    open spec fn spec_idx(&self) -> nat {
        self.0 as nat
    }

    fn to_idx(&self) -> (r: usize) {
        self.0 as usize
    }
}

/// A name of an import, an export or a module.
#[derive(Debug)]
pub struct Name(pub String);

/// A function defined by the module: its type index, its locals and its body.
#[derive(Debug)]
pub struct Func {
    pub type_: TypeIdx,
    pub locals: Vec<ValType>,
    pub body: Expr,
}

/// Two functions with the same type index, locals and body.
pub open spec fn same_func(a: Func, b: Func) -> bool {
    &&& a.type_ == b.type_
    &&& a.locals@ == b.locals@
    &&& a.body.0@ == b.body.0@
}

impl Clone for Func {
    fn clone(&self) -> (r: Self)
        ensures
            same_func(r, *self),
    {
        Func { type_: self.type_, locals: self.locals.clone(), body: self.body.clone() }
    }
}

/// A table defined by the module.
#[derive(Debug)]
pub struct Table {
    pub type_: TableType,
}

/// A memory defined by the module.
#[derive(Debug)]
pub struct Mem {
    pub type_: MemType,
}

/// A global defined by the module with its initializer.
#[derive(Debug)]
pub struct Global {
    pub type_: GlobalType,
    pub init: Expr,
}

/// An element segment: function indices written into the table at an offset.
#[derive(Debug)]
pub struct Elem {
    pub table: TableIdx,
    pub offset: Expr,
    pub init: Vec<FuncIdx>,
}

/// A data segment: bytes written into the memory at an offset.
#[derive(Debug)]
pub struct Data {
    pub data: MemIdx,
    pub offset: Expr,
    pub init: Vec<u8>,
}

/// The start function.
#[derive(Debug)]
pub struct Start {
    pub func: FuncIdx,
}

/// What an export refers to.
#[derive(Debug, Clone, Copy, PartialEq, Eq, Structural)]
pub enum ExportDesc {
    Func(FuncIdx),
    Table(TableIdx),
    Mem(MemIdx),
    Global(GlobalIdx),
}

/// An export.
#[derive(Debug)]
pub struct Export {
    pub name: Name,
    pub desc: ExportDesc,
}

/// What an import expects.
#[derive(Debug, Clone, Copy, PartialEq, Eq, Structural)]
pub enum ImportDesc {
    Func(TypeIdx),
    Table(TableType),
    Mem(MemType),
    Global(GlobalType),
}

/// An import: module name, item name and the expected kind and type.
#[derive(Debug)]
pub struct Import {
    pub module: Name,
    pub name: Name,
    pub desc: ImportDesc,
}

/// A decoded module.
#[derive(Debug)]
pub struct Module {
    pub types: Vec<FuncType>,
    pub funcs: Vec<Func>,
    pub tables: Vec<Table>,
    pub mems: Vec<Mem>,
    pub globals: Vec<Global>,
    pub elem: Vec<Elem>,
    pub data: Vec<Data>,
    pub start: Option<Start>,
    pub imports: Vec<Import>,
    pub exports: Vec<Export>,
}

} // verus!
