use vstd::prelude::*;
use crate::exec::func::FuncInst;
use crate::exec::global::GlobalInst;
use crate::exec::instance::ModuleInst;
use crate::exec::mem::MemInst;
use crate::exec::table::TableInst;

verus! {

/// The store: every function, table, memory, global and module instance
/// that has been allocated. Instances refer to each other by their
/// address, the position in the matching vector; instances that share an
/// address share the instance, as an import shares the exporting
/// module's global.
pub struct Store {
    pub funcs: Vec<FuncInst>,
    pub tables: Vec<TableInst>,
    pub mems: Vec<MemInst>,
    pub globals: Vec<GlobalInst>,
    pub modules: Vec<ModuleInst>,
}

impl Store {
    /// An empty store.
    pub fn new() -> (s: Store)
        ensures
            s.funcs@.len() == 0,
            s.tables@.len() == 0,
            s.mems@.len() == 0,
            s.globals@.len() == 0,
            s.modules@.len() == 0,
    {
        Store {
            funcs: Vec::new(),
            tables: Vec::new(),
            mems: Vec::new(),
            globals: Vec::new(),
            modules: Vec::new(),
        }
    }
}

} // verus!
