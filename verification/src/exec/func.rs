use vstd::prelude::*;
use crate::exec::store::Store;
use crate::structure::modules::Func;
use crate::structure::types::FuncType;

verus! {

/// A function instance: its type, its code and the address of the module
/// instance it belongs to.
pub struct FuncInst {
    pub type_: FuncType,
    pub code: Func,
    pub module: usize,
}

/// The address of a function instance in the store.
#[derive(Debug, Clone, Copy, PartialEq, Eq, Structural)]
pub struct FuncAddr(pub usize);

impl FuncAddr {
    /// The type of the function at this address.
    pub fn type_<'a>(&self, store: &'a Store) -> (r: &'a FuncType)
        requires
            self.0 < store.funcs@.len(),
        ensures
            *r == store.funcs@[self.0 as int].type_,
    {
        &store.funcs[self.0].type_
    }

    /// Allocates a function instance at the end of the store.
    pub fn allocate(store: &mut Store, type_: FuncType, code: Func, module: usize) -> (r: FuncAddr)
        ensures
            r.0 == old(store).funcs@.len(),
            r.0 < final(store).funcs@.len(),
            final(store).funcs@.len() == old(store).funcs@.len() + 1,
            forall|i: int| 0 <= i < old(store).funcs@.len() ==> final(store).funcs@[i] == old(store).funcs@[i],
            final(store).funcs@[r.0 as int].type_ == type_,
            final(store).funcs@[r.0 as int].code == code,
            final(store).funcs@[r.0 as int].module == module,
            final(store).tables == old(store).tables,
            final(store).mems == old(store).mems,
            final(store).globals == old(store).globals,
            final(store).modules == old(store).modules,
    {
        let r = FuncAddr(store.funcs.len());
        store.funcs.push(FuncInst { type_, code, module });
        r
    }
}

} // verus!
