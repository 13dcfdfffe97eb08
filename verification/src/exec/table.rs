use vstd::prelude::*;
use crate::error::WasmError;
use crate::exec::func::FuncAddr;
use crate::exec::store::Store;
use crate::structure::modules::FuncIdx;
use crate::structure::types::{Limits, TableType};

verus! {

/// A table instance: its elements and its maximum size.
pub struct TableInst {
    pub elem: Vec<Option<FuncAddr>>,
    pub max: Option<u32>,
}

/// The address of a table instance in the store.
#[derive(Debug, Clone, Copy, PartialEq, Eq, Structural)]
pub struct TableAddr(pub usize);

/// `s` with the positions from `off` on overwritten by `w`.
pub open spec fn overwrite<T>(s: Seq<T>, off: int, w: Seq<T>) -> Seq<T> {
    s.take(off) + w + s.skip(off + w.len())
}

/// The table entries that an element segment writes: the addresses that
/// its function indices denote in `funcs`.
pub open spec fn elem_entries(funcs: Seq<FuncAddr>, init: Seq<FuncIdx>) -> Seq<Option<FuncAddr>> {
    Seq::new(init.len(), |j: int| Some(funcs[init[j].0 as int]))
}

impl TableAddr {
    /// Allocates a table of `type_.0.min` empty entries.
    pub fn allocate(store: &mut Store, type_: &TableType) -> (r: TableAddr)
        ensures
            r.0 == old(store).tables@.len(),
            r.0 < final(store).tables@.len(),
            final(store).tables@ == old(store).tables@.push(final(store).tables@[r.0 as int]),
            final(store).tables@[r.0 as int].elem@ == Seq::new(type_.0.min as nat, |i: int| None::<FuncAddr>),
            final(store).tables@[r.0 as int].max == type_.0.max,
            final(store).funcs == old(store).funcs,
            final(store).mems == old(store).mems,
            final(store).globals == old(store).globals,
            final(store).modules == old(store).modules,
    {
        let r = TableAddr(store.tables.len());
        let elem: Vec<Option<FuncAddr>> = vec![None; type_.0.min as usize];
        proof {
            assert(elem@ =~= Seq::new(type_.0.min as nat, |i: int| None::<FuncAddr>));
        }
        store.tables.push(TableInst { elem, max: type_.0.max });
        r
    }

    /// The current type of the table: its size as minimum, and its maximum.
    pub fn type_(&self, store: &Store) -> (r: TableType)
        requires
            self.0 < store.tables@.len(),
        ensures
            r == TableType(
                Limits {
                    min: store.tables@[self.0 as int].elem@.len() as u32,
                    max: store.tables@[self.0 as int].max,
                },
            ),
    {
        let t = &store.tables[self.0];
        TableType(Limits { min: t.elem.len() as u32, max: t.max })
    }

    /// Whether an element segment of `init` fits at `offset`.
    pub fn instantiation_valid(&self, store: &Store, offset: usize, init: &Vec<FuncIdx>) -> (r: Result<(), WasmError>)
        requires
            self.0 < store.tables@.len(),
        ensures
            r is Ok <==> offset + init@.len() <= store.tables@[self.0 as int].elem@.len(),
            r matches Err(e) ==> e == WasmError::LinkError,
    {
        let len = store.tables[self.0].elem.len();
        if offset <= len && init.len() <= len - offset {
            Ok(())
        } else {
            Err(WasmError::LinkError)
        }
    }

    /// Writes the functions that `init` names into the table from `offset` on.
    pub fn init_elem(&self, store: &mut Store, funcs: &Vec<FuncAddr>, offset: usize, init: &Vec<FuncIdx>)
        requires
            self.0 < old(store).tables@.len(),
            offset + init@.len() <= old(store).tables@[self.0 as int].elem@.len(),
            forall|j: int| 0 <= j < init@.len() ==> (#[trigger] init@[j]).0 < funcs@.len(),
        ensures
            final(store).tables@ == old(store).tables@.update(self.0 as int, final(store).tables@[self.0 as int]),
            final(store).tables@[self.0 as int].elem@ == overwrite(
                old(store).tables@[self.0 as int].elem@,
                offset as int,
                elem_entries(funcs@, init@),
            ),
            final(store).tables@[self.0 as int].max == old(store).tables@[self.0 as int].max,
            final(store).funcs == old(store).funcs,
            final(store).mems == old(store).mems,
            final(store).globals == old(store).globals,
            final(store).modules == old(store).modules,
    {
        let total = store.tables[self.0].elem.len();
        let mut i: usize = 0;
        while i < init.len()
            invariant
                i <= init@.len(),
                total == old(store).tables@[self.0 as int].elem@.len(),
                self.0 < store.tables@.len(),
                offset + init@.len() <= old(store).tables@[self.0 as int].elem@.len(),
                forall|j: int| 0 <= j < init@.len() ==> (#[trigger] init@[j]).0 < funcs@.len(),
                store.tables@.len() == old(store).tables@.len(),
                forall|k: int| 0 <= k < store.tables@.len() && k != self.0 ==> store.tables@[k] == old(store).tables@[k],
                store.tables@[self.0 as int].max == old(store).tables@[self.0 as int].max,
                store.tables@[self.0 as int].elem@.len() == old(store).tables@[self.0 as int].elem@.len(),
                store.tables@[self.0 as int].elem@ == overwrite(
                    old(store).tables@[self.0 as int].elem@,
                    offset as int,
                    elem_entries(funcs@, init@.take(i as int)),
                ),
                store.funcs == old(store).funcs,
                store.mems == old(store).mems,
                store.globals == old(store).globals,
                store.modules == old(store).modules,
            decreases init@.len() - i,
        {
            let f = funcs[init[i].0 as usize];
            store.tables[self.0].elem.set(offset + i, Some(f));
            proof {
                let old_elem = old(store).tables@[self.0 as int].elem@;
                assert(overwrite(old_elem, offset as int, elem_entries(funcs@, init@.take(i + 1)))
                    =~= overwrite(old_elem, offset as int, elem_entries(funcs@, init@.take(i as int))).update(
                        offset + i, Some(f)));
            }
            i = i + 1;
        }
        proof {
            assert(init@.take(init@.len() as int) =~= init@);
            assert(store.tables@ =~= old(store).tables@.update(self.0 as int, store.tables@[self.0 as int]));
        }
    }
}

} // verus!
