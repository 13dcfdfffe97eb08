use vstd::prelude::*;
use crate::error::WasmError;
use crate::exec::store::Store;
use crate::exec::table::overwrite;
use crate::structure::types::{Limits, MemType};

verus! {

/// Size of a memory page in bytes.
pub const PAGE_SIZE: usize = 65536;

/// A memory instance: its bytes and its maximum size in pages.
pub struct MemInst {
    pub data: Vec<u8>,
    pub max: Option<u32>,
}

/// The address of a memory instance in the store.
#[derive(Debug, Clone, Copy, PartialEq, Eq, Structural)]
pub struct MemAddr(pub usize);

impl MemAddr {
    /// Allocates a memory of `type_.0.min` zeroed pages.
    pub fn allocate(store: &mut Store, type_: &MemType) -> (r: MemAddr)
        requires
            type_.0.min as int * PAGE_SIZE as int <= usize::MAX,
        ensures
            r.0 == old(store).mems@.len(),
            r.0 < final(store).mems@.len(),
            final(store).mems@ == old(store).mems@.push(final(store).mems@[r.0 as int]),
            final(store).mems@[r.0 as int].data@ == Seq::new(type_.0.min as nat * PAGE_SIZE as nat, |i: int| 0u8),
            final(store).mems@[r.0 as int].max == type_.0.max,
            final(store).funcs == old(store).funcs,
            final(store).tables == old(store).tables,
            final(store).globals == old(store).globals,
            final(store).modules == old(store).modules,
    {
        let r = MemAddr(store.mems.len());
        let size: usize = type_.0.min as usize * PAGE_SIZE;
        let data: Vec<u8> = vec![0u8; size];
        proof {
            assert(data@ =~= Seq::new(type_.0.min as nat * PAGE_SIZE as nat, |i: int| 0u8));
        }
        store.mems.push(MemInst { data, max: type_.0.max });
        r
    }

    /// The current type of the memory: its size in pages as minimum, and its maximum.
    pub fn type_(&self, store: &Store) -> (r: MemType)
        requires
            self.0 < store.mems@.len(),
        ensures
            r == MemType(
                Limits {
                    min: (store.mems@[self.0 as int].data@.len() / PAGE_SIZE as nat) as u32,
                    max: store.mems@[self.0 as int].max,
                },
            ),
    {
        let m = &store.mems[self.0];
        MemType(Limits { min: (m.data.len() / PAGE_SIZE) as u32, max: m.max })
    }

    /// Whether a data segment of `init` fits at `offset`.
    pub fn instantiation_valid(&self, store: &Store, offset: usize, init: &Vec<u8>) -> (r: Result<(), WasmError>)
        requires
            self.0 < store.mems@.len(),
        ensures
            r is Ok <==> offset + init@.len() <= store.mems@[self.0 as int].data@.len(),
            r matches Err(e) ==> e == WasmError::LinkError,
    {
        let len = store.mems[self.0].data.len();
        if offset <= len && init.len() <= len - offset {
            Ok(())
        } else {
            Err(WasmError::LinkError)
        }
    }

    /// Writes `init` into the memory from `offset` on.
    pub fn init_data(&self, store: &mut Store, offset: usize, init: &Vec<u8>)
        requires
            self.0 < old(store).mems@.len(),
            offset + init@.len() <= old(store).mems@[self.0 as int].data@.len(),
        ensures
            final(store).mems@ == old(store).mems@.update(self.0 as int, final(store).mems@[self.0 as int]),
            final(store).mems@[self.0 as int].data@ == overwrite(
                old(store).mems@[self.0 as int].data@,
                offset as int,
                init@,
            ),
            final(store).mems@[self.0 as int].max == old(store).mems@[self.0 as int].max,
            final(store).funcs == old(store).funcs,
            final(store).tables == old(store).tables,
            final(store).globals == old(store).globals,
            final(store).modules == old(store).modules,
    {
        let total = store.mems[self.0].data.len();
        let mut i: usize = 0;
        while i < init.len()
            invariant
                i <= init@.len(),
                total == old(store).mems@[self.0 as int].data@.len(),
                self.0 < store.mems@.len(),
                offset + init@.len() <= old(store).mems@[self.0 as int].data@.len(),
                store.mems@.len() == old(store).mems@.len(),
                forall|k: int| 0 <= k < store.mems@.len() && k != self.0 ==> store.mems@[k] == old(store).mems@[k],
                store.mems@[self.0 as int].max == old(store).mems@[self.0 as int].max,
                store.mems@[self.0 as int].data@.len() == old(store).mems@[self.0 as int].data@.len(),
                store.mems@[self.0 as int].data@ == overwrite(
                    old(store).mems@[self.0 as int].data@,
                    offset as int,
                    init@.take(i as int),
                ),
                store.funcs == old(store).funcs,
                store.tables == old(store).tables,
                store.globals == old(store).globals,
                store.modules == old(store).modules,
            decreases init@.len() - i,
        {
            let b = init[i];
            store.mems[self.0].data.set(offset + i, b);
            proof {
                let old_data = old(store).mems@[self.0 as int].data@;
                assert(overwrite(old_data, offset as int, init@.take(i + 1))
                    =~= overwrite(old_data, offset as int, init@.take(i as int)).update(offset + i, b));
            }
            i = i + 1;
        }
        proof {
            assert(init@.take(init@.len() as int) =~= init@);
            assert(store.mems@ =~= old(store).mems@.update(self.0 as int, store.mems@[self.0 as int]));
        }
    }
}

} // verus!
