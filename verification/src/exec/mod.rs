pub mod func;
pub mod global;
pub mod instance;
pub mod instantiate;
pub mod laws;
pub mod linking;
pub mod mem;
pub mod names;
pub mod store;
pub mod table;
pub mod val;

pub use func::{FuncAddr, FuncInst};
pub use global::{GlobalAddr, GlobalInst};
pub use instance::{ExportInst, ExternalModule, ExternalVal, ImportObjects, ModuleInst, PendingInst, TypedIdxAccess};
pub use mem::{MemAddr, MemInst};
pub use names::NameMap;
pub use store::Store;
pub use table::{TableAddr, TableInst};
pub use val::Val;
