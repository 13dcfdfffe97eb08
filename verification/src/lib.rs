//! Instantiation of WebAssembly modules: the store that holds function,
//! table, memory and global instances, the import matching that links a
//! module against the values an embedder provides, and the global
//! instances that exported and imported globals share.
pub mod error;
pub mod exec;
pub mod structure;

pub use error::WasmError;
