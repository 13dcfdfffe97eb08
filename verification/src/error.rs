use vstd::prelude::*;

verus! {

/// Errors that instantiation can report.
#[derive(Debug, Clone, Copy, PartialEq, Eq, Structural)]
pub enum WasmError {
    /// An import is missing or does not match, or a segment does not fit.
    LinkError,
}

} // verus!
