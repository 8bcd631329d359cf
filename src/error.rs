use vstd::prelude::*;

verus! {

/// Why an instruction step or a status-register query could not proceed.
#[derive(PartialEq, Eq, Structural, Debug, Clone, Copy)]
pub enum CpuError {
    /// The word matches none of the instruction categories.
    UnrecognizedInstruction(u32),
    /// The word is recognized but its operation is not implemented.
    UnsupportedOperation(u32),
    /// The mode field of a status register (the value given) encodes no privilege mode.
    InvalidMode(u32),
}

} // verus!
