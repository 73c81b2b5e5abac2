use vstd::prelude::*;

verus! {

/// The fatal conditions that stop a run.
///
/// A fetch with the program counter outside the executable window raises
/// `InaccessibleMemoryAddress`. `InvalidOpcode` is defensive: the dispatch
/// covers all sixteen instruction families, so it is never raised by this
/// crate. A call with the stack already full raises `StackOverflow`; a
/// return with the stack empty raises `StackUnderflow`. A program image
/// longer than `MAX_ROM_SIZE` bytes is rejected with `OversizedRom` before
/// execution begins.
#[derive(Clone, Copy, Debug, PartialEq, Eq, Structural)]
pub enum ErrorType {
    InaccessibleMemoryAddress,
    InvalidOpcode,
    StackOverflow,
    StackUnderflow,
    OversizedRom,
}

/// A fatal error surfaced to the caller, which terminates the run.
#[derive(Clone, Copy, Debug, PartialEq, Eq, Structural)]
pub struct Error {
    pub error: ErrorType,
}

impl Error {
    pub fn new(e: ErrorType) -> (r: Error)
        ensures
            r.error == e,
    {
        Error { error: e }
    }
}

} // verus!
