//! The conditions under which fetching, decoding or executing an
//! instruction fails.

use vstd::prelude::*;

verus! {

/// Why a simulation step could not be carried out. Every failure is an
/// ordinary value handed back to the caller, who decides whether to halt,
/// skip or trap.
#[derive(Clone, Debug, PartialEq, Eq)]
pub enum SimError {
    /// The bit pattern is permanently invalid in the architecture.
    IllegalInstruction,
    /// The bit pattern is set aside by the architecture for later use.
    ReservedEncoding,
    /// The bit pattern is a valid instruction that this simulator does not model.
    UnimplementedInstruction,
    /// The instruction is longer than four bytes.
    UnsupportedLength,
    /// An accessed address has no byte mapped to it.
    UnmappedMemory,
    /// The executable image handed to the loader could not be parsed.
    ParseError(String),
    /// Any other failure, with a message that describes it.
    SimError(String),
}

impl SimError {
    /// Wraps a message as a general simulation failure.
    pub fn from(e: String) -> (r: SimError)
        ensures
            r == SimError::SimError(e),
    {
        SimError::SimError(e)
    }
}

/// The result of an operation that can fail with a [`SimError`].
pub type SimResult<T> = Result<T, SimError>;

} // verus!
