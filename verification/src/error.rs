use vstd::prelude::*;

verus! {

/// `std::io::Error` carried by [`VmError::Io`]; its contents are never inspected here.
#[verifier::external_type_specification]
#[verifier::external_body]
pub struct ExIoError(std::io::Error);

/// Errors raised while loading or running a program.
#[derive(Debug)]
pub enum VmError {
    /// An input or output operation of a trap routine failed.
    Io(std::io::Error),
    /// A register number outside `0..=7`.
    InvalidRegister(u16),
    /// A trap vector outside `0x20..=0x25`.
    InvalidTrapVector(u8),
    /// An access past the end of memory.
    MemoryOutOfBounds(u16),
    /// An instruction that cannot be executed.
    InvalidInstruction(u16),
    /// An image that is too short, or whose byte length is odd.
    ImageTooShort,
    /// An image that does not fit in memory from its start address on.
    StartAddressOutOfBounds(u16),
}

/// Result of the machine's operations.
pub type Result<T> = std::result::Result<T, VmError>;

} // verus!
