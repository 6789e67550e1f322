//! The fatal conditions a running machine can report.

use vstd::prelude::*;

verus! {

/// Every way a loaded program can fail: an instruction word that decodes to
/// nothing, a ROM too large for program memory, call-stack misuse, the
/// unimplemented system-call instruction, and a memory access past the
/// 4096-byte extent.
#[derive(Debug, Clone, Copy, PartialEq, Eq, Structural)]
pub enum Chip8Error {
    /// Decode failure; carries the raw instruction word.
    UnrecognizedOpcode(u16),
    /// ROM larger than the memory left above the program start; carries the ROM length.
    CapacityExceeded(usize),
    /// A call when the stack already holds 16 return addresses.
    StackOverflow,
    /// A return with an empty call stack.
    StackUnderflow,
    /// The system-call instruction, which this hardware profile does not implement;
    /// carries the target address.
    UnsupportedSystemCall(u16),
    /// A memory access outside the 4096-byte extent; carries the address.
    OutOfBoundsAccess(u16),
}

} // verus!
