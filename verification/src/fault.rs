//! The fatal conditions that stop the machine, and the load-time failure.

use vstd::prelude::*;

verus! {

/// Every way a step of the machine can fail. Each of the first four is fatal:
/// the engine enters its halted state and never resumes. `LoadTooLarge` is
/// reported at load time, before the machine runs.
#[derive(Clone, Copy, Debug, PartialEq, Eq, Structural)]
pub enum Chip8Error {
    /// A memory access reached past the last addressable byte.
    OutOfBounds,
    /// A subroutine call would push the return stack past its fixed depth.
    StackOverflow,
    /// A return was executed with no return address on the stack.
    StackUnderflow,
    /// The fetched word (carried here) decodes to no recognized instruction.
    UnknownInstruction(u16),
    /// The program image does not fit between the load address and the end of
    /// memory.
    LoadTooLarge,
}

} // verus!
