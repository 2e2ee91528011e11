//! The faults that stop the machine.
use vstd::prelude::*;

verus! {

/// A fatal condition: the host halts and reports it.
#[allow(inconsistent_fields)]
#[derive(Debug, Clone, Copy, PartialEq, Eq, Structural)]
pub enum Chip8Error {
    /// The program is longer than the space above the program start (`len` bytes).
    RomTooLarge { len: usize },
    /// The word `opcode` at `address` is no instruction.
    UnknownOpcode { address: u16, opcode: u16 },
    /// A call found the stack full, at this depth.
    StackOverflow { depth: usize },
    /// A return found the stack empty, at this depth.
    StackUnderflow { depth: usize },
    /// An access, or a jump, reached outside the address range allowed for it.
    MemoryAccess { address: usize },
}

} // verus!
