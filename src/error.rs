use vstd::prelude::*;

verus! {

/// The fatal conditions of the machine. Each one stops the emulated program;
/// the caller decides whether to halt or to reset.
#[derive(Clone, Copy, Debug, PartialEq, Eq, Structural)]
pub enum Chip8Error {
    /// A call was made with all sixteen stack slots in use.
    StackOverflow,
    /// A return was made with an empty call stack.
    StackUnderflow,
    /// The instruction word matches no entry of the decode table.
    UnknownOpcode(u16),
    /// A memory access fell outside `0x000..=0xFFF`.
    AddressOutOfRange,
    /// A program does not fit in the space from `0x200` to the end of memory.
    RomTooLarge,
}

} // verus!
