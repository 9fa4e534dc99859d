use vstd::prelude::*;

verus! {

/// Conditions that stop an instruction from completing.
#[derive(Debug, Clone, Copy, PartialEq, Eq, Structural)]
pub enum Chip8Error {
    /// A program image too large for memory, or an address derived from an
    /// instruction that falls outside memory or the key matrix.
    OutOfBounds,
    /// A call with all sixteen return slots in use.
    StackOverflow,
    /// A return with no return address on the stack.
    StackUnderflow,
    /// An instruction word outside the instruction set.
    UnknownInstruction(u16),
}

} // verus!
