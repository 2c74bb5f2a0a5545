use vstd::prelude::*;

verus! {

/// Why the machine could not decode or carry out an instruction.
#[derive(Clone, Copy, Debug, PartialEq, Eq, Structural)]
pub enum Fault {
    /// The word is not in the instruction table.
    Malformed(u16),
    /// The instruction exists but the machine's mode does not offer it.
    Unsupported,
    /// A memory access or program counter update would leave the 64 KiB space.
    AddressOutOfRange,
    /// A return was executed with an empty call stack.
    StackUnderflow,
}

} // verus!
