use vstd::prelude::*;

verus! {

/// Faults a machine can raise at load time or while running.
///
/// Load-time errors (`RomTooLarge`) are reported to the caller and are
/// non-fatal; runtime errors halt the virtual machine instance but never
/// abort the host process.
#[derive(Clone, Copy, Debug, PartialEq, Eq, Structural)]
pub enum EmulatorError {
    /// A memory access outside the configured address space.
    OutOfBounds,
    /// A ROM image that does not fit past the configured load offset.
    RomTooLarge,
    /// A call at the maximum stack depth.
    StackOverflow,
    /// A return with an empty stack.
    StackUnderflow,
    /// A fetched word that matches no opcode pattern.
    UnknownOpcode,
    /// A key identifier outside the sixteen-key range.
    InvalidKey,
}

} // verus!
