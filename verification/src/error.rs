use vstd::prelude::*;

verus! {

/// The failure taxonomy of the hooking engine.
///
/// All planning, building and patching failures are surfaced to the caller
/// as a typed result; none is silently downgraded to a default behavior.
#[derive(Clone, Copy, Debug, PartialEq, Eq, Structural)]
pub enum Error {
    /// The decoder met a byte pattern outside the supported subset.
    UnsupportedInstruction,
    /// A relocation or patch strategy would exceed the architecture's
    /// addressable range.
    UnsupportedBranchDisplacement,
    /// The platform denied a memory-protection change.
    MemoryProtection,
    /// A static slot was initialized a second time.
    AlreadyInitialized,
    /// A lifecycle operation was attempted on an uninitialized static slot.
    NotInitialized,
}

} // verus!
