//! How a boot stage ends: it either lets the next stage proceed or brings
//! the machine to a halt, and in the latter case says why.

use vstd::prelude::*;

verus! {

/// Why the machine was halted.
#[derive(Debug, Clone, Copy, PartialEq, Eq, Structural)]
pub enum HaltReason {
    /// The magic field of the kernel image is not the executable signature.
    BadMagic,
    /// The kernel's entry routine returned instead of running forever.
    EntryReturned,
    /// The panic handler was reached.
    Panic,
}

/// Result of a boot step.
#[derive(Debug, Clone, Copy, PartialEq, Eq, Structural)]
pub enum Outcome {
    /// Proceed to the next boot state.
    Continue,
    /// Enter the unrecoverable spin, interrupts still disabled.
    Halt(HaltReason),
}

/// The panic handler of both boot stages: there is nothing to report to, so
/// the machine is halted.
pub fn panic() -> (outcome: Outcome)
    ensures
        outcome == Outcome::Halt(HaltReason::Panic),
{
    Outcome::Halt(HaltReason::Panic)
}

} // verus!
