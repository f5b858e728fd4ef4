//! The failures that the machine reports to its caller.

use crate::program::ProgramStateId;
use crate::symbol::Symbol;
use vstd::prelude::*;

verus! {

/// Why an operation on the machine was refused. Every failure is returned to
/// the immediate caller; nothing is retried and nothing is half done unless
/// the operation's contract says so.
#[derive(Clone, Copy, Debug, PartialEq, Eq, Structural)]
pub enum MachineError {
    /// A number other than 0 or 1 was offered as a tape symbol.
    InvalidSymbol(u8),
    /// A state identifier was used that was never registered.
    UndefinedState(ProgramStateId),
    /// A second rule was offered for a (state, symbol) pair that has one.
    DuplicateRule(ProgramStateId, Symbol),
    /// A run was asked for before an initial state was set.
    InitialStateNotSet,
    /// The head or an explicit index would lie outside the tape.
    AddressingFault,
    /// A bulk write does not fit between its origin and the end of the tape.
    CapacityExceeded,
    /// A tape was asked for with no word at all, or with more cells than a
    /// machine word can count.
    InvalidCapacity,
    /// The step budget ran out while the machine was still running in the
    /// given state.
    StepBudgetExhausted(ProgramStateId),
}

} // verus!
