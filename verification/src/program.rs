//! States and transition rules: the vocabulary in which a program is written.

use crate::symbol::{Direction, Symbol};
use vstd::prelude::*;

verus! {

/// The identifier that a caller gives to a state of its program.
pub type ProgramStateId = u32;

/// A state of the program. Two states are the same state when their
/// identifiers are equal.
#[derive(Clone, Copy, Debug, PartialEq, Eq, Hash, Structural)]
pub struct ProgramState {
    pub id: ProgramStateId,
}

/// The status of the machine: running in a state of the program, or stopped.
#[derive(Clone, Copy, Debug, PartialEq, Eq, Structural)]
pub enum State {
    /// The machine is in the given state of the program.
    ProgramState(ProgramState),
    /// The program declared that it is done.
    Termination,
    /// The machine stopped; the engine reports this when no rule applies.
    Halt,
}

impl State {
    /// The status of a machine that is in the program state `id`.
    pub fn define(id: ProgramStateId) -> (s: State)
        ensures
            s == State::ProgramState(ProgramState { id }),
    {
        State::ProgramState(ProgramState { id })
    }
}

/// The key under which a rule is filed: the state it leaves and the symbol
/// it reads.
pub type RuleKey = (ProgramStateId, Symbol);

/// One rule of the program: in state `from_state`, reading `from_symbol`,
/// write `new_symbol`, move the head by `head_move_dir` and go on in
/// `to_state`.
#[derive(Clone, Copy, Debug, PartialEq, Eq, Structural)]
pub struct TransitionRule {
    pub from_state: ProgramState,
    pub from_symbol: Symbol,
    pub to_state: State,
    pub new_symbol: Symbol,
    pub head_move_dir: Direction,
}

impl TransitionRule {
    pub fn new(
        from_state: ProgramState,
        from_symbol: Symbol,
        new_symbol: Symbol,
        head_move_dir: Direction,
        to_state: State,
    ) -> (rule: TransitionRule)
        ensures
            rule == (TransitionRule { from_state, from_symbol, to_state, new_symbol, head_move_dir }),
    {
        TransitionRule { from_state, from_symbol, new_symbol, head_move_dir, to_state }
    }

    /// The (state, symbol) pair that the rule applies to.
    pub open spec fn key(self) -> RuleKey {
        (self.from_state.id, self.from_symbol)
    }
}

} // verus!
