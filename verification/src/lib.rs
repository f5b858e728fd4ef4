//! A single-tape, single-head Turing machine over a binary alphabet.
//!
//! A program is a set of states and one transition rule per (state, symbol)
//! pair. The tape has a capacity fixed at construction and is stored one bit
//! per cell. A run starts in the initial state and applies rules until the
//! program terminates, no rule applies, or a rule names a state that was
//! never registered.

pub mod bit_vec;
pub mod error;
pub mod machine;
pub mod model;
pub mod program;
pub mod symbol;
pub mod table;
pub mod tape;

pub use crate::error::MachineError;
pub use crate::machine::TuringMachine;
pub use crate::model::MachineView;
pub use crate::program::{ProgramState, ProgramStateId, RuleKey, State, TransitionRule};
pub use crate::symbol::{Direction, Symbol};
pub use crate::table::TransitionTable;
pub use crate::tape::Tape;
