//! The executable machine: tape, head, program and the run loop.

use crate::bit_vec::USIZE_BIT_SIZE;
use crate::error::MachineError;
use crate::model::{
    ids_of, installs, lemma_ids_of_next, lemma_installs_keys, lemma_installs_next, MachineView,
};
use crate::program::{ProgramState, ProgramStateId, RuleKey, State, TransitionRule};
use crate::symbol::{Direction, Symbol};
use crate::table::TransitionTable;
use crate::tape::{blank, overwrite, Tape};
use std::collections::HashMap;
use vstd::prelude::*;

verus! {

broadcast use vstd::std_specs::hash::group_hash_axioms;

/// The number of machine words of the tape of a machine made by `new`.
pub const DEFAULT_TAPE_SIZE: usize = 2;

/// A Turing machine with one tape and one head. It owns its tape and its
/// program; nothing of it is shared.
pub struct TuringMachine {
    tape: Tape,
    head: usize,
    initial_state: Option<ProgramStateId>,
    states: HashMap<ProgramStateId, ProgramState>,
    transition_table: TransitionTable,
}

impl View for TuringMachine {
    type V = MachineView;

    closed spec fn view(&self) -> MachineView {
        MachineView {
            tape: self.tape@,
            head: self.head as int,
            states: self.states@.dom(),
            rules: self.transition_table@,
            initial_state: self.initial_state,
        }
    }
}

impl TuringMachine {
    /// The machine's parts are well formed, each state is registered under
    /// its own identifier, and the machine as a value is well formed.
    pub closed spec fn wf(&self) -> bool {
        &&& self.tape.wf()
        &&& self.transition_table.wf()
        &&& forall|id: ProgramStateId| #[trigger]
            self.states@.contains_key(id) ==> self.states@[id].id == id
        &&& self@.wf()
    }

    /// A well-formed machine is well formed as a value: among other things,
    /// its head is on its tape.
    pub proof fn lemma_view_wf(&self)
        requires
            self.wf(),
        ensures
            self@.wf(),
    {
    }

    /// An empty machine with a tape of `DEFAULT_TAPE_SIZE` words: every cell
    /// holds `Zero`, the head is on the middle of the tape, and there are no
    /// states, no rules and no initial state.
    pub fn new() -> (machine: TuringMachine)
        ensures
            machine.wf(),
            machine@ == (MachineView {
                tape: blank((DEFAULT_TAPE_SIZE * USIZE_BIT_SIZE) as nat),
                head: (DEFAULT_TAPE_SIZE / 2) * USIZE_BIT_SIZE,
                states: Set::empty(),
                rules: Map::empty(),
                initial_state: None,
            }),
    {
        let machine = TuringMachine {
            tape: Tape::zeroed(DEFAULT_TAPE_SIZE),
            initial_state: None,
            head: DEFAULT_TAPE_SIZE / 2 * USIZE_BIT_SIZE,
            states: HashMap::new(),
            transition_table: TransitionTable::new(),
        };
        machine
    }

    /// An empty machine with a tape of `words` machine words and the head on
    /// the middle of the tape. A tape needs at least one word, and a machine
    /// word must be able to count its cells; any other size is refused.
    pub fn with_capacity(words: usize) -> (r: Result<TuringMachine, MachineError>)
        ensures
            match r {
                Ok(machine) => {
                    &&& words >= 1
                    &&& words * USIZE_BIT_SIZE <= usize::MAX
                    &&& machine.wf()
                    &&& machine@ == (MachineView {
                        tape: blank((words * USIZE_BIT_SIZE) as nat),
                        head: (words / 2) * USIZE_BIT_SIZE,
                        states: Set::empty(),
                        rules: Map::empty(),
                        initial_state: None,
                    })
                },
                Err(e) => {
                    &&& e == MachineError::InvalidCapacity
                    &&& (words == 0 || words * USIZE_BIT_SIZE > usize::MAX)
                },
            },
    {
        match Tape::new(words) {
            Err(e) => Err(e),
            Ok(tape) => {
                assert((words / 2) * USIZE_BIT_SIZE < words * USIZE_BIT_SIZE) by (nonlinear_arith)
                    requires
                        words >= 1,
                        USIZE_BIT_SIZE > 0,
                ;
                let machine = TuringMachine {
                    tape,
                    initial_state: None,
                    head: words / 2 * USIZE_BIT_SIZE,
                    states: HashMap::new(),
                    transition_table: TransitionTable::new(),
                };
                Ok(machine)
            },
        }
    }

    /// The index of the cell under the head.
    pub fn head(&self) -> (head: usize)
        ensures
            head == self@.head,
    {
        self.head
    }

    /// The number of cells of the tape.
    pub fn tape_len(&self) -> (cells: usize)
        requires
            self.wf(),
        ensures
            cells == self@.tape.len(),
    {
        self.tape.capacity()
    }

    /// The symbol in the cell at `index`. An index outside the tape is an
    /// addressing fault.
    pub fn get(&self, index: usize) -> (r: Result<Symbol, MachineError>)
        requires
            self.wf(),
        ensures
            r == if index < self@.tape.len() {
                Ok::<Symbol, MachineError>(self@.tape[index as int])
            } else {
                Err(MachineError::AddressingFault)
            },
    {
        self.tape.get(index)
    }

    /// Writes `symbol` to the cell at `index` and changes nothing else. An
    /// index outside the tape is an addressing fault, and nothing is written.
    pub fn set(&mut self, index: usize, symbol: Symbol) -> (r: Result<(), MachineError>)
        requires
            old(self).wf(),
        ensures
            final(self).wf(),
            index < old(self)@.tape.len() ==> r == Ok::<(), MachineError>(()) && final(self)@ == (
            MachineView { tape: old(self)@.tape.update(index as int, symbol), ..old(self)@ }),
            index >= old(self)@.tape.len() ==> r == Err::<(), MachineError>(
                MachineError::AddressingFault,
            ) && final(self)@ == old(self)@,
    {
        self.tape.set(index, symbol)
    }

    /// The symbol in the cell under the head.
    pub fn get_head_value(&self) -> (symbol: Symbol)
        requires
            self.wf(),
        ensures
            symbol == self@.tape[self@.head],
    {
        self.tape.read_cell(self.head)
    }

    /// Writes `value` to the cell under the head and changes nothing else.
    pub fn set_head_value(&mut self, value: Symbol)
        requires
            old(self).wf(),
        ensures
            final(self).wf(),
            final(self)@ == (MachineView {
                tape: old(self)@.tape.update(old(self)@.head, value),
                ..old(self)@
            }),
    {
        self.tape.write_cell(self.head, value);
    }

    /// Moves the head by one cell to the left or to the right, or leaves it
    /// where it is. A move that would take the head off the tape is an
    /// addressing fault, and the head stays where it was.
    pub fn move_head(&mut self, direction: Direction) -> (r: Result<(), MachineError>)
        requires
            old(self).wf(),
        ensures
            final(self).wf(),
            ({
                let target = old(self)@.head + direction.delta();
                if 0 <= target < old(self)@.tape.len() {
                    r == Ok::<(), MachineError>(()) && final(self)@ == (MachineView {
                        head: target,
                        ..old(self)@
                    })
                } else {
                    r == Err::<(), MachineError>(MachineError::AddressingFault) && final(self)@
                        == old(self)@
                }
            }),
    {
        match direction {
            Direction::Stay => Ok(()),
            Direction::Left => {
                if self.head == 0 {
                    Err(MachineError::AddressingFault)
                } else {
                    self.head = self.head - 1;
                    Ok(())
                }
            },
            Direction::Right => {
                let capacity: usize = self.tape.capacity();
                if self.head >= capacity - 1 {
                    Err(MachineError::AddressingFault)
                } else {
                    self.head = self.head + 1;
                    Ok(())
                }
            },
        }
    }

    /// Registers every state of `program_states` under its identifier. A
    /// state that is registered already stays registered.
    pub fn define_states(&mut self, program_states: &Vec<ProgramState>)
        requires
            old(self).wf(),
        ensures
            final(self).wf(),
            final(self)@ == (MachineView {
                states: old(self)@.states.union(ids_of(program_states@)),
                ..old(self)@
            }),
    {
        let mut i: usize = 0;
        assert(self@.states =~= old(self)@.states.union(ids_of(program_states@.take(0))));
        while i < program_states.len()
            invariant
                i <= program_states@.len(),
                self.wf(),
                self@ == (MachineView {
                    states: old(self)@.states.union(ids_of(program_states@.take(i as int))),
                    ..old(self)@
                }),
            decreases program_states@.len() - i,
        {
            let state: ProgramState = program_states[i];
            let ghost entered = self@;
            let ghost registered = self.states@;
            self.states.insert(state.id, state);
            proof {
                assert forall|id: ProgramStateId| #[trigger]
                    self.states@.contains_key(id) implies self.states@[id].id == id by {
                    if id != state.id {
                        assert(registered.contains_key(id));
                    }
                }
                lemma_ids_of_next(program_states@, i as int);
                assert(self@.states =~= old(self)@.states.union(
                    ids_of(program_states@.take(i as int + 1)),
                ));
                entered.lemma_more_states_keep_wf(set![state.id]);
            }
            i += 1;
        }
        assert(program_states@.take(i as int) =~= program_states@);
    }

    /// Makes the registered state `state_id` the state in which a run
    /// starts. An identifier that was never registered is refused, and the
    /// machine stays as it was.
    pub fn set_initial_state(&mut self, state_id: ProgramStateId) -> (r: Result<(), MachineError>)
        requires
            old(self).wf(),
        ensures
            final(self).wf(),
            old(self)@.states.contains(state_id) ==> r == Ok::<(), MachineError>(()) && final(self)@
                == (MachineView { initial_state: Some(state_id), ..old(self)@ }),
            !old(self)@.states.contains(state_id) ==> r == Err::<(), MachineError>(
                MachineError::UndefinedState(state_id),
            ) && final(self)@ == old(self)@,
    {
        if !self.states.contains_key(&state_id) {
            return Err(MachineError::UndefinedState(state_id));
        }
        self.initial_state = Some(state_id);
        Ok(())
    }

    /// The state in which a run starts, once it has been set.
    pub fn initial_state(&self) -> (id: Option<ProgramStateId>)
        ensures
            id == self@.initial_state,
    {
        self.initial_state
    }

    /// Whether a state with the identifier `state_id` is registered.
    pub fn is_defined(&self, state_id: ProgramStateId) -> (defined: bool)
        ensures
            defined == self@.states.contains(state_id),
    {
        self.states.contains_key(&state_id)
    }

    /// The rule for the state `state_id` reading `symbol`, if the program
    /// has one.
    pub fn get_transition_rule(&self, state_id: &ProgramStateId, symbol: &Symbol) -> (rule: Option<
        &TransitionRule,
    >)
        ensures
            rule == if self@.rules.contains_key((*state_id, *symbol)) {
                Some(&self@.rules[(*state_id, *symbol)])
            } else {
                None
            },
    {
        self.transition_table.get(state_id, symbol)
    }

    /// Checks a batch of rules against the machine without installing any.
    /// The rules are taken in order; the first one that leaves a state that
    /// is not registered, or whose (state, symbol) pair already has a rule
    /// in the table or earlier in the batch, is reported.
    pub fn validate_transition_rules(&self, transition_rules: &Vec<TransitionRule>) -> (r: Result<
        (),
        MachineError,
    >)
        requires
            self.wf(),
        ensures
            self@.validates(transition_rules@, r),
    {
        let mut seen = TransitionTable::new();
        let mut i: usize = 0;
        while i < transition_rules.len()
            invariant
                i <= transition_rules@.len(),
                seen.wf(),
                installs(Map::empty(), transition_rules@.take(i as int), seen@),
                forall|j: int| 0 <= j < i ==> self@.rule_fault(transition_rules@, j) is None,
            decreases transition_rules@.len() - i,
        {
            let rule: TransitionRule = transition_rules[i];
            proof {
                lemma_installs_keys(
                    Map::empty(),
                    transition_rules@.take(i as int),
                    seen@,
                    rule.key(),
                );
                if seen@.contains_key(rule.key()) {
                    let earlier = transition_rules@.take(i as int);
                    let j = choose|j: int|
                        0 <= j < earlier.len() && #[trigger] earlier[j].key() == rule.key();
                }
                if exists|j: int| 0 <= j < i && #[trigger] transition_rules@[j].key() == rule.key() {
                    let j = choose|j: int|
                        0 <= j < i && #[trigger] transition_rules@[j].key() == rule.key();
                    assert(transition_rules@.take(i as int)[j].key() == rule.key());
                }
            }
            let fault: Option<MachineError> = if !self.states.contains_key(&rule.from_state.id) {
                Some(MachineError::UndefinedState(rule.from_state.id))
            } else if self.transition_table.get(&rule.from_state.id, &rule.from_symbol).is_some()
                || seen.get(&rule.from_state.id, &rule.from_symbol).is_some() {
                Some(MachineError::DuplicateRule(rule.from_state.id, rule.from_symbol))
            } else {
                None
            };
            let ghost seen_before = seen@;
            match fault {
                Some(e) => {
                    assert(self@.first_fault(transition_rules@, i as int, e));
                    return Err(e);
                },
                None => {
                    seen.file(rule);
                },
            }
            proof {
                lemma_installs_next(Map::empty(), transition_rules@, i as int, seen_before);
            }
            i += 1;
        }
        Ok(())
    }

    /// Installs a batch of rules. The whole batch is validated first, as
    /// `validate_transition_rules` does; if any rule is refused, none is
    /// installed. Otherwise every rule of the batch is filed under its
    /// (state, symbol) pair, and the rules that were installed before stay.
    pub fn define_transition_table(&mut self, transition_rules: &Vec<TransitionRule>) -> (r: Result<
        (),
        MachineError,
    >)
        requires
            old(self).wf(),
        ensures
            final(self).wf(),
            old(self)@.validates(transition_rules@, r),
            r is Ok ==> installs(old(self)@.rules, transition_rules@, final(self)@.rules)
                && final(self)@ == (MachineView { rules: final(self)@.rules, ..old(self)@ }),
            r is Err ==> final(self)@ == old(self)@,
    {
        match self.validate_transition_rules(transition_rules) {
            Err(e) => {
                return Err(e);
            },
            Ok(()) => {},
        }
        let mut i: usize = 0;
        while i < transition_rules.len()
            invariant
                i <= transition_rules@.len(),
                self.wf(),
                old(self)@.wf(),
                forall|j: int|
                    0 <= j < transition_rules@.len() ==> old(self)@.rule_fault(
                        transition_rules@,
                        j,
                    ) is None,
                installs(old(self)@.rules, transition_rules@.take(i as int), self@.rules),
                self@ == (MachineView { rules: self@.rules, ..old(self)@ }),
            decreases transition_rules@.len() - i,
        {
            let rule: TransitionRule = transition_rules[i];
            let ghost filed = self@.rules;
            proof {
                assert(old(self)@.rule_fault(transition_rules@, i as int) is None);
                lemma_installs_keys(
                    old(self)@.rules,
                    transition_rules@.take(i as int),
                    filed,
                    rule.key(),
                );
                if filed.contains_key(rule.key()) {
                    let earlier = transition_rules@.take(i as int);
                    let j = choose|j: int|
                        0 <= j < earlier.len() && #[trigger] earlier[j].key() == rule.key();
                }
            }
            self.transition_table.file(rule);
            proof {
                lemma_installs_next(old(self)@.rules, transition_rules@, i as int, filed);
            }
            i += 1;
        }
        assert(transition_rules@.take(i as int) =~= transition_rules@);
        Ok(())
    }

    /// Lays `cells` out on the tape, the first one under the head, the next
    /// ones to its right; the head does not move. A write that would run
    /// past the end of the tape is refused as a whole, and the machine stays
    /// as it was.
    pub fn write_to_tape(&mut self, cells: &[Symbol]) -> (r: Result<(), MachineError>)
        requires
            old(self).wf(),
        ensures
            final(self).wf(),
            old(self)@.head + cells@.len() <= old(self)@.tape.len() ==> r == Ok::<
                (),
                MachineError,
            >(()) && final(self)@ == (MachineView {
                tape: overwrite(old(self)@.tape, old(self)@.head, cells@),
                ..old(self)@
            }),
            old(self)@.head + cells@.len() > old(self)@.tape.len() ==> r == Err::<
                (),
                MachineError,
            >(MachineError::CapacityExceeded) && final(self)@ == old(self)@,
    {
        self.tape.write(self.head, cells)
    }

    /// Takes one step from the program state `state_id`: reads the symbol
    /// under the head and looks up the rule for the state and that symbol.
    /// Without a rule the machine halts. With one, the rule's symbol is
    /// written under the head, the head moves as the rule says, and the
    /// rule's next status is returned.
    pub fn step(&mut self, state_id: ProgramStateId) -> (r: Result<State, MachineError>)
        requires
            old(self).wf(),
        ensures
            final(self).wf(),
            (final(self)@, r) == old(self)@.step(state_id),
    {
        let current_symbol: Symbol = self.get_head_value();
        let rule: TransitionRule = match self.transition_table.get(&state_id, &current_symbol) {
            None => {
                return Ok(State::Halt);
            },
            Some(found) => *found,
        };
        self.set_head_value(rule.new_symbol);
        match self.move_head(rule.head_move_dir) {
            Ok(()) => Ok(rule.to_state),
            Err(e) => Err(e),
        }
    }

    /// Goes on from the status `status` for up to `max_steps` steps, until
    /// the status is `Termination`, `Halt` or a program state that is not
    /// registered; that status is returned. A fault of a step ends the run
    /// with that fault. If the steps are used up while the machine is still
    /// running, the error names the state it is in, and a later call can go
    /// on from there.
    pub fn resume(&mut self, status: State, max_steps: u64) -> (r: Result<State, MachineError>)
        requires
            old(self).wf(),
        ensures
            final(self).wf(),
            (final(self)@, r) == old(self)@.run_from(status, max_steps as nat),
    {
        let mut current_state: State = status;
        let mut steps_left: u64 = max_steps;
        loop
            invariant
                self.wf(),
                self@.run_from(current_state, steps_left as nat) == old(self)@.run_from(
                    status,
                    max_steps as nat,
                ),
            decreases steps_left,
        {
            match current_state {
                State::ProgramState(ProgramState { id: state_id }) => {
                    if !self.states.contains_key(&state_id) {
                        return Ok(current_state);
                    }
                    if steps_left == 0 {
                        return Err(MachineError::StepBudgetExhausted(state_id));
                    }
                    match self.step(state_id) {
                        Ok(reached) => {
                            current_state = reached;
                        },
                        Err(e) => {
                            return Err(e);
                        },
                    }
                    steps_left = steps_left - 1;
                },
                state => {
                    return Ok(state);
                },
            }
        }
    }

    /// Runs the program from the initial state for up to `max_steps` steps.
    /// Without an initial state the run is refused before any step, and the
    /// machine stays as it was.
    pub fn run_for(&mut self, max_steps: u64) -> (r: Result<State, MachineError>)
        requires
            old(self).wf(),
        ensures
            final(self).wf(),
            (final(self)@, r) == old(self)@.run(max_steps as nat),
    {
        match self.initial_state {
            None => Err(MachineError::InitialStateNotSet),
            Some(id) => self.resume(State::ProgramState(ProgramState { id }), max_steps),
        }
    }

    /// Runs the program from the initial state until it stops. The run has
    /// no budget of its own: it counts its steps in a `u64` and gives up only
    /// when that counter is used up.
    pub fn run(&mut self) -> (r: Result<State, MachineError>)
        requires
            old(self).wf(),
        ensures
            final(self).wf(),
            (final(self)@, r) == old(self)@.run(u64::MAX as nat),
    {
        self.run_for(u64::MAX)
    }
}

} // verus!
