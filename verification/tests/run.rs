use turing_machine::bit_vec::USIZE_BIT_SIZE;
use turing_machine::{
    Direction, MachineError, ProgramState, State, Symbol, TransitionRule, TuringMachine,
};

fn tape_of(machine: &TuringMachine) -> Vec<Symbol> {
    (0..machine.tape_len()).map(|i| machine.get(i).unwrap()).collect()
}

fn rule(from: u32, read: u8, write: u8, dir: Direction, to: State) -> TransitionRule {
    TransitionRule::new(
        ProgramState { id: from },
        Symbol::from_number(read).unwrap(),
        Symbol::from_number(write).unwrap(),
        dir,
        to,
    )
}

fn successor_machine() -> TuringMachine {
    let mut machine = TuringMachine::new();
    let q1 = ProgramState { id: 1 };
    let q2 = ProgramState { id: 2 };
    let q3 = ProgramState { id: 3 };
    let q4 = ProgramState { id: 4 };
    machine.define_states(&vec![q1, q2, q3, q4]);
    machine.set_initial_state(q1.id).unwrap();
    machine
        .define_transition_table(&vec![
            rule(1, 0, 0, Direction::Stay, State::Termination),
            rule(1, 1, 0, Direction::Right, State::ProgramState(q2)),
            rule(2, 0, 1, Direction::Left, State::ProgramState(q3)),
            rule(2, 1, 1, Direction::Right, State::ProgramState(q2)),
            rule(3, 0, 0, Direction::Right, State::ProgramState(q4)),
            rule(3, 1, 1, Direction::Left, State::ProgramState(q3)),
            rule(4, 0, 0, Direction::Stay, State::Halt),
            rule(4, 1, 0, Direction::Right, State::Termination),
        ])
        .unwrap();
    machine
        .write_to_tape(&Symbol::vec_from_numbers(&[1, 1, 1, 1, 0, 1, 1, 1]).unwrap())
        .unwrap();
    machine
}

fn successor_result(start: usize, cells: usize) -> Vec<Symbol> {
    let mut expected = vec![Symbol::Zero; cells];
    let written = Symbol::vec_from_numbers(&[0, 0, 1, 1, 1, 1, 1, 1]).unwrap();
    expected[start..start + 8].copy_from_slice(&written);
    expected
}

fn looping_machine() -> TuringMachine {
    let mut machine = TuringMachine::new();
    machine.define_states(&vec![ProgramState { id: 1 }]);
    machine.set_initial_state(1).unwrap();
    machine
        .define_transition_table(&vec![rule(1, 0, 0, Direction::Stay, State::define(1))])
        .unwrap();
    machine
}

#[test]
fn successor_program_terminates_with_the_traced_tape() {
    let mut machine = successor_machine();
    let start = machine.head();
    assert_eq!(machine.run(), Ok(State::Termination));
    assert_eq!(tape_of(&machine), successor_result(start, 2 * USIZE_BIT_SIZE));
    assert_eq!(machine.head(), start + 2);
}

#[test]
fn successor_program_takes_ten_steps() {
    let mut machine = successor_machine();
    assert_eq!(machine.run_for(10), Ok(State::Termination));
    let mut short = successor_machine();
    assert_eq!(short.run_for(9), Err(MachineError::StepBudgetExhausted(4)));
}

#[test]
fn successor_program_step_by_step() {
    let mut machine = successor_machine();
    let start = machine.head();
    assert_eq!(machine.step(1), Ok(State::define(2)));
    assert_eq!(machine.head(), start + 1);
    assert_eq!(machine.get(start), Ok(Symbol::Zero));
    assert_eq!(machine.step(2), Ok(State::define(2)));
    assert_eq!(machine.step(2), Ok(State::define(2)));
    assert_eq!(machine.step(2), Ok(State::define(2)));
    assert_eq!(machine.head(), start + 4);
    assert_eq!(machine.step(2), Ok(State::define(3)));
    assert_eq!(machine.get(start + 4), Ok(Symbol::One));
    assert_eq!(machine.head(), start + 3);
    assert_eq!(machine.step(3), Ok(State::define(3)));
    assert_eq!(machine.step(3), Ok(State::define(3)));
    assert_eq!(machine.step(3), Ok(State::define(3)));
    assert_eq!(machine.head(), start);
    assert_eq!(machine.step(3), Ok(State::define(4)));
    assert_eq!(machine.head(), start + 1);
    assert_eq!(machine.step(4), Ok(State::Termination));
    assert_eq!(machine.head(), start + 2);
    assert_eq!(tape_of(&machine), successor_result(start, 2 * USIZE_BIT_SIZE));
}

#[test]
fn machine_without_rules_halts_on_the_first_step() {
    let mut machine = TuringMachine::new();
    machine.define_states(&vec![ProgramState { id: 1 }]);
    machine.set_initial_state(1).unwrap();
    let head = machine.head();
    assert_eq!(machine.run(), Ok(State::Halt));
    assert_eq!(machine.head(), head);
    assert_eq!(tape_of(&machine), vec![Symbol::Zero; 2 * USIZE_BIT_SIZE]);
    assert_eq!(machine.run_for(1), Ok(State::Halt));
}

#[test]
fn machine_without_a_rule_for_the_symbol_halts() {
    let mut machine = TuringMachine::new();
    machine.define_states(&vec![ProgramState { id: 1 }]);
    machine.set_initial_state(1).unwrap();
    machine
        .define_transition_table(&vec![rule(1, 0, 1, Direction::Right, State::Termination)])
        .unwrap();
    machine.write_to_tape(&[Symbol::One]).unwrap();
    let before = tape_of(&machine);
    assert_eq!(machine.run(), Ok(State::Halt));
    assert_eq!(tape_of(&machine), before);
}

#[test]
fn run_before_set_initial_state_fails_and_keeps_the_tape() {
    let mut machine = TuringMachine::new();
    machine.define_states(&vec![ProgramState { id: 1 }]);
    machine
        .define_transition_table(&vec![rule(1, 1, 0, Direction::Right, State::define(1))])
        .unwrap();
    machine
        .write_to_tape(&Symbol::vec_from_numbers(&[1, 0, 1]).unwrap())
        .unwrap();
    let before = tape_of(&machine);
    let head = machine.head();
    assert_eq!(machine.run(), Err(MachineError::InitialStateNotSet));
    assert_eq!(tape_of(&machine), before);
    assert_eq!(machine.head(), head);
    assert_eq!(machine.run_for(0), Err(MachineError::InitialStateNotSet));
}

#[test]
fn two_runs_of_the_same_configuration_agree() {
    let mut first = successor_machine();
    let mut second = successor_machine();
    let first_status = first.run();
    let second_status = second.run();
    assert_eq!(first_status, second_status);
    assert_eq!(tape_of(&first), tape_of(&second));
    assert_eq!(first.head(), second.head());
}

#[test]
fn rule_into_an_unregistered_state_stops_the_run_with_that_state() {
    let mut machine = TuringMachine::new();
    machine.define_states(&vec![ProgramState { id: 1 }]);
    machine.set_initial_state(1).unwrap();
    machine
        .define_transition_table(&vec![rule(1, 0, 1, Direction::Right, State::define(9))])
        .unwrap();
    let head = machine.head();
    assert_eq!(
        machine.run(),
        Ok(State::ProgramState(ProgramState { id: 9 }))
    );
    assert_eq!(machine.get(head), Ok(Symbol::One));
    assert_eq!(machine.head(), head + 1);
}

#[test]
fn rule_may_name_halt_as_its_next_status() {
    let mut machine = TuringMachine::new();
    machine.define_states(&vec![ProgramState { id: 1 }]);
    machine.set_initial_state(1).unwrap();
    machine
        .define_transition_table(&vec![rule(1, 0, 1, Direction::Left, State::Halt)])
        .unwrap();
    let head = machine.head();
    assert_eq!(machine.run(), Ok(State::Halt));
    assert_eq!(machine.get(head), Ok(Symbol::One));
    assert_eq!(machine.head(), head - 1);
}

#[test]
fn running_off_the_right_end_is_an_addressing_fault() {
    let mut machine = TuringMachine::with_capacity(1).unwrap();
    machine.define_states(&vec![ProgramState { id: 1 }]);
    machine.set_initial_state(1).unwrap();
    machine
        .define_transition_table(&vec![rule(1, 0, 1, Direction::Right, State::define(1))])
        .unwrap();
    assert_eq!(machine.run(), Err(MachineError::AddressingFault));
    assert_eq!(machine.head(), USIZE_BIT_SIZE - 1);
    assert_eq!(tape_of(&machine), vec![Symbol::One; USIZE_BIT_SIZE]);
}

#[test]
fn running_off_the_left_end_is_an_addressing_fault() {
    let mut machine = TuringMachine::with_capacity(1).unwrap();
    machine.define_states(&vec![ProgramState { id: 1 }]);
    machine.set_initial_state(1).unwrap();
    machine
        .define_transition_table(&vec![rule(1, 0, 1, Direction::Left, State::Termination)])
        .unwrap();
    assert_eq!(machine.step(1), Err(MachineError::AddressingFault));
    assert_eq!(machine.head(), 0);
    assert_eq!(machine.get(0), Ok(Symbol::One));
}

#[test]
fn step_without_a_rule_halts_and_changes_nothing() {
    let mut machine = TuringMachine::new();
    machine.define_states(&vec![ProgramState { id: 1 }]);
    let head = machine.head();
    assert_eq!(machine.step(1), Ok(State::Halt));
    assert_eq!(machine.step(77), Ok(State::Halt));
    assert_eq!(machine.head(), head);
    assert_eq!(tape_of(&machine), vec![Symbol::Zero; 2 * USIZE_BIT_SIZE]);
}

#[test]
fn step_budget_stops_a_machine_that_loops() {
    let mut machine = looping_machine();
    assert_eq!(machine.run_for(5), Err(MachineError::StepBudgetExhausted(1)));
    assert_eq!(machine.run_for(0), Err(MachineError::StepBudgetExhausted(1)));
    assert_eq!(tape_of(&machine), vec![Symbol::Zero; 2 * USIZE_BIT_SIZE]);
}

#[test]
fn resume_goes_on_where_the_budget_ran_out() {
    let mut machine = successor_machine();
    let start = machine.head();
    assert_eq!(machine.run_for(4), Err(MachineError::StepBudgetExhausted(2)));
    assert_eq!(machine.head(), start + 4);
    assert_eq!(machine.resume(State::define(2), 3), Err(MachineError::StepBudgetExhausted(3)));
    assert_eq!(machine.resume(State::define(3), 100), Ok(State::Termination));
    assert_eq!(tape_of(&machine), successor_result(start, 2 * USIZE_BIT_SIZE));
    assert_eq!(machine.head(), start + 2);
}

#[test]
fn resume_from_a_stopped_status_does_nothing() {
    let mut machine = successor_machine();
    let before = tape_of(&machine);
    assert_eq!(machine.resume(State::Halt, 10), Ok(State::Halt));
    assert_eq!(machine.resume(State::Termination, 0), Ok(State::Termination));
    assert_eq!(machine.resume(State::define(42), 10), Ok(State::define(42)));
    assert_eq!(tape_of(&machine), before);
}

#[test]
fn larger_budget_gives_the_same_run() {
    let mut exact = successor_machine();
    let mut generous = successor_machine();
    assert_eq!(exact.run_for(10), generous.run_for(1_000_000));
    assert_eq!(tape_of(&exact), tape_of(&generous));
    assert_eq!(exact.head(), generous.head());
}
