use turing_machine::{Direction, MachineError, ProgramState, State, Symbol, TransitionRule};

#[test]
fn symbols_have_the_numbers_zero_and_one() {
    assert_eq!(Symbol::Zero.to_number(), 0);
    assert_eq!(Symbol::One.to_number(), 1);
}

#[test]
fn zero_and_one_are_symbols() {
    assert_eq!(Symbol::from_number(0), Ok(Symbol::Zero));
    assert_eq!(Symbol::from_number(1), Ok(Symbol::One));
}

#[test]
fn other_numbers_are_no_symbols() {
    assert_eq!(Symbol::from_number(2), Err(MachineError::InvalidSymbol(2)));
    assert_eq!(Symbol::from_number(255), Err(MachineError::InvalidSymbol(255)));
}

#[test]
fn symbol_conversion_loses_nothing() {
    for symbol in [Symbol::Zero, Symbol::One] {
        assert_eq!(Symbol::from_number(symbol.to_number()), Ok(symbol));
    }
    for number in [0u8, 1u8] {
        assert_eq!(Symbol::from_number(number).unwrap().to_number(), number);
    }
}

#[test]
fn vec_from_numbers_keeps_the_order() {
    let symbols = Symbol::vec_from_numbers(&[1, 1, 0, 1, 0]).unwrap();
    assert_eq!(
        symbols,
        vec![Symbol::One, Symbol::One, Symbol::Zero, Symbol::One, Symbol::Zero]
    );
}

#[test]
fn vec_from_numbers_of_nothing_is_empty() {
    assert_eq!(Symbol::vec_from_numbers(&[]), Ok(vec![]));
}

#[test]
fn vec_from_numbers_reports_the_first_bad_number() {
    assert_eq!(
        Symbol::vec_from_numbers(&[0, 1, 7, 1, 9]),
        Err(MachineError::InvalidSymbol(7))
    );
    assert_eq!(Symbol::vec_from_numbers(&[2]), Err(MachineError::InvalidSymbol(2)));
}

#[test]
fn directions_have_the_displacements_minus_one_zero_one() {
    assert_eq!(Direction::Left.displacement(), -1);
    assert_eq!(Direction::Right.displacement(), 1);
    assert_eq!(Direction::Stay.displacement(), 0);
}

#[test]
fn stay_is_a_direction_of_its_own() {
    assert_ne!(Direction::Stay, Direction::Left);
    assert_ne!(Direction::Stay, Direction::Right);
    assert_ne!(Direction::Left, Direction::Right);
}

#[test]
fn define_makes_a_running_status() {
    assert_eq!(State::define(7), State::ProgramState(ProgramState { id: 7 }));
    assert_ne!(State::define(7), State::define(8));
    assert_ne!(State::define(0), State::Halt);
    assert_ne!(State::Termination, State::Halt);
}

#[test]
fn states_are_equal_when_their_identifiers_are() {
    assert_eq!(ProgramState { id: 3 }, ProgramState { id: 3 });
    assert_ne!(ProgramState { id: 3 }, ProgramState { id: 4 });
}

#[test]
fn new_rule_holds_its_arguments() {
    let from = ProgramState { id: 1 };
    let rule = TransitionRule::new(
        from,
        Symbol::One,
        Symbol::Zero,
        Direction::Right,
        State::define(2),
    );
    assert_eq!(rule.from_state, from);
    assert_eq!(rule.from_symbol, Symbol::One);
    assert_eq!(rule.new_symbol, Symbol::Zero);
    assert_eq!(rule.head_move_dir, Direction::Right);
    assert_eq!(rule.to_state, State::ProgramState(ProgramState { id: 2 }));
}
