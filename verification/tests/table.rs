use turing_machine::{
    Direction, MachineError, ProgramState, State, Symbol, TransitionRule, TransitionTable,
};

fn table_rule(from: u32, read: Symbol, write: Symbol) -> TransitionRule {
    TransitionRule::new(
        ProgramState { id: from },
        read,
        write,
        Direction::Right,
        State::Termination,
    )
}

#[test]
fn new_table_has_no_rules() {
    let table = TransitionTable::new();
    assert_eq!(table.get(&1, &Symbol::Zero), None);
    assert_eq!(table.get(&1, &Symbol::One), None);
}

#[test]
fn inserted_rule_is_found_under_its_key() {
    let mut table = TransitionTable::new();
    let rule = table_rule(4, Symbol::One, Symbol::Zero);
    assert_eq!(table.insert(rule), Ok(()));
    assert_eq!(table.get(&4, &Symbol::One), Some(&rule));
    assert_eq!(table.get(&4, &Symbol::Zero), None);
    assert_eq!(table.get(&5, &Symbol::One), None);
}

#[test]
fn a_state_may_have_a_rule_for_each_symbol() {
    let mut table = TransitionTable::new();
    let on_zero = table_rule(1, Symbol::Zero, Symbol::One);
    let on_one = table_rule(1, Symbol::One, Symbol::One);
    assert_eq!(table.insert(on_zero), Ok(()));
    assert_eq!(table.insert(on_one), Ok(()));
    assert_eq!(table.get(&1, &Symbol::Zero), Some(&on_zero));
    assert_eq!(table.get(&1, &Symbol::One), Some(&on_one));
}

#[test]
fn second_rule_for_a_key_is_refused_and_the_first_stays() {
    let mut table = TransitionTable::new();
    let first = table_rule(1, Symbol::Zero, Symbol::One);
    let second = table_rule(1, Symbol::Zero, Symbol::Zero);
    assert_eq!(table.insert(first), Ok(()));
    assert_eq!(
        table.insert(second),
        Err(MachineError::DuplicateRule(1, Symbol::Zero))
    );
    assert_eq!(table.get(&1, &Symbol::Zero), Some(&first));
}
