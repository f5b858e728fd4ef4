//! The transition table: at most one rule for each (state, symbol) pair,
//! found in constant time from the state's identifier and the symbol.

use crate::error::MachineError;
use crate::program::{ProgramStateId, RuleKey, TransitionRule};
use crate::symbol::Symbol;
use std::collections::HashMap;
use vstd::prelude::*;

verus! {

broadcast use vstd::std_specs::hash::group_hash_axioms;

/// The rules of one state: one place for each symbol of the alphabet.
#[derive(Clone, Copy)]
struct RuleSlots {
    on_zero: Option<TransitionRule>,
    on_one: Option<TransitionRule>,
}

impl RuleSlots {
    /// The rule filed for `symbol`, if there is one.
    spec fn slot(self, symbol: Symbol) -> Option<TransitionRule> {
        match symbol {
            Symbol::Zero => self.on_zero,
            Symbol::One => self.on_one,
        }
    }
}

/// The rules of a program, filed by the state they leave and the symbol
/// they read.
pub struct TransitionTable {
    entries: HashMap<ProgramStateId, RuleSlots>,
}

impl View for TransitionTable {
    type V = Map<RuleKey, TransitionRule>;

    /// The table as a map from (state, symbol) to the rule filed there.
    closed spec fn view(&self) -> Map<RuleKey, TransitionRule> {
        Map::new(
            |key: RuleKey|
                self.entries@.contains_key(key.0) && self.entries@[key.0].slot(key.1) is Some,
            |key: RuleKey| self.entries@[key.0].slot(key.1)->0,
        )
    }
}

impl TransitionTable {
    /// Every rule is filed under its own key.
    pub closed spec fn wf(&self) -> bool {
        forall|key: RuleKey| #[trigger] self@.contains_key(key) ==> self@[key].key() == key
    }

    /// A table without rules.
    pub fn new() -> (table: TransitionTable)
        ensures
            table.wf(),
            table@ == Map::<RuleKey, TransitionRule>::empty(),
    {
        let table = TransitionTable { entries: HashMap::new() };
        table
    }

    /// The rule for the state `state_id` reading `symbol`, if one is filed.
    pub fn get(&self, state_id: &ProgramStateId, symbol: &Symbol) -> (rule: Option<&TransitionRule>)
        ensures
            rule == if self@.contains_key((*state_id, *symbol)) {
                Some(&self@[(*state_id, *symbol)])
            } else {
                None
            },
    {
        match self.entries.get(state_id) {
            None => None,
            Some(slots) => match symbol {
                Symbol::Zero => slots.on_zero.as_ref(),
                Symbol::One => slots.on_one.as_ref(),
            },
        }
    }

    /// Files `rule` under its key, which has no rule yet.
    pub(crate) fn file(&mut self, rule: TransitionRule)
        requires
            old(self).wf(),
            !old(self)@.contains_key(rule.key()),
        ensures
            final(self).wf(),
            final(self)@ == old(self)@.insert(rule.key(), rule),
    {
        let id: ProgramStateId = rule.from_state.id;
        let mut slots: RuleSlots = match self.entries.get(&id) {
            Some(found) => *found,
            None => RuleSlots { on_zero: None, on_one: None },
        };
        match rule.from_symbol {
            Symbol::Zero => {
                slots.on_zero = Some(rule);
            },
            Symbol::One => {
                slots.on_one = Some(rule);
            },
        }
        self.entries.insert(id, slots);
        proof {
            assert(self@ =~= old(self)@.insert(rule.key(), rule));
        }
    }

    /// Files `rule` under its key. A key that already has a rule keeps it:
    /// the new rule is refused and the table stays as it was.
    pub fn insert(&mut self, rule: TransitionRule) -> (r: Result<(), MachineError>)
        requires
            old(self).wf(),
        ensures
            final(self).wf(),
            old(self)@.contains_key(rule.key()) ==> r == Err::<(), MachineError>(
                MachineError::DuplicateRule(rule.from_state.id, rule.from_symbol),
            ) && final(self)@ == old(self)@,
            !old(self)@.contains_key(rule.key()) ==> r == Ok::<(), MachineError>(()) && final(self)@
                == old(self)@.insert(rule.key(), rule),
    {
        if self.get(&rule.from_state.id, &rule.from_symbol).is_some() {
            Err(MachineError::DuplicateRule(rule.from_state.id, rule.from_symbol))
        } else {
            self.file(rule);
            Ok(())
        }
    }
}

} // verus!
