//! The machine as a mathematical value, and what a step and a run do to it.
//!
//! Everything the executable machine does is stated over `MachineView`: the
//! tape as a sequence of symbols, the head as an index into it, the
//! registered states as a set and the transition table as a map.

use crate::error::MachineError;
use crate::program::{ProgramState, ProgramStateId, RuleKey, State, TransitionRule};
use crate::symbol::Symbol;
use vstd::prelude::*;

verus! {

/// The machine, seen as a value.
pub struct MachineView {
    /// The cells of the tape, in tape order.
    pub tape: Seq<Symbol>,
    /// The index of the cell under the head.
    pub head: int,
    /// The identifiers of the registered states.
    pub states: Set<ProgramStateId>,
    /// The rule filed for each (state, symbol) pair that has one.
    pub rules: Map<RuleKey, TransitionRule>,
    /// The state in which a run starts, once it has been set.
    pub initial_state: Option<ProgramStateId>,
}

/// The identifiers of the states in `states`.
pub open spec fn ids_of(states: Seq<ProgramState>) -> Set<ProgramStateId> {
    Set::new(|id: ProgramStateId| exists|i: int| 0 <= i < states.len() && #[trigger] states[i].id == id)
}

/// `after` is `before` with every rule of `batch` filed under its key, and
/// nothing else changed.
pub open spec fn installs(
    before: Map<RuleKey, TransitionRule>,
    batch: Seq<TransitionRule>,
    after: Map<RuleKey, TransitionRule>,
) -> bool {
    &&& forall|i: int|
        0 <= i < batch.len() ==> after.contains_key(#[trigger] batch[i].key()) && after[batch[i].key()]
            == batch[i]
    &&& forall|key: RuleKey| #[trigger]
        before.contains_key(key) ==> after.contains_key(key) && after[key] == before[key]
    &&& forall|key: RuleKey| #[trigger]
        after.contains_key(key) ==> before.contains_key(key) || exists|i: int|
            0 <= i < batch.len() && #[trigger] batch[i].key() == key
}

impl MachineView {
    /// The head is on the tape, the initial state is registered, and every
    /// rule is filed under its own key and leaves a registered state.
    pub open spec fn wf(self) -> bool {
        &&& 0 <= self.head < self.tape.len()
        &&& self.initial_state matches Some(id) ==> self.states.contains(id)
        &&& forall|key: RuleKey| #[trigger]
            self.rules.contains_key(key) ==> self.states.contains(key.0) && self.rules[key].key()
                == key
    }

    /// Why the rule at position `i` of `batch` cannot be installed, if it
    /// cannot: it leaves a state that is not registered, or its key already
    /// has a rule, in the table or earlier in the batch.
    pub open spec fn rule_fault(self, batch: Seq<TransitionRule>, i: int) -> Option<MachineError> {
        let rule = batch[i];
        if !self.states.contains(rule.from_state.id) {
            Some(MachineError::UndefinedState(rule.from_state.id))
        } else if self.rules.contains_key(rule.key()) || exists|j: int|
            0 <= j < i && #[trigger] batch[j].key() == rule.key() {
            Some(MachineError::DuplicateRule(rule.from_state.id, rule.from_symbol))
        } else {
            None
        }
    }

    /// The rule at position `k` of `batch` is the first one that cannot be
    /// installed, and `e` says why.
    pub open spec fn first_fault(self, batch: Seq<TransitionRule>, k: int, e: MachineError) -> bool {
        &&& 0 <= k < batch.len()
        &&& self.rule_fault(batch, k) == Some(e)
        &&& forall|j: int| 0 <= j < k ==> self.rule_fault(batch, j) is None
    }

    /// What validating `batch` answers: the fault of the first rule that has
    /// one, or success when no rule has one.
    pub open spec fn validates(self, batch: Seq<TransitionRule>, r: Result<(), MachineError>) -> bool {
        match r {
            Ok(()) => forall|i: int| 0 <= i < batch.len() ==> self.rule_fault(batch, i) is None,
            Err(e) => exists|k: int| self.first_fault(batch, k, e),
        }
    }

    /// Whether a machine with status `status` goes on: it is in a state of
    /// the program, and that state is registered.
    pub open spec fn is_running(self, status: State) -> bool {
        status matches State::ProgramState(p) && self.states.contains(p.id)
    }

    /// One step from the program state `state`. With no rule for the state
    /// and the symbol under the head, the machine halts and nothing changes.
    /// Otherwise the rule's symbol is written under the head, the head moves
    /// as the rule says, and the rule's next status is the result. A move
    /// that would take the head off the tape is an addressing fault: the
    /// symbol has been written and the head stays where it was.
    pub open spec fn step(self, state: ProgramStateId) -> (MachineView, Result<State, MachineError>) {
        let key = (state, self.tape[self.head]);
        if !self.rules.contains_key(key) {
            (self, Ok(State::Halt))
        } else {
            let rule = self.rules[key];
            let written = MachineView { tape: self.tape.update(self.head, rule.new_symbol), ..self };
            let target = self.head + rule.head_move_dir.delta();
            if 0 <= target < self.tape.len() {
                (MachineView { head: target, ..written }, Ok(rule.to_state))
            } else {
                (written, Err(MachineError::AddressingFault))
            }
        }
    }

    /// A run from the status `status` that may take up to `budget` steps.
    /// The run stops with the status it has reached as soon as that status
    /// is `Termination`, `Halt` or a program state that is not registered.
    /// It stops with an error when a step faults, or when the budget is used
    /// up while the machine is still running.
    pub open spec fn run_from(self, status: State, budget: nat) -> (
        MachineView,
        Result<State, MachineError>,
    )
        decreases budget,
    {
        match status {
            State::ProgramState(p) => {
                if !self.states.contains(p.id) {
                    (self, Ok(status))
                } else if budget == 0 {
                    (self, Err(MachineError::StepBudgetExhausted(p.id)))
                } else {
                    let (next, r) = self.step(p.id);
                    match r {
                        Ok(reached) => next.run_from(reached, (budget - 1) as nat),
                        Err(e) => (next, Err(e)),
                    }
                }
            },
            _ => (self, Ok(status)),
        }
    }

    /// A run from the initial state that may take up to `budget` steps.
    /// Without an initial state nothing is done.
    pub open spec fn run(self, budget: nat) -> (MachineView, Result<State, MachineError>) {
        match self.initial_state {
            None => (self, Err(MachineError::InitialStateNotSet)),
            Some(id) => self.run_from(State::ProgramState(ProgramState { id }), budget),
        }
    }
}

/// The identifiers of the first `i + 1` states are those of the first `i`
/// states and that of the state at position `i`.
pub proof fn lemma_ids_of_next(states: Seq<ProgramState>, i: int)
    requires
        0 <= i < states.len(),
    ensures
        ids_of(states.take(i + 1)) == ids_of(states.take(i)).insert(states[i].id),
{
    let shorter = states.take(i);
    let longer = states.take(i + 1);
    assert forall|id: ProgramStateId|
        ids_of(longer).contains(id) <==> ids_of(shorter).insert(states[i].id).contains(id) by {
        if ids_of(shorter).contains(id) {
            let k = choose|k: int| 0 <= k < shorter.len() && #[trigger] shorter[k].id == id;
            assert(longer[k].id == id);
        }
        if id == states[i].id {
            assert(longer[i].id == id);
        }
        if ids_of(longer).contains(id) && id != states[i].id {
            let k = choose|k: int| 0 <= k < longer.len() && #[trigger] longer[k].id == id;
            assert(shorter[k].id == id);
        }
    }
}

/// After a batch is installed, a key has a rule exactly when it had one
/// before or a rule of the batch has that key.
pub proof fn lemma_installs_keys(
    before: Map<RuleKey, TransitionRule>,
    batch: Seq<TransitionRule>,
    after: Map<RuleKey, TransitionRule>,
    key: RuleKey,
)
    requires
        installs(before, batch, after),
    ensures
        after.contains_key(key) <==> before.contains_key(key) || exists|i: int|
            0 <= i < batch.len() && #[trigger] batch[i].key() == key,
{
    if exists|i: int| 0 <= i < batch.len() && #[trigger] batch[i].key() == key {
        let i = choose|i: int| 0 <= i < batch.len() && #[trigger] batch[i].key() == key;
        assert(after.contains_key(batch[i].key()));
    }
}

/// Filing the rule at position `i` under a key that has no rule yet turns
/// the table with the first `i` rules installed into the table with the
/// first `i + 1` rules installed.
pub proof fn lemma_installs_next(
    before: Map<RuleKey, TransitionRule>,
    batch: Seq<TransitionRule>,
    i: int,
    filed: Map<RuleKey, TransitionRule>,
)
    requires
        0 <= i < batch.len(),
        installs(before, batch.take(i), filed),
        !filed.contains_key(batch[i].key()),
    ensures
        installs(before, batch.take(i + 1), filed.insert(batch[i].key(), batch[i])),
{
    let shorter = batch.take(i);
    let longer = batch.take(i + 1);
    let after = filed.insert(batch[i].key(), batch[i]);
    assert forall|j: int| 0 <= j < longer.len() implies after.contains_key(
        #[trigger] longer[j].key(),
    ) && after[longer[j].key()] == longer[j] by {
        if j < i {
            assert(filed.contains_key(shorter[j].key()));
        }
    }
    assert forall|key: RuleKey| #[trigger] after.contains_key(key) implies before.contains_key(key)
        || exists|j: int| 0 <= j < longer.len() && #[trigger] longer[j].key() == key by {
        if key == batch[i].key() {
            assert(longer[i].key() == key);
        } else if !before.contains_key(key) {
            let j = choose|j: int| 0 <= j < shorter.len() && #[trigger] shorter[j].key() == key;
            assert(longer[j].key() == key);
        }
    }
}

/// Only one map is `before` with the rules of `batch` installed.
pub proof fn lemma_installs_is_determined(
    before: Map<RuleKey, TransitionRule>,
    batch: Seq<TransitionRule>,
    first: Map<RuleKey, TransitionRule>,
    second: Map<RuleKey, TransitionRule>,
)
    requires
        installs(before, batch, first),
        installs(before, batch, second),
    ensures
        first == second,
{
    assert forall|key: RuleKey| first.contains_key(key) implies second.contains_key(key)
        && second[key] == first[key] by {
        lemma_installed_rule(before, batch, first, second, key);
    }
    assert forall|key: RuleKey| second.contains_key(key) implies first.contains_key(key) by {
        lemma_installed_rule(before, batch, second, first, key);
    }
}

proof fn lemma_installed_rule(
    before: Map<RuleKey, TransitionRule>,
    batch: Seq<TransitionRule>,
    first: Map<RuleKey, TransitionRule>,
    second: Map<RuleKey, TransitionRule>,
    key: RuleKey,
)
    requires
        installs(before, batch, first),
        installs(before, batch, second),
        first.contains_key(key),
    ensures
        second.contains_key(key),
        second[key] == first[key],
{
    if !before.contains_key(key) {
        let i = choose|i: int| 0 <= i < batch.len() && #[trigger] batch[i].key() == key;
    }
}

impl MachineView {
    /// Validation has one answer: the contract of validation leaves no
    /// choice of result.
    pub proof fn lemma_validation_is_determined(
        self,
        batch: Seq<TransitionRule>,
        first: Result<(), MachineError>,
        second: Result<(), MachineError>,
    )
        requires
            self.validates(batch, first),
            self.validates(batch, second),
        ensures
            first == second,
    {
        if let Err(e1) = first {
            let k1 = choose|k: int| self.first_fault(batch, k, e1);
            if let Err(e2) = second {
                let k2 = choose|k: int| self.first_fault(batch, k, e2);
                assert(k1 == k2);
            }
        } else if let Err(e2) = second {
            let k2 = choose|k: int| self.first_fault(batch, k, e2);
            assert(self.rule_fault(batch, k2) is None);
        } else {
            assert(first->Ok_0 == ());
            assert(second->Ok_0 == ());
        }
    }

    /// A batch with a rule that leaves a state that is not registered is
    /// refused.
    pub proof fn lemma_undefined_from_state_is_refused(
        self,
        batch: Seq<TransitionRule>,
        i: int,
        r: Result<(), MachineError>,
    )
        requires
            0 <= i < batch.len(),
            !self.states.contains(batch[i].from_state.id),
            self.validates(batch, r),
        ensures
            r is Err,
    {
        assert(self.rule_fault(batch, i) is Some);
    }

    /// A batch with two rules for the same (state, symbol) pair is refused.
    pub proof fn lemma_colliding_keys_are_refused(
        self,
        batch: Seq<TransitionRule>,
        i: int,
        j: int,
        r: Result<(), MachineError>,
    )
        requires
            0 <= i < j < batch.len(),
            batch[i].key() == batch[j].key(),
            self.validates(batch, r),
        ensures
            r is Err,
    {
        assert(self.rule_fault(batch, j) is Some);
    }

    /// A batch with a rule for a (state, symbol) pair that has a rule in the
    /// table is refused: the rule in the table is not overwritten.
    pub proof fn lemma_occupied_key_is_refused(
        self,
        batch: Seq<TransitionRule>,
        i: int,
        r: Result<(), MachineError>,
    )
        requires
            0 <= i < batch.len(),
            self.rules.contains_key(batch[i].key()),
            self.validates(batch, r),
        ensures
            r is Err,
    {
        assert(self.rule_fault(batch, i) is Some);
    }

    /// Registering more states keeps a well-formed machine well formed.
    pub proof fn lemma_more_states_keep_wf(self, more: Set<ProgramStateId>)
        requires
            self.wf(),
        ensures
            (MachineView { states: self.states.union(more), ..self }).wf(),
    {
    }

    /// A step changes the tape under the head and the head, and nothing
    /// else; the head stays on the tape, whose length does not change.
    pub proof fn lemma_step_keeps_machine(self, state: ProgramStateId)
        requires
            self.wf(),
        ensures
            self.step(state).0.wf(),
            self.step(state).0.tape.len() == self.tape.len(),
            self.step(state).0.states == self.states,
            self.step(state).0.rules == self.rules,
            self.step(state).0.initial_state == self.initial_state,
            forall|i: int|
                0 <= i < self.tape.len() && i != self.head ==> self.step(state).0.tape[i]
                    == self.tape[i],
    {
    }

    /// A run changes tape and head only, keeps the head on the tape, and
    /// ends, if it ends without an error, in a status that does not go on:
    /// `Termination`, `Halt`, or a program state that is not registered.
    pub proof fn lemma_run_keeps_machine(self, status: State, budget: nat)
        requires
            self.wf(),
        ensures
            self.run_from(status, budget).0.wf(),
            self.run_from(status, budget).0.tape.len() == self.tape.len(),
            self.run_from(status, budget).0.states == self.states,
            self.run_from(status, budget).0.rules == self.rules,
            self.run_from(status, budget).0.initial_state == self.initial_state,
            self.run_from(status, budget).1 matches Ok(reached) ==> !self.is_running(reached),
        decreases budget,
    {
        if self.is_running(status) && budget > 0 {
            let (next, r) = self.step(status->0.id);
            self.lemma_step_keeps_machine(status->0.id);
            if let Ok(reached) = r {
                next.lemma_run_keeps_machine(reached, (budget - 1) as nat);
            }
        }
    }

    /// A run that ended within its budget ends in the same way, with the
    /// same tape and head, under any larger budget: the budget decides only
    /// whether the end is reached, not what it is.
    pub proof fn lemma_larger_budget_same_run(self, status: State, budget: nat, larger: nat)
        requires
            budget <= larger,
            !(self.run_from(status, budget).1 matches Err(MachineError::StepBudgetExhausted(_))),
        ensures
            self.run_from(status, larger) == self.run_from(status, budget),
        decreases budget,
    {
        if self.is_running(status) && budget > 0 {
            let (next, r) = self.step(status->0.id);
            if let Ok(reached) = r {
                next.lemma_larger_budget_same_run(
                    reached,
                    (budget - 1) as nat,
                    (larger - 1) as nat,
                );
            }
        }
    }

    /// Two machines with the same states, rules, initial state, tape and
    /// head run alike: the same final status or error, the same final tape
    /// and the same final head.
    pub proof fn lemma_run_is_deterministic(self, other: MachineView, budget: nat)
        requires
            self.states =~= other.states,
            self.rules =~= other.rules,
            self.initial_state == other.initial_state,
            self.tape =~= other.tape,
            self.head == other.head,
        ensures
            self.run(budget).1 == other.run(budget).1,
            self.run(budget).0.tape == other.run(budget).0.tape,
            self.run(budget).0.head == other.run(budget).0.head,
    {
    }

    /// A machine without rules halts on its first step and leaves the tape
    /// and the head as they were.
    pub proof fn lemma_no_rules_halts(self, budget: nat)
        requires
            self.wf(),
            self.initial_state is Some,
            self.rules == Map::<RuleKey, TransitionRule>::empty(),
            budget >= 1,
        ensures
            self.run(budget) == (self, Ok::<State, MachineError>(State::Halt)),
    {
        let id = self.initial_state->0;
        assert(self.run_from(State::Halt, (budget - 1) as nat) == (
            self,
            Ok::<State, MachineError>(State::Halt),
        ));
    }

    /// A run without an initial state fails and leaves the machine, its
    /// tape included, as it was.
    pub proof fn lemma_run_needs_initial_state(self, budget: nat)
        requires
            self.initial_state is None,
        ensures
            self.run(budget) == (self, Err::<State, MachineError>(MachineError::InitialStateNotSet)),
    {
    }
}

} // verus!
