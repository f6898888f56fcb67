//! What becomes of a session over any sequence of operations.
use vstd::prelude::*;

use crate::check::CheckPlan;
use crate::regions::RegionsModel;
use crate::repl::{OutcomeModel, ReplModel, Running};

verus! {

/// An operation on a session, with what came of the elaboration that it is about; `None` for one
/// that failed.
pub enum Operation<E> {
    SetGoal { run: Option<OutcomeModel<E>> },
    RunTac { state: u64, goal_idx: Option<usize>, run: Option<OutcomeModel<E>> },
    TryRunTac { state: u64, goal_idx: Option<usize>, run: Option<OutcomeModel<E>> },
    RunCmd { run: Option<Running<E>> },
    Check { plan: CheckPlan },
    /// Any request that only reads: the goals of a state, a lookup, an inspection.
    Read,
}

/// What came of a command, without the text of a failure.
pub open spec fn command_model<E>(run: Result<Running<E>, String>) -> Option<Running<E>> {
    match run {
        Ok(running) => Some(running),
        Err(_) => None,
    }
}

impl<E> ReplModel<E> {
    /// The operation is one that adds a state, and it succeeds.
    pub open spec fn adds_state(self, operation: Operation<E>) -> bool {
        match operation {
            Operation::SetGoal { run } => run is Some,
            Operation::RunTac { state, goal_idx, run } => self.has_goal(state, goal_idx)
                && run is Some,
            Operation::TryRunTac { state, goal_idx, run } => self.has_goal(state, goal_idx)
                && run is Some,
            _ => false,
        }
    }

    /// The session after an operation.
    pub open spec fn after(self, operation: Operation<E>) -> ReplModel<E> {
        match operation {
            Operation::SetGoal { run: Some(outcome) } => self.installed(
                outcome.running,
            ).with_state(outcome.state),
            Operation::RunTac { state, goal_idx, run: Some(outcome) } => if self.has_goal(
                state,
                goal_idx,
            ) {
                self.after_tactic(state, goal_idx, outcome)
            } else {
                self
            },
            Operation::TryRunTac { state, goal_idx, run: Some(outcome) } => if self.has_goal(
                state,
                goal_idx,
            ) {
                self.after_tactic(state, goal_idx, outcome)
            } else {
                self
            },
            Operation::RunCmd { run: Some(running) } => self.installed(running),
            Operation::Check { plan: CheckPlan::Elaborate } => if self.check_counter < u64::MAX {
                ReplModel { check_counter: (self.check_counter + 1) as u64, ..self }
            } else {
                self
            },
            _ => self,
        }
    }

    /// The session after several operations.
    pub open spec fn after_all(self, operations: Seq<Operation<E>>) -> ReplModel<E>
        decreases operations.len(),
    {
        if operations.len() == 0 {
            self
        } else {
            self.after_all(operations.drop_last()).after(operations.last())
        }
    }

    /// How many of the operations succeed in adding a state.
    pub open spec fn states_added(self, operations: Seq<Operation<E>>) -> nat
        decreases operations.len(),
    {
        if operations.len() == 0 {
            0
        } else {
            let before = operations.drop_last();
            self.states_added(before) + if self.after_all(before).adds_state(operations.last()) {
                1nat
            } else {
                0nat
            }
        }
    }
}

/// The number of states counts the goals that were set and the tactics that succeeded, over any
/// sequence of operations: failures, commands, checks and reads add none. No state there was
/// changes, and the import is kept track of as before.
pub proof fn law_states_count_successes<E>(repl: ReplModel<E>, operations: Seq<Operation<E>>)
    ensures
        repl.after_all(operations).states.len() == repl.states.len() + repl.states_added(
            operations,
        ),
        repl.after_all(operations).extends(repl),
        repl.after_all(operations).env == (RegionsModel {
            environment: repl.after_all(operations).env.environment,
            ..repl.env
        }),
    decreases operations.len(),
{
    if operations.len() > 0 {
        law_states_count_successes(repl, operations.drop_last());
    }
}

/// A session that was just opened has as many states as goals were set and tactics succeeded
/// since, and none before the first goal is set.
pub proof fn law_fresh_session_counts_from_zero<E>(
    repl: ReplModel<E>,
    operations: Seq<Operation<E>>,
)
    requires
        repl.states.len() == 0,
    ensures
        repl.after_all(operations).states.len() == repl.states_added(operations),
        (forall|i: int| 0 <= i < operations.len() ==> !((#[trigger] operations[i]) is SetGoal))
            ==> repl.after_all(operations).states.len() == 0,
    decreases operations.len(),
{
    law_states_count_successes(repl, operations);
    if operations.len() > 0 {
        let before = operations.drop_last();
        law_fresh_session_counts_from_zero(repl, before);
        if forall|i: int| 0 <= i < operations.len() ==> !((#[trigger] operations[i]) is SetGoal) {
            assert forall|i: int| 0 <= i < before.len() implies !((
            #[trigger] before[i]) is SetGoal) by {
                assert(before[i] == operations[i]);
            }
            assert(!(operations[operations.len() - 1] is SetGoal));
        }
    }
}

/// The number of states never goes down: more operations never leave fewer states than some of
/// them did.
pub proof fn law_states_never_decrease<E>(
    repl: ReplModel<E>,
    operations: Seq<Operation<E>>,
    count: int,
)
    requires
        0 <= count <= operations.len(),
    ensures
        repl.after_all(operations).extends(repl.after_all(operations.take(count))),
        repl.after_all(operations.take(count)).states.len() <= repl.after_all(
            operations,
        ).states.len(),
    decreases operations.len(),
{
    if count == operations.len() {
        assert(operations.take(count) =~= operations);
    } else {
        let before = operations.drop_last();
        law_states_never_decrease(repl, before, count);
        assert(before.take(count) =~= operations.take(count));
    }
}

/// What each operation does. A goal that was set and a tactic on a goal that is there each add a
/// state if they succeed; a command that succeeds installs what it left; an elaborated term moves
/// the counter, as long as there is a number left; everything else leaves the session as it was.
pub proof fn law_what_operations_do<E>(
    repl: ReplModel<E>,
    state: u64,
    goal_idx: Option<usize>,
    outcome: OutcomeModel<E>,
    running: Running<E>,
)
    ensures
        ({
            let present = state < repl.states.len() && (match goal_idx {
                Some(i) => i as int,
                None => 0,
            }) < repl.states[state as int].goals.len();
            let set = repl.after(Operation::SetGoal { run: Some(outcome) });
            let ran = Operation::RunTac { state, goal_idx, run: Some(outcome) };
            let tried = Operation::TryRunTac { state, goal_idx, run: Some(outcome) };
            let failed_run = Operation::<E>::RunTac { state, goal_idx, run: None };
            let failed_try = Operation::<E>::TryRunTac { state, goal_idx, run: None };
            &&& repl.adds_state(Operation::SetGoal { run: Some(outcome) })
            &&& set.states == repl.states + seq![outcome.state]
            &&& set.env.environment == outcome.running.environment
            &&& set.parts == outcome.running.parts
            &&& set.check_counter == repl.check_counter
            &&& repl.adds_state(ran) == present
            &&& repl.adds_state(tried) == present
            &&& present ==> repl.after(ran) == repl.after_tactic(state, goal_idx, outcome)
            &&& !present ==> repl.after(ran) == repl
            &&& repl.after(tried) == repl.after(ran)
            &&& repl.after(Operation::SetGoal { run: None }) == repl
            &&& repl.after(failed_run) == repl
            &&& repl.after(failed_try) == repl
            &&& !repl.adds_state(Operation::SetGoal { run: None })
            &&& !repl.adds_state(failed_run)
            &&& !repl.adds_state(failed_try)
        }),
        ({
            let commanded = repl.after(Operation::RunCmd { run: Some(running) });
            &&& commanded.states == repl.states
            &&& commanded.env.environment == running.environment
            &&& commanded.parts == running.parts
            &&& commanded.check_counter == repl.check_counter
            &&& repl.after(Operation::RunCmd { run: None }) == repl
            &&& !repl.adds_state(Operation::RunCmd { run: Some(running) })
            &&& !repl.adds_state(Operation::RunCmd { run: None })
        }),
        ({
            let counted = repl.after(Operation::Check { plan: CheckPlan::Elaborate });
            &&& repl.after(Operation::Check { plan: CheckPlan::Declared }) == repl
            &&& repl.after(Operation::Read) == repl
            &&& counted.states == repl.states
            &&& counted.parts == repl.parts
            &&& counted.env == repl.env
            &&& counted.check_counter == (if repl.check_counter < u64::MAX {
                repl.check_counter + 1
            } else {
                u64::MAX as int
            })
            &&& !repl.adds_state(Operation::Check { plan: CheckPlan::Elaborate })
            &&& !repl.adds_state(Operation::Check { plan: CheckPlan::Declared })
            &&& !repl.adds_state(Operation::Read)
        }),
{
}

/// Operations count one after another.
pub proof fn law_operations_count_in_turn<E>(
    repl: ReplModel<E>,
    operations: Seq<Operation<E>>,
    operation: Operation<E>,
    run: Result<Running<E>, String>,
)
    ensures
        repl.after_all(Seq::empty()) == repl,
        repl.after_all(operations.push(operation)) == repl.after_all(operations).after(operation),
        repl.states_added(Seq::empty()) == 0,
        repl.states_added(operations.push(operation)) == repl.states_added(operations) + (
        if repl.after_all(operations).adds_state(operation) {
            1int
        } else {
            0int
        }),
        command_model(run) == (match run {
            Ok(running) => Some(running),
            Err(_) => None,
        }),
{
    assert(operations.push(operation).drop_last() =~= operations);
}

} // verus!
