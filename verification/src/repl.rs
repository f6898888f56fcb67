//! Replay sessions: a growing list of proof states, each derived from an earlier one.
//!
//! The session decides which goal a request is about, what the next state holds and which id it
//! gets. It holds the environment, which every success replaces and every query reads. Goals and
//! elaborator states live in the Lean runtime; the session knows them by handle.
use vstd::prelude::*;

use leo3::meta::LeanEnvironment;
use leo3::LeanUnbound;

use crate::error::ReplError;
use crate::history::{command_model, Operation};
use crate::import::{Opening, PhaseModel};
use crate::list::copy_items;
use crate::regions::{EnvRegions, RegionsModel};
use crate::sequence::run_model;

verus! {

/// Handle of a goal (a metavariable) of the Lean runtime.
#[derive(Clone, Copy, Debug, PartialEq, Eq, Structural)]
pub struct GoalId {
    pub index: u64,
}

/// Handle of a snapshot of the elaborator's state.
#[derive(Clone, Copy, Debug, PartialEq, Eq, Structural)]
pub struct MetaId {
    pub index: u64,
}

/// Handle of the elaborator's running parts: the contexts and states that the next elaboration
/// starts from, apart from the environment.
#[derive(Clone, Copy, Debug, PartialEq, Eq, Structural)]
pub struct PartsId {
    pub index: u64,
}

/// What an elaboration leaves for the next one: the environment and the running parts. `E` is the
/// type of environments.
#[derive(Clone, Debug)]
pub struct Running<E = LeanUnbound<LeanEnvironment>> {
    pub environment: E,
    pub parts: PartsId,
}

/// One replay state: the remaining goals and the elaborator's state at that point. A tactic
/// starts from the snapshot of the state that it is applied to, so branches stay independent.
#[derive(Debug)]
pub struct ReplState {
    goals: Vec<GoalId>,
    meta_state: MetaId,
}

/// The goals that a tactic run produced, the elaborator's state after it, and what it leaves for
/// the next elaboration.
#[derive(Clone, Debug)]
pub struct TacticOutcome<E = LeanUnbound<LeanEnvironment>> {
    pub goals: Vec<GoalId>,
    pub meta_state: MetaId,
    pub running: Running<E>,
}

/// The goal that a tactic works on, and the snapshot that it starts from.
#[derive(Clone, Copy, Debug, PartialEq, Eq, Structural)]
pub struct Target {
    pub goal: GoalId,
    pub meta_state: MetaId,
}

/// A replay session.
///
/// State ids count up from 0. Each goal that is set and each tactic that succeeds appends a
/// state; nothing ever changes or removes one. `E` is the type of environments. The environment
/// is the last field, so that it outlives the rest.
#[derive(Debug)]
pub struct Repl<E = LeanUnbound<LeanEnvironment>> {
    check_counter: u64,
    states: Vec<ReplState>,
    parts: PartsId,
    env: EnvRegions<E>,
}

/// The contents of a [`ReplState`].
#[verifier::ext_equal]
pub struct StateModel {
    pub goals: Seq<GoalId>,
    pub meta_state: MetaId,
}

/// The contents of a [`TacticOutcome`].
#[verifier::ext_equal]
pub struct OutcomeModel<E> {
    pub state: StateModel,
    pub running: Running<E>,
}

/// The contents of a [`Repl`].
#[verifier::ext_equal]
pub struct ReplModel<E> {
    /// The replay states, by id.
    pub states: Seq<StateModel>,
    /// The number of terms elaborated by `check` queries.
    pub check_counter: u64,
    /// The elaborator's running parts.
    pub parts: PartsId,
    /// The environment, and what is kept of its import.
    pub env: RegionsModel<E>,
}

impl View for ReplState {
    type V = StateModel;

    closed spec fn view(&self) -> StateModel {
        StateModel { goals: self.goals@, meta_state: self.meta_state }
    }
}

impl<E> View for TacticOutcome<E> {
    type V = OutcomeModel<E>;

    open spec fn view(&self) -> OutcomeModel<E> {
        OutcomeModel {
            state: StateModel { goals: self.goals@, meta_state: self.meta_state },
            running: self.running,
        }
    }
}

impl<E> View for Repl<E> {
    type V = ReplModel<E>;

    closed spec fn view(&self) -> ReplModel<E> {
        ReplModel {
            states: self.states@.map_values(|s: ReplState| s@),
            check_counter: self.check_counter,
            parts: self.parts,
            env: self.env@,
        }
    }
}

/// The goals after a tactic that worked on the goal at `index` and produced `produced`: the other
/// goals, in order, and then the produced ones.
pub open spec fn goals_after(
    goals: Seq<GoalId>,
    index: int,
    produced: Seq<GoalId>,
) -> Seq<GoalId> {
    goals.remove(index) + produced
}

/// The goal index that is meant where none is given.
pub open spec fn index_or_first(goal_idx: Option<usize>) -> usize {
    match goal_idx {
        Some(i) => i,
        None => 0,
    }
}

impl<E> ReplModel<E> {
    /// `state` is the id of a replay state.
    pub open spec fn has_state(self, state: u64) -> bool {
        state < self.states.len()
    }

    /// `goal_idx` names a goal of `state`.
    pub open spec fn has_goal(self, state: u64, goal_idx: Option<usize>) -> bool {
        &&& self.has_state(state)
        &&& index_or_first(goal_idx) < self.states[state as int].goals.len()
    }

    /// `e` says that there is no state `state`, and how many states there are.
    pub open spec fn unknown_state(self, state: u64, e: ReplError) -> bool {
        &&& !self.has_state(state)
        &&& e matches ReplError::UnknownState { state: asked, len }
        &&& asked == state
        &&& len == self.states.len()
    }

    /// `e` says that `state` has no such goal, and how many goals it has.
    pub open spec fn no_goal(self, state: u64, goal_idx: Option<usize>, e: ReplError) -> bool {
        &&& self.has_state(state)
        &&& !self.has_goal(state, goal_idx)
        &&& e matches ReplError::NoGoal { index, state: asked, goals }
        &&& index == index_or_first(goal_idx)
        &&& asked == state
        &&& goals == self.states[state as int].goals.len()
    }

    /// A request about a goal is refused with `e`.
    pub open spec fn refuses(self, state: u64, goal_idx: Option<usize>, e: ReplError) -> bool {
        self.unknown_state(state, e) || self.no_goal(state, goal_idx, e)
    }

    /// What a request about a goal of a state is about.
    pub open spec fn target(self, state: u64, goal_idx: Option<usize>) -> Target {
        Target {
            goal: self.states[state as int].goals[index_or_first(goal_idx) as int],
            meta_state: self.states[state as int].meta_state,
        }
    }

    /// What showing the goals of a state is about: each goal, in order, in the state's own
    /// snapshot.
    pub open spec fn targets(self, state: u64) -> Seq<Target> {
        let shown = self.states[state as int];
        Seq::new(
            shown.goals.len(),
            |i: int| Target { goal: shown.goals[i], meta_state: shown.meta_state },
        )
    }

    /// The session with one more state.
    pub open spec fn with_state(self, added: StateModel) -> ReplModel<E> {
        ReplModel { states: self.states.push(added), ..self }
    }

    /// The session after an elaboration that left `running`. What is kept of the import stays.
    pub open spec fn installed(self, running: Running<E>) -> ReplModel<E> {
        ReplModel {
            parts: running.parts,
            env: RegionsModel { environment: running.environment, ..self.env },
            ..self
        }
    }

    /// Every state of `earlier` is a state of this session, unchanged and under the same id.
    pub open spec fn extends(self, earlier: ReplModel<E>) -> bool {
        earlier.states.is_prefix_of(self.states)
    }

    /// The state that a tactic on a goal of `state` leads to.
    pub open spec fn state_after(
        self,
        state: u64,
        goal_idx: Option<usize>,
        outcome: StateModel,
    ) -> StateModel {
        StateModel {
            goals: goals_after(
                self.states[state as int].goals,
                index_or_first(goal_idx) as int,
                outcome.goals,
            ),
            meta_state: outcome.meta_state,
        }
    }

    /// The session after a tactic on a goal of `state` that came out as `outcome`.
    pub open spec fn after_tactic(
        self,
        state: u64,
        goal_idx: Option<usize>,
        outcome: OutcomeModel<E>,
    ) -> ReplModel<E> {
        self.installed(outcome.running).with_state(self.state_after(state, goal_idx, outcome.state))
    }
}

impl<E> Repl<E> {
    /// Number of replay states created so far. Valid state ids are `0..num_states()`.
    pub fn num_states(&self) -> (r: usize)
        ensures
            r == self@.states.len(),
    {
        self.states.len()
    }

    /// Number of terms elaborated by `check` queries so far.
    pub fn checks(&self) -> (r: u64)
        ensures
            r == self@.check_counter,
    {
        self.check_counter
    }

    /// The elaborator's running parts.
    pub fn parts(&self) -> (r: PartsId)
        ensures
            r == self@.parts,
    {
        self.parts
    }

    /// The environment that the next elaboration and every query works in.
    pub fn environment(&self) -> (r: &E)
        ensures
            *r == self@.env.environment,
    {
        self.env.environment()
    }

    /// The environment with what is kept of its import.
    pub fn regions(&self) -> (r: &EnvRegions<E>)
        ensures
            r@ == self@.env,
    {
        &self.env
    }

    /// Ends the session. What is left is the environment, to be released.
    pub fn into_regions(self) -> (r: EnvRegions<E>)
        ensures
            r@ == self@.env,
    {
        self.env
    }

    /// The state of an id.
    fn state(&self, state: u64) -> (r: Result<&ReplState, ReplError>)
        ensures
            match r {
                Ok(s) => self@.has_state(state) && s@ == self@.states[state as int],
                Err(e) => self@.unknown_state(state, e),
            },
    {
        if state < self.states.len() as u64 {
            Ok(&self.states[state as usize])
        } else {
            Err(ReplError::UnknownState { state, len: self.states.len() })
        }
    }

    /// Number of remaining goals in `state`.
    pub fn get_num_goals(&self, state: u64) -> (r: Result<usize, ReplError>)
        ensures
            match r {
                Ok(n) => self@.has_state(state) && n == self@.states[state as int].goals.len(),
                Err(e) => self@.unknown_state(state, e),
            },
    {
        match self.state(state) {
            Ok(s) => Ok(s.goals.len()),
            Err(e) => Err(e),
        }
    }

    /// The remaining goals of `state`.
    pub fn goal_ids(&self, state: u64) -> (r: Result<Vec<GoalId>, ReplError>)
        ensures
            match r {
                Ok(ids) => self@.has_state(state) && ids@ == self@.states[state as int].goals,
                Err(e) => self@.unknown_state(state, e),
            },
    {
        match self.state(state) {
            Ok(s) => Ok(copy_items(&s.goals)),
            Err(e) => Err(e),
        }
    }

    /// The remaining goals of `state`, each with the snapshot that it is shown in: that of the
    /// state itself.
    pub fn goal_targets(&self, state: u64) -> (r: Result<Vec<Target>, ReplError>)
        ensures
            match r {
                Ok(targets) => {
                    &&& self@.has_state(state)
                    &&& targets@ == self@.targets(state)
                    &&& targets@.len() == self@.states[state as int].goals.len()
                    &&& forall|i: int|
                        0 <= i < targets@.len() ==> (#[trigger] targets@[i]) == (Target {
                            goal: self@.states[state as int].goals[i],
                            meta_state: self@.states[state as int].meta_state,
                        })
                },
                Err(e) => self@.unknown_state(state, e),
            },
    {
        match self.state(state) {
            Ok(s) => {
                let mut out: Vec<Target> = Vec::new();
                let mut i: usize = 0;
                while i < s.goals.len()
                    invariant
                        i <= s.goals.len(),
                        self@.has_state(state),
                        s@ == self@.states[state as int],
                        out@ == self@.targets(state).take(i as int),
                    decreases s.goals.len() - i,
                {
                    let target = Target { goal: s.goals[i], meta_state: s.meta_state };
                    proof {
                        assert(self@.targets(state).take(i + 1) =~= out@.push(target));
                    }
                    out.push(target);
                    i = i + 1;
                }
                assert(self@.targets(state).take(s.goals@.len() as int) =~= self@.targets(state));
                Ok(out)
            },
            Err(e) => Err(e),
        }
    }

    /// The goal that a request names, with the snapshot of its state. The first goal is meant
    /// where no index is given.
    pub fn target(&self, state: u64, goal_idx: Option<usize>) -> (r: Result<Target, ReplError>)
        ensures
            match r {
                Ok(t) => self@.has_goal(state, goal_idx) && t == self@.target(state, goal_idx),
                Err(e) => self@.refuses(state, goal_idx, e),
            },
    {
        let index: usize = match goal_idx {
            Some(i) => i,
            None => 0,
        };
        match self.state(state) {
            Ok(s) => {
                if index < s.goals.len() {
                    Ok(Target { goal: s.goals[index], meta_state: s.meta_state })
                } else {
                    Err(ReplError::NoGoal { index, state, goals: s.goals.len() })
                }
            },
            Err(e) => Err(e),
        }
    }

    /// The snapshot that the root context starts from, once a goal was set.
    pub(crate) fn root_meta_state(&self) -> (r: Option<MetaId>)
        ensures
            r == (if self@.states.len() > 0 {
                Some(self@.states[0].meta_state)
            } else {
                None
            }),
    {
        if self.states.len() > 0 {
            Some(self.states[0].meta_state)
        } else {
            None
        }
    }

    /// Counts one more elaborated term.
    pub(crate) fn next_check(&mut self) -> (r: u64)
        requires
            old(self)@.check_counter < u64::MAX,
        ensures
            r == old(self)@.check_counter + 1,
            final(self)@ == (ReplModel { check_counter: r, ..old(self)@ }),
    {
        self.check_counter = self.check_counter + 1;
        self.check_counter
    }

    /// Installs what an elaboration left.
    fn install(&mut self, running: Running<E>)
        ensures
            final(self)@ == old(self)@.installed(running),
    {
        self.parts = running.parts;
        self.env.swap_inner(running.environment);
        assert(self@.states =~= old(self)@.states);
    }

    /// Appends a state and returns its id.
    fn push_state(&mut self, goals: Vec<GoalId>, meta_state: MetaId) -> (r: u64)
        ensures
            final(self)@ == old(self)@.with_state(StateModel { goals: goals@, meta_state }),
            r == old(self)@.states.len(),
    {
        let id: u64 = self.states.len() as u64;
        let added = ReplState { goals, meta_state };
        self.states.push(added);
        assert(self@.states =~= old(self)@.states.push(added@));
        id
    }
}

/// `e` passes on a failure that Lean reported.
pub open spec fn lean_failure(e: ReplError, message: Seq<char>) -> bool {
    e matches ReplError::Lean { message: m } && m@ == message
}

/// The tactic that turns a fresh goal `True` into the goal `type_str`.
pub open spec fn root_tactic_text(type_str: Seq<char>) -> Seq<char> {
    "suffices h : "@ + type_str + " from True.intro"@
}

/// The tactic that sets up a root goal. Run on a fresh goal `True`, it has Lean elaborate
/// `type_str` and leaves it as the goal.
pub fn root_tactic(type_str: &str) -> (r: String)
    ensures
        r@ == root_tactic_text(type_str@),
{
    "suffices h : ".to_owned().concat(type_str).concat(" from True.intro")
}

impl<E> Repl<E> {
    /// The session of an opening that is done, or the error that it was refused with; `None` while
    /// a step is still due. A session starts with no state, in the environment that the opening
    /// ended in.
    pub fn new(opening: Opening<E>) -> (r: Option<Result<Repl<E>, ReplError>>)
        ensures
            match opening@.phase {
                PhaseModel::Opened { environment, window, parts } => {
                    r matches Some(Ok(repl)) && repl@ == (ReplModel {
                        states: Seq::empty(),
                        check_counter: 0,
                        parts,
                        env: crate::regions::import_model(
                            environment,
                            opening@.request.modules(),
                            window,
                        ),
                    })
                },
                PhaseModel::Refused { error } => r matches Some(Err(e)) && e@ == error,
                _ => r is None,
            },
    {
        let (modules, outcome) = opening.outcome();
        match outcome {
            Some(Ok((environment, window, parts))) => {
                let repl = Repl {
                    check_counter: 0,
                    states: Vec::new(),
                    parts,
                    env: EnvRegions::from_import(environment, modules, window),
                };
                assert(repl@.states =~= Seq::empty());
                Some(Ok(repl))
            },
            Some(Err(e)) => Some(Err(e)),
            None => None,
        }
    }

    /// Records a new root goal, or the failure to elaborate it. Existing states are unaffected;
    /// returns the new state's id, 0 for the first one of a session.
    pub fn set_goal(&mut self, run: Result<TacticOutcome<E>, String>) -> (r: Result<
        u64,
        ReplError,
    >)
        ensures
            match run {
                Ok(outcome) => {
                    &&& r matches Ok(id) && id == old(self)@.states.len()
                    &&& final(self)@ == old(self)@.installed(outcome@.running).with_state(
                        outcome@.state,
                    )
                },
                Err(message) => {
                    &&& r matches Err(e) && lean_failure(e, message@)
                    &&& final(self)@ == old(self)@
                },
            },
            final(self)@ == old(self)@.after(Operation::SetGoal { run: run_model(run) }),
            r is Ok <==> old(self)@.adds_state(Operation::SetGoal { run: run_model(run) }),
    {
        match run {
            Ok(outcome) => {
                self.install(outcome.running);
                Ok(self.push_state(outcome.goals, outcome.meta_state))
            },
            Err(message) => Err(ReplError::Lean { message }),
        }
    }

    /// Records what came of running a tactic on a goal of `state`, and returns the new state's
    /// id. The other goals of `state` stay, in order, before those that the tactic produced. On
    /// any failure (unknown state, no such goal, or the tactic failed) the session is unchanged.
    pub fn run_tac(
        &mut self,
        state: u64,
        goal_idx: Option<usize>,
        run: Result<TacticOutcome<E>, String>,
    ) -> (r: Result<u64, ReplError>)
        ensures
            match r {
                Ok(id) => {
                    &&& old(self)@.has_goal(state, goal_idx)
                    &&& run matches Ok(outcome) && final(self)@ == old(self)@.after_tactic(
                        state,
                        goal_idx,
                        outcome@,
                    )
                    &&& id == old(self)@.states.len()
                    &&& final(self)@.states.last().goals == old(
                        self,
                    )@.states[state as int].goals.remove(
                        match goal_idx {
                            Some(i) => i as int,
                            None => 0,
                        },
                    ) + run->Ok_0.goals@
                    &&& final(self)@.states.last().meta_state == run->Ok_0.meta_state
                },
                Err(e) => {
                    &&& final(self)@ == old(self)@
                    &&& if old(self)@.has_goal(state, goal_idx) {
                        run matches Err(message) && lean_failure(e, message@)
                    } else {
                        old(self)@.refuses(state, goal_idx, e)
                    }
                },
            },
            final(self)@ == old(self)@.after(
                Operation::RunTac { state, goal_idx, run: run_model(run) },
            ),
            r is Ok <==> old(self)@.adds_state(
                Operation::RunTac { state, goal_idx, run: run_model(run) },
            ),
    {
        let index: usize = match goal_idx {
            Some(i) => i,
            None => 0,
        };
        let mut goals = match self.goal_ids(state) {
            Ok(goals) => goals,
            Err(e) => {
                return Err(e);
            },
        };
        if index >= goals.len() {
            return Err(ReplError::NoGoal { index, state, goals: goals.len() });
        }
        match run {
            Ok(outcome) => {
                goals.remove(index);
                let mut produced = outcome.goals;
                goals.append(&mut produced);
                self.install(outcome.running);
                Ok(self.push_state(goals, outcome.meta_state))
            },
            Err(message) => Err(ReplError::Lean { message }),
        }
    }

    /// [`Self::run_tac`] for a caller that only asks whether the tactic succeeded: the new
    /// state's id and `true`, or `state` itself and `false` with the session unchanged.
    pub fn try_run_tac(
        &mut self,
        state: u64,
        goal_idx: Option<usize>,
        run: Result<TacticOutcome<E>, String>,
    ) -> (r: (u64, bool))
        ensures
            r.1 == (old(self)@.has_goal(state, goal_idx) && run is Ok),
            r.1 ==> r.0 == old(self)@.states.len() && final(self)@ == old(self)@.after_tactic(
                state,
                goal_idx,
                run->Ok_0@,
            ),
            !r.1 ==> r.0 == state && final(self)@ == old(self)@,
            final(self)@ == old(self)@.after(
                Operation::TryRunTac { state, goal_idx, run: run_model(run) },
            ),
            r.1 == old(self)@.adds_state(
                Operation::TryRunTac { state, goal_idx, run: run_model(run) },
            ),
    {
        match self.run_tac(state, goal_idx, run) {
            Ok(new_state) => (new_state, true),
            Err(_) => (state, false),
        }
    }

    /// Takes in what came of a command. The environment that it left is the one that later
    /// elaborations and queries work in; a command that failed leaves everything as it was. No
    /// replay state is created or changed.
    pub fn run_cmd(&mut self, run: Result<Running<E>, String>) -> (r: Result<(), ReplError>)
        ensures
            match run {
                Ok(running) => r is Ok && final(self)@ == old(self)@.installed(running),
                Err(message) => {
                    &&& r matches Err(e) && lean_failure(e, message@)
                    &&& final(self)@ == old(self)@
                },
            },
            final(self)@ == old(self)@.after(Operation::RunCmd { run: command_model(run) }),
    {
        match run {
            Ok(running) => {
                self.install(running);
                Ok(())
            },
            Err(message) => Err(ReplError::Lean { message }),
        }
    }
}

/// Adding a state leaves every state there was as it was, under its id, and the new one gets the
/// next id. Valid ids are always those below the number of states.
pub proof fn law_states_are_kept<E>(repl: ReplModel<E>, added: StateModel, state: u64)
    ensures
        repl.with_state(added).states.len() == repl.states.len() + 1,
        repl.has_state(state) ==> repl.with_state(added).has_state(state),
        repl.has_state(state) ==> repl.with_state(added).states[state as int]
            == repl.states[state as int],
        repl.with_state(added).states[repl.states.len() as int] == added,
        repl.with_state(added).has_state(state) <==> state <= repl.states.len(),
        repl.with_state(added).check_counter == repl.check_counter,
        repl.with_state(added).env == repl.env,
        repl.with_state(added).parts == repl.parts,
{
}

/// Whatever is done with a session (a goal set, a tactic run, a command run, a term counted), it
/// extends what it was; and so does any number of such operations.
pub proof fn law_sessions_only_grow<E>(
    repl: ReplModel<E>,
    running: Running<E>,
    added: StateModel,
    count: u64,
    later: ReplModel<E>,
    latest: ReplModel<E>,
)
    ensures
        repl.extends(repl),
        repl.installed(running).extends(repl),
        repl.installed(running).with_state(added).extends(repl),
        (ReplModel { check_counter: count, ..repl }).extends(repl),
        later.extends(repl) && latest.extends(later) ==> latest.extends(repl),
{
}

/// Branches are independent: what a request about an existing state is about, which goals it
/// shows in which snapshot, and what a tactic on it leads to, does not depend on anything done
/// since.
pub proof fn law_branches_are_independent<E>(
    earlier: ReplModel<E>,
    later: ReplModel<E>,
    state: u64,
    goal_idx: Option<usize>,
    outcome: StateModel,
)
    requires
        later.extends(earlier),
        earlier.has_state(state),
    ensures
        later.has_state(state),
        later.states[state as int] == earlier.states[state as int],
        later.has_goal(state, goal_idx) == earlier.has_goal(state, goal_idx),
        later.target(state, goal_idx) == earlier.target(state, goal_idx),
        later.targets(state) == earlier.targets(state),
        later.state_after(state, goal_idx, outcome) == earlier.state_after(
            state,
            goal_idx,
            outcome,
        ),
{
    assert(later.states[state as int] == earlier.states[state as int]);
}

/// A tactic can be run again on the same goal of the same state, after any number of other
/// operations: it starts from the same goal and snapshot, its state gets a later id, and if it
/// produces the same goals the two states have the same goals.
pub proof fn law_tactic_can_be_rerun<E>(
    repl: ReplModel<E>,
    state: u64,
    goal_idx: Option<usize>,
    first: OutcomeModel<E>,
    later: ReplModel<E>,
    second: OutcomeModel<E>,
)
    requires
        repl.has_goal(state, goal_idx),
        later.extends(repl.after_tactic(state, goal_idx, first)),
    ensures
        later.has_goal(state, goal_idx),
        later.target(state, goal_idx) == repl.target(state, goal_idx),
        later.states.len() > repl.states.len(),
        ({
            let again = later.after_tactic(state, goal_idx, second);
            let a = again.states[repl.states.len() as int];
            let b = again.states[later.states.len() as int];
            &&& again.states.len() == later.states.len() + 1
            &&& first.state.goals.len() == second.state.goals.len() ==> a.goals.len()
                == b.goals.len()
            &&& first.state.goals == second.state.goals ==> a.goals == b.goals
        }),
{
    let ran = repl.after_tactic(state, goal_idx, first);
    assert(ran.states[state as int] == repl.states[state as int]);
    assert(later.states[state as int] == ran.states[state as int]);
    assert(later.states[repl.states.len() as int] == ran.states[repl.states.len() as int]);
}

/// A success installs the environment and the running parts that it left, and nothing else of the
/// session's standing changes: the import is kept track of as before.
pub proof fn law_success_installs_what_it_left<E>(
    repl: ReplModel<E>,
    running: Running<E>,
    added: StateModel,
)
    ensures
        repl.installed(running).env.environment == running.environment,
        repl.installed(running).parts == running.parts,
        repl.installed(running).states == repl.states,
        repl.installed(running).check_counter == repl.check_counter,
        repl.installed(running).env == repl.env.with_environment(running.environment),
        repl.installed(running).with_state(added).env == repl.installed(running).env,
        repl.installed(running).with_state(added).parts == running.parts,
{
}

/// Goals that a tactic does not work on are preserved: those before the worked one keep their
/// place, those after it move up by one, and the produced goals follow.
pub proof fn law_unworked_goals_are_preserved(
    goals: Seq<GoalId>,
    index: int,
    produced: Seq<GoalId>,
)
    requires
        0 <= index < goals.len(),
    ensures
        goals_after(goals, index, produced).len() == goals.len() - 1 + produced.len(),
        forall|j: int|
            0 <= j < index ==> #[trigger] goals_after(goals, index, produced)[j] == goals[j],
        forall|j: int|
            index < j < goals.len() ==> goals_after(goals, index, produced)[j - 1]
                == #[trigger] goals[j],
        forall|j: int|
            0 <= j < produced.len() ==> goals_after(goals, index, produced)[goals.len() - 1 + j]
                == #[trigger] produced[j],
{
}

/// A proof can advance goal by goal in any order: working on two goals of a state one after the
/// other leaves the same goals whichever comes first, up to the order in which they are listed.
/// (The later goal moves up by one when the earlier one is worked on first.)
pub proof fn law_goal_order_is_free(
    goals: Seq<GoalId>,
    i: int,
    j: int,
    from_i: Seq<GoalId>,
    from_j: Seq<GoalId>,
)
    requires
        0 <= i < j < goals.len(),
    ensures
        goals_after(goals_after(goals, i, from_i), j - 1, from_j).to_multiset() == goals_after(
            goals_after(goals, j, from_j),
            i,
            from_i,
        ).to_multiset(),
        from_i.len() == 0 && from_j.len() == 0 ==> goals_after(
            goals_after(goals, i, from_i),
            j - 1,
            from_j,
        ) == goals_after(goals_after(goals, j, from_j), i, from_i),
{
    broadcast use vstd::seq_lib::group_to_multiset_ensures;

    let rest = goals.remove(j).remove(i);
    assert(goals_after(goals_after(goals, i, from_i), j - 1, from_j) =~= rest + from_i + from_j);
    assert(goals_after(goals_after(goals, j, from_j), i, from_i) =~= rest + from_j + from_i);
    vstd::seq_lib::lemma_multiset_commutative(rest + from_i, from_j);
    vstd::seq_lib::lemma_multiset_commutative(rest, from_i);
    vstd::seq_lib::lemma_multiset_commutative(rest + from_j, from_i);
    vstd::seq_lib::lemma_multiset_commutative(rest, from_j);
    assert((rest + from_i + from_j).to_multiset() =~= (rest + from_j + from_i).to_multiset());
}

/// A state is solved exactly where its last goal is worked on and nothing is produced.
pub proof fn law_last_goal_solves(goals: Seq<GoalId>, index: int, produced: Seq<GoalId>)
    requires
        0 <= index < goals.len(),
    ensures
        goals_after(goals, index, produced).len() == 0 <==> goals.len() == 1 && produced.len()
            == 0,
{
}

/// A tactic keeps the goals that it did not work on. In the state that it adds, the goals before
/// the worked one (the first where no index is given) stand where they stood, those after it have
/// moved up by one, and the produced goals follow in order. All earlier states stay, and what the
/// tactic left is installed.
pub proof fn law_tactic_keeps_unworked_goals<E>(
    repl: ReplModel<E>,
    state: u64,
    goal_idx: Option<usize>,
    outcome: OutcomeModel<E>,
)
    requires
        state < repl.states.len(),
        (match goal_idx {
            Some(i) => i as int,
            None => 0,
        }) < repl.states[state as int].goals.len(),
    ensures
        ({
            let index = match goal_idx {
                Some(i) => i as int,
                None => 0,
            };
            let source = repl.states[state as int].goals;
            let produced = outcome.state.goals;
            let after = repl.after_tactic(state, goal_idx, outcome);
            let goals = after.states.last().goals;
            &&& after.states.len() == repl.states.len() + 1
            &&& forall|s: int| 0 <= s < repl.states.len() ==> #[trigger] after.states[s]
                == repl.states[s]
            &&& goals.len() == source.len() - 1 + produced.len()
            &&& forall|j: int| 0 <= j < index ==> #[trigger] goals[j] == source[j]
            &&& forall|j: int| index <= j < source.len() - 1 ==> #[trigger] goals[j] == source[j
                + 1]
            &&& forall|j: int|
                0 <= j < produced.len() ==> goals[source.len() - 1 + j] == #[trigger] produced[j]
            &&& after.states.last().meta_state == outcome.state.meta_state
            &&& after.check_counter == repl.check_counter
            &&& after.parts == outcome.running.parts
            &&& after.env.environment == outcome.running.environment
        }),
{
}

/// The goals of a state are shown in the snapshot of that state: the `i`-th target names its
/// `i`-th goal and its own snapshot, there is one for each goal, and it is what a request for that
/// goal is about.
pub proof fn law_goals_are_shown_in_their_own_state<E>(repl: ReplModel<E>, state: u64, i: usize)
    requires
        state < repl.states.len(),
        i < repl.states[state as int].goals.len(),
    ensures
        repl.targets(state).len() == repl.states[state as int].goals.len(),
        repl.targets(state)[i as int].goal == repl.states[state as int].goals[i as int],
        repl.targets(state)[i as int].meta_state == repl.states[state as int].meta_state,
        repl.target(state, Some(i)) == repl.targets(state)[i as int],
        i == 0 ==> repl.target(state, None) == repl.targets(state)[0],
{
}

/// A state without goals has nothing to show.
pub proof fn law_solved_state_shows_nothing<E>(repl: ReplModel<E>, state: u64)
    requires
        state < repl.states.len(),
        repl.states[state as int].goals.len() == 0,
    ensures
        repl.targets(state).len() == 0,
{
}

/// Two targets of one session that name different states never mix goals and snapshots: a target
/// of a state just added has that state's snapshot, and one of an older state keeps its own.
pub proof fn law_added_state_shows_its_own_goals<E>(
    repl: ReplModel<E>,
    running: Running<E>,
    added: StateModel,
    state: u64,
    i: int,
)
    requires
        repl.states.len() <= u64::MAX,
        state <= repl.states.len(),
    ensures
        ({
            let after = repl.installed(running).with_state(added);
            &&& state == repl.states.len() && 0 <= i < added.goals.len() ==> after.targets(state)[i]
                == (Target { goal: added.goals[i], meta_state: added.meta_state })
            &&& state < repl.states.len() && 0 <= i < repl.states[state as int].goals.len()
                ==> after.targets(state)[i] == (Target {
                goal: repl.states[state as int].goals[i],
                meta_state: repl.states[state as int].meta_state,
            })
        }),
{
}

/// Requests address states and goals by position. A state exists if its id is below the number of
/// states, a goal if its index is below the number of goals of the state, and a request without
/// an index is about the first goal.
pub proof fn law_requests_go_by_position<E>(repl: ReplModel<E>, state: u64, i: usize)
    ensures
        repl.has_state(state) <==> state < repl.states.len(),
        repl.has_goal(state, Some(i)) <==> state < repl.states.len() && i
            < repl.states[state as int].goals.len(),
        repl.has_goal(state, None) <==> state < repl.states.len()
            && repl.states[state as int].goals.len() > 0,
        repl.target(state, Some(i)).goal == repl.states[state as int].goals[i as int],
        repl.target(state, Some(i)).meta_state == repl.states[state as int].meta_state,
        repl.target(state, None).goal == repl.states[state as int].goals[0],
        repl.target(state, None).meta_state == repl.states[state as int].meta_state,
        index_or_first(Some(i)) == i,
        index_or_first(None) == 0,
{
}

/// A refusal says what was asked for and what there is: the id and the number of states, or the
/// index, the id and the number of goals of the state. Nothing else is ever refused.
pub proof fn law_refusals_say_what_is_missing<E>(
    repl: ReplModel<E>,
    state: u64,
    goal_idx: Option<usize>,
    e: ReplError,
)
    ensures
        ({
            let index = match goal_idx {
                Some(i) => i,
                None => 0,
            };
            let unknown = state >= repl.states.len() && (e matches ReplError::UnknownState {
                state: asked,
                len,
            } && asked == state && len == repl.states.len());
            let missing = state < repl.states.len() && index
                >= repl.states[state as int].goals.len() && (e matches ReplError::NoGoal {
                index: asked_index,
                state: asked,
                goals,
            } && asked_index == index && asked == state && goals
                == repl.states[state as int].goals.len());
            &&& repl.unknown_state(state, e) <==> unknown
            &&& repl.no_goal(state, goal_idx, e) <==> missing
            &&& repl.refuses(state, goal_idx, e) <==> unknown || missing
        }),
{
}

/// Adding a state puts it last and changes nothing else. Installing what an elaboration left
/// changes the environment and the running parts and nothing else; the record of the import stays.
pub proof fn law_nothing_else_changes<E>(
    repl: ReplModel<E>,
    running: Running<E>,
    added: StateModel,
)
    ensures
        repl.with_state(added).states == repl.states + seq![added],
        repl.with_state(added).check_counter == repl.check_counter,
        repl.with_state(added).parts == repl.parts,
        repl.with_state(added).env == repl.env,
        repl.installed(running).states == repl.states,
        repl.installed(running).check_counter == repl.check_counter,
        repl.installed(running).parts == running.parts,
        repl.installed(running).env.environment == running.environment,
        repl.installed(running).env.modules == repl.env.modules,
        repl.installed(running).env.file_vmas_added == repl.env.file_vmas_added,
        repl.installed(running).env.imported == repl.env.imported,
        repl.installed(running).env.trackable == repl.env.trackable,
{
}

/// A later session is one that still has every earlier state under its id.
pub proof fn law_extending_is_keeping_states<E>(earlier: ReplModel<E>, later: ReplModel<E>)
    ensures
        later.extends(earlier) <==> {
            &&& earlier.states.len() <= later.states.len()
            &&& forall|i: int| 0 <= i < earlier.states.len() ==> earlier.states[i]
                == #[trigger] later.states[i]
        },
{
    if later.extends(earlier) {
        assert forall|i: int| 0 <= i < earlier.states.len() implies earlier.states[i]
            == #[trigger] later.states[i] by {
            assert(later.states.subrange(0, earlier.states.len() as int)[i] == later.states[i]);
        }
    }
    if earlier.states.len() <= later.states.len() && (forall|i: int|
        0 <= i < earlier.states.len() ==> earlier.states[i] == #[trigger] later.states[i]) {
        assert(earlier.states =~= later.states.subrange(0, earlier.states.len() as int));
    }
}

/// A failure of Lean is passed on with its own text, and a tactic's outcome is taken as it is.
pub proof fn law_outcomes_are_taken_as_they_are<E>(
    e: ReplError,
    message: Seq<char>,
    outcome: TacticOutcome<E>,
)
    ensures
        lean_failure(e, message) <==> (e matches ReplError::Lean { message: said } && said@
            == message),
        outcome@.state.goals == outcome.goals@,
        outcome@.state.meta_state == outcome.meta_state,
        outcome@.running == outcome.running,
{
}

/// A root goal is set up by the tactic `suffices h : type from True.intro`.
pub proof fn law_root_tactic_reads(type_str: Seq<char>)
    ensures
        root_tactic_text(type_str) == "suffices h : "@ + type_str + " from True.intro"@,
{
}

} // verus!
