//! Tactic sequences: tactics applied one after another, each to the state that the one before it
//! led to, until one fails.
use vstd::prelude::*;

use crate::error::ReplError;
use crate::regions::RegionsModel;
use crate::repl::{lean_failure, OutcomeModel, Repl, ReplModel, TacticOutcome};

verus! {

/// A tactic sequence under way.
#[derive(Clone, Debug)]
pub struct TacticSequence {
    state: u64,
    failure: Option<ReplError>,
}

impl TacticSequence {
    /// The state that the last successful tactic led to; the first one's state before that.
    pub closed spec fn state(self) -> u64 {
        self.state
    }

    /// Why the sequence stopped, if it did.
    pub closed spec fn failure(self) -> Option<ReplError> {
        self.failure
    }

    /// A sequence that starts at `state`.
    pub fn new(state: u64) -> (r: TacticSequence)
        ensures
            r.state() == state,
            r.failure() is None,
    {
        TacticSequence { state, failure: None }
    }

    /// The state that the next tactic is applied to; `None` once a tactic has failed.
    pub fn next_state(&self) -> (r: Option<u64>)
        ensures
            r == (if self.failure() is None {
                Some(self.state())
            } else {
                None
            }),
    {
        match self.failure {
            None => Some(self.state),
            Some(_) => None,
        }
    }

    /// Takes in what came of the next tactic. After a failure nothing more happens.
    pub fn step<E>(
        &mut self,
        repl: &mut Repl<E>,
        goal_idx: Option<usize>,
        run: Result<TacticOutcome<E>, String>,
    )
        ensures
            if old(self).failure() is None && old(repl)@.has_goal(old(self).state(), goal_idx)
                && run is Ok {
                &&& final(self).state() == old(repl)@.states.len()
                &&& final(self).failure() is None
                &&& final(repl)@ == old(repl)@.after_tactic(
                    old(self).state(),
                    goal_idx,
                    run->Ok_0@,
                )
            } else {
                &&& final(self).state() == old(self).state()
                &&& final(repl)@ == old(repl)@
                &&& final(self).failure() is Some
                &&& old(self).failure() is Some ==> final(self).failure() == old(self).failure()
                &&& old(self).failure() is None ==> if old(repl)@.has_goal(
                    old(self).state(),
                    goal_idx,
                ) {
                    lean_failure(final(self).failure()->0, run->Err_0@)
                } else {
                    old(repl)@.refuses(old(self).state(), goal_idx, final(self).failure()->0)
                }
            },
    {
        if let Some(state) = self.next_state() {
            match repl.run_tac(state, goal_idx, run) {
                Ok(id) => {
                    self.state = id;
                },
                Err(e) => {
                    self.failure = Some(e);
                },
            }
        }
    }

    /// The outcome for a caller that wants the error: the final state, or what stopped the
    /// sequence.
    pub fn finish(self) -> (r: Result<u64, ReplError>)
        ensures
            r == (match self.failure() {
                None => Ok(self.state()),
                Some(e) => Err(e),
            }),
    {
        match self.failure {
            None => Ok(self.state),
            Some(e) => Err(e),
        }
    }

    /// The outcome for a caller that only asks how far the sequence got: the final state and
    /// `true`, or the state after the last successful tactic and `false`.
    pub fn reached(&self) -> (r: (u64, bool))
        ensures
            r.0 == self.state(),
            r.1 == self.failure() is None,
    {
        match self.failure {
            None => (self.state, true),
            Some(_) => (self.state, false),
        }
    }
}

/// The session, the state reached and whether every tactic succeeded, for a sequence whose runs
/// came out as `runs` (`None` where the tactic failed).
pub open spec fn sequence_model<E>(
    repl: ReplModel<E>,
    state: u64,
    goal_idx: Option<usize>,
    runs: Seq<Option<OutcomeModel<E>>>,
) -> (ReplModel<E>, u64, bool)
    decreases runs.len(),
{
    if runs.len() == 0 {
        (repl, state, true)
    } else {
        let (before, reached, ok) = sequence_model(repl, state, goal_idx, runs.drop_last());
        if ok && before.has_goal(reached, goal_idx) && runs.last() is Some {
            (
                before.after_tactic(reached, goal_idx, runs.last()->0),
                before.states.len() as u64,
                true,
            )
        } else {
            (before, reached, false)
        }
    }
}

/// What came of a tactic run, without the text of a failure.
pub open spec fn run_model<E>(run: Result<TacticOutcome<E>, String>) -> Option<OutcomeModel<E>> {
    match run {
        Ok(outcome) => Some(outcome@),
        Err(_) => None,
    }
}

/// What came of several tactic runs.
pub open spec fn runs_model<E>(runs: Seq<Result<TacticOutcome<E>, String>>) -> Seq<
    Option<OutcomeModel<E>>,
> {
    runs.map_values(|run: Result<TacticOutcome<E>, String>| run_model(run))
}

/// The `k`-th tactic is the first that failed or whose goal was missing, and `e` says so. All
/// tactics before it succeeded.
pub open spec fn stops_at<E>(
    repl: ReplModel<E>,
    state: u64,
    goal_idx: Option<usize>,
    runs: Seq<Result<TacticOutcome<E>, String>>,
    k: int,
    e: ReplError,
) -> bool {
    let (before, reached, ok) = sequence_model(repl, state, goal_idx, runs_model(runs).take(k));
    &&& ok
    &&& if before.has_goal(reached, goal_idx) {
        runs[k] is Err && lean_failure(e, runs[k]->Err_0@)
    } else {
        before.refuses(reached, goal_idx, e)
    }
}

/// `e` is what stopped a sequence: the first tactic that failed or whose goal was missing. All
/// tactics before it succeeded.
pub open spec fn stopped_by<E>(
    repl: ReplModel<E>,
    state: u64,
    goal_idx: Option<usize>,
    runs: Seq<Result<TacticOutcome<E>, String>>,
    e: ReplError,
) -> bool {
    exists|k: int|
        0 <= k < runs.len() && #[trigger] stops_at(repl, state, goal_idx, runs, k, e)
}

impl<E> Repl<E> {
    /// Runs a whole sequence whose runs came out as `runs`.
    fn run_sequence(
        &mut self,
        state: u64,
        goal_idx: Option<usize>,
        runs: Vec<Result<TacticOutcome<E>, String>>,
    ) -> (r: TacticSequence)
        ensures
            (final(self)@, r.state(), r.failure() is None) == sequence_model(
                old(self)@,
                state,
                goal_idx,
                runs_model(runs@),
            ),
            r.failure() matches Some(e) ==> stopped_by(old(self)@, state, goal_idx, runs@, e),
    {
        let mut sequence = TacticSequence::new(state);
        let ghost before = self@;
        let ghost models = runs_model(runs@);
        proof {
            assert(models.take(0) =~= Seq::empty());
        }
        for run in it: runs
            invariant
                it.seq() == runs@,
                models == runs_model(runs@),
                (self@, sequence.state(), sequence.failure() is None) == sequence_model(
                    before,
                    state,
                    goal_idx,
                    models.take(it.index() as int),
                ),
                sequence.failure() matches Some(e) ==> stopped_by(
                    before,
                    state,
                    goal_idx,
                    runs@,
                    e,
                ),
        {
            proof {
                let shown = models.take(it.index() + 1);
                assert(shown.drop_last() =~= models.take(it.index() as int));
                assert(shown.last() == run_model(run));
                assert(runs@[it.index() as int] == run);
            }
            let ghost k = it.index() as int;
            let ghost running = sequence.failure() is None;
            sequence.step(self, goal_idx, run);
            proof {
                if running && sequence.failure() is Some {
                    assert(stops_at(before, state, goal_idx, runs@, k, sequence.failure()->0));
                }
            }
        }
        assert(models.take(models.len() as int) =~= models);
        sequence
    }

    /// Applies a tactic sequence whose runs came out as `runs`, and returns the final state's id.
    /// A failure stops the sequence; the states of the tactics before it stay.
    pub fn run_tacs(
        &mut self,
        state: u64,
        goal_idx: Option<usize>,
        runs: Vec<Result<TacticOutcome<E>, String>>,
    ) -> (r: Result<u64, ReplError>)
        ensures
            ({
                let (after, reached, ok) = sequence_model(
                    old(self)@,
                    state,
                    goal_idx,
                    runs_model(runs@),
                );
                &&& final(self)@ == after
                &&& match r {
                    Ok(id) => ok && id == reached,
                    Err(e) => !ok && stopped_by(old(self)@, state, goal_idx, runs@, e),
                }
            }),
    {
        self.run_sequence(state, goal_idx, runs).finish()
    }

    /// [`Self::run_tacs`] for a caller that only asks how far the sequence got: the final state
    /// and `true` if all tactics succeed, else the state after the last successful one and
    /// `false`.
    pub fn try_run_tacs(
        &mut self,
        state: u64,
        goal_idx: Option<usize>,
        runs: Vec<Result<TacticOutcome<E>, String>>,
    ) -> (r: (u64, bool))
        ensures
            (final(self)@, r.0, r.1) == sequence_model(
                old(self)@,
                state,
                goal_idx,
                runs_model(runs@),
            ),
    {
        self.run_sequence(state, goal_idx, runs).reached()
    }
}

/// A sequence only ever adds states: those there were keep their ids and contents, and one is
/// added for each tactic that succeeded.
pub proof fn law_sequence_keeps_states<E>(
    repl: ReplModel<E>,
    state: u64,
    goal_idx: Option<usize>,
    runs: Seq<Option<OutcomeModel<E>>>,
)
    ensures
        ({
            let after = sequence_model(repl, state, goal_idx, runs).0;
            &&& repl.states.len() <= after.states.len() <= repl.states.len() + runs.len()
            &&& after.states.take(repl.states.len() as int) == repl.states
            &&& after.check_counter == repl.check_counter
            &&& after.env == (RegionsModel { environment: after.env.environment, ..repl.env })
            &&& after.extends(repl)
        }),
    decreases runs.len(),
{
    if runs.len() == 0 {
        assert(repl.states.take(repl.states.len() as int) =~= repl.states);
    } else {
        law_sequence_keeps_states(repl, state, goal_idx, runs.drop_last());
        let before = sequence_model(repl, state, goal_idx, runs.drop_last()).0;
        let after = sequence_model(repl, state, goal_idx, runs).0;
        assert(after.states.take(repl.states.len() as int) =~= before.states.take(
            repl.states.len() as int,
        ));
    }
}

/// A sequence in which every tactic succeeds adds one state for each and ends in the last one; an
/// empty sequence ends where it starts.
pub proof fn law_sequence_success<E>(
    repl: ReplModel<E>,
    state: u64,
    goal_idx: Option<usize>,
    runs: Seq<Option<OutcomeModel<E>>>,
)
    requires
        sequence_model(repl, state, goal_idx, runs).2,
        repl.states.len() + runs.len() <= u64::MAX,
    ensures
        ({
            let (after, reached, _) = sequence_model(repl, state, goal_idx, runs);
            &&& after.states.len() == repl.states.len() + runs.len()
            &&& runs.len() == 0 ==> reached == state
            &&& runs.len() > 0 ==> reached == after.states.len() - 1
        }),
    decreases runs.len(),
{
    if runs.len() > 0 {
        law_sequence_success(repl, state, goal_idx, runs.drop_last());
    }
}

/// A sequence that fails has a first tactic that failed, or whose goal was missing. Everything
/// before it succeeded, and the sequence ends as those tactics alone would: in the state after
/// the last successful one, with nothing added after it.
pub proof fn law_sequence_failure<E>(
    repl: ReplModel<E>,
    state: u64,
    goal_idx: Option<usize>,
    runs: Seq<Option<OutcomeModel<E>>>,
)
    requires
        !sequence_model(repl, state, goal_idx, runs).2,
    ensures
        exists|k: int|
            0 <= k < runs.len() && {
                let (before, reached, ok) = #[trigger] sequence_model(
                    repl,
                    state,
                    goal_idx,
                    runs.take(k),
                );
                &&& ok
                &&& runs[k] is None || !before.has_goal(reached, goal_idx)
                &&& sequence_model(repl, state, goal_idx, runs) == (before, reached, false)
            },
    decreases runs.len(),
{
    let shorter = runs.drop_last();
    let (before, reached, ok) = sequence_model(repl, state, goal_idx, shorter);
    if ok {
        let k = runs.len() - 1;
        assert(runs.take(k) =~= shorter);
    } else {
        law_sequence_failure(repl, state, goal_idx, shorter);
        let k = choose|k: int|
            0 <= k < shorter.len() && {
                let (b, s, o) = #[trigger] sequence_model(repl, state, goal_idx, shorter.take(k));
                &&& o
                &&& shorter[k] is None || !b.has_goal(s, goal_idx)
                &&& sequence_model(repl, state, goal_idx, shorter) == (b, s, false)
            };
        assert(runs.take(k) =~= shorter.take(k));
    }
}

/// A sequence goes tactic by tactic, each on the state that the one before led to: a tactic that
/// succeeds on a goal that is there adds its state, which is where the next one goes on; anything
/// else ends the sequence where it is; and after that nothing counts.
pub proof fn law_sequence_goes_tactic_by_tactic<E>(
    repl: ReplModel<E>,
    state: u64,
    goal_idx: Option<usize>,
    runs: Seq<Option<OutcomeModel<E>>>,
    outcome: OutcomeModel<E>,
)
    ensures
        sequence_model(repl, state, goal_idx, Seq::empty()) == (repl, state, true),
        ({
            let (before, reached, ok) = sequence_model(repl, state, goal_idx, runs);
            let present = reached < before.states.len() && (match goal_idx {
                Some(i) => i as int,
                None => 0,
            }) < before.states[reached as int].goals.len();
            let (after, next, succeeded) = sequence_model(
                repl,
                state,
                goal_idx,
                runs.push(Some(outcome)),
            );
            &&& ok && present ==> {
                &&& succeeded
                &&& after == before.after_tactic(reached, goal_idx, outcome)
                &&& before.states.len() <= u64::MAX ==> next == before.states.len()
            }
            &&& !ok || !present ==> (after, next, succeeded) == (before, reached, false)
            &&& sequence_model(repl, state, goal_idx, runs.push(None)) == (before, reached, false)
        }),
{
    assert(runs.push(Some(outcome)).drop_last() =~= runs);
    assert(runs.push(None).drop_last() =~= runs);
}

/// What came of a run is taken as it is.
pub proof fn law_runs_are_taken_as_they_are<E>(
    outcome: TacticOutcome<E>,
    message: String,
    runs: Seq<Result<TacticOutcome<E>, String>>,
    i: int,
)
    requires
        0 <= i < runs.len(),
    ensures
        run_model(Ok::<TacticOutcome<E>, String>(outcome)) == Some(outcome@),
        run_model(Err::<TacticOutcome<E>, String>(message)) is None,
        runs_model(runs).len() == runs.len(),
        runs_model(runs)[i] == run_model(runs[i]),
{
}

/// If all tactics of a sequence but the last succeed, what stops it is what stops the last one: a
/// missing goal is refused, and otherwise Lean's message is passed on.
pub proof fn law_the_first_failure_is_reported<E>(
    repl: ReplModel<E>,
    state: u64,
    goal_idx: Option<usize>,
    runs: Seq<Result<TacticOutcome<E>, String>>,
    last: Result<TacticOutcome<E>, String>,
    e: ReplError,
)
    requires
        sequence_model(repl, state, goal_idx, runs_model(runs)).2,
    ensures
        ({
            let (before, reached, _) = sequence_model(repl, state, goal_idx, runs_model(runs));
            stopped_by(repl, state, goal_idx, runs.push(last), e) <==> if before.has_goal(
                reached,
                goal_idx,
            ) {
                last is Err && (e matches ReplError::Lean { message } && message@
                    == last->Err_0@)
            } else {
                before.refuses(reached, goal_idx, e)
            }
        }),
{
    let all = runs.push(last);
    let models = runs_model(runs);
    let end = runs.len() as int;
    assert(runs_model(all).take(end) =~= models);
    assert(all[end] == last);
    if stops_at(repl, state, goal_idx, all, end, e) {
        assert(stopped_by(repl, state, goal_idx, all, e));
    }
    if stopped_by(repl, state, goal_idx, all, e) {
        let k = choose|k: int|
            0 <= k < all.len() && #[trigger] stops_at(repl, state, goal_idx, all, k, e);
        if k < end {
            lemma_success_of_all(repl, state, goal_idx, models, k);
            assert(runs_model(all).take(k) =~= models.take(k));
            assert(models[k] == run_model(runs[k]));
            assert(all[k] == runs[k]);
        }
    }
}

/// In a sequence that succeeds every tactic succeeds, on a goal that is there.
proof fn lemma_success_of_all<E>(
    repl: ReplModel<E>,
    state: u64,
    goal_idx: Option<usize>,
    runs: Seq<Option<OutcomeModel<E>>>,
    k: int,
)
    requires
        sequence_model(repl, state, goal_idx, runs).2,
        0 <= k < runs.len(),
    ensures
        ({
            let (before, reached, ok) = sequence_model(repl, state, goal_idx, runs.take(k));
            ok && before.has_goal(reached, goal_idx) && runs[k] is Some
        }),
    decreases runs.len(),
{
    let shorter = runs.drop_last();
    if k == runs.len() - 1 {
        assert(runs.take(k) =~= shorter);
    } else {
        lemma_success_of_all(repl, state, goal_idx, shorter, k);
        assert(runs.take(k) =~= shorter.take(k));
        assert(runs[k] == shorter[k]);
    }
}

} // verus!
