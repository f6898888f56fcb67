//! Goals and states as text.
use vstd::prelude::*;

use crate::error::{ErrorModel, ReplError};
use crate::repl::{lean_failure, Repl, ReplModel, Target};
use crate::text::{decimal, decimal_string, join, joined, lemma_texts_push, texts};

verus! {

/// A goal as a caller sees it: hypotheses as `(name, type)`, the goal type, and the name of the
/// metavariable.
#[derive(Clone, Debug, PartialEq, Eq)]
pub struct Goal {
    pub hyps: Vec<(String, String)>,
    pub ty: String,
    pub mvar: String,
}

/// The lines that show a goal: one for each hypothesis, and then the goal type.
pub open spec fn goal_lines(hyps: Seq<(String, String)>, ty: Seq<char>) -> Seq<Seq<char>> {
    hyps.map_values(|h: (String, String)| h.0@ + " : "@ + h.1@).push("⊢ "@ + ty)
}

/// How a goal is shown.
pub open spec fn goal_text(hyps: Seq<(String, String)>, ty: Seq<char>) -> Seq<char> {
    joined(goal_lines(hyps, ty), "\n"@)
}

impl Goal {
    /// The standard display of a goal: a line `name : type` for each hypothesis, followed by
    /// `⊢ type`.
    pub fn show(&self) -> (r: String)
        ensures
            r@ == goal_text(self.hyps@, self.ty@),
    {
        let mut lines: Vec<String> = Vec::new();
        let mut i: usize = 0;
        while i < self.hyps.len()
            invariant
                i <= self.hyps.len(),
                texts(lines@) == goal_lines(self.hyps@, self.ty@).take(i as int),
            decreases self.hyps.len() - i,
        {
            let line = self.hyps[i].0.clone().concat(" : ").concat(self.hyps[i].1.as_str());
            proof {
                lemma_texts_push(lines@, line);
                assert(goal_lines(self.hyps@, self.ty@).take(i + 1) =~= texts(lines@).push(line@));
            }
            lines.push(line);
            i = i + 1;
        }
        let last = "⊢ ".to_owned().concat(self.ty.as_str());
        proof {
            lemma_texts_push(lines@, last);
            assert(goal_lines(self.hyps@, self.ty@) =~= texts(lines@).push(last@));
        }
        lines.push(last);
        join(&lines, "\n")
    }
}

/// One goal of a state with several.
pub open spec fn numbered_goal_text(index: nat, goal: Seq<char>) -> Seq<char> {
    "goal["@ + decimal(index) + "]:\n"@ + goal
}

/// The goals of a state with several, each under its number.
pub open spec fn numbered_goals(goals: Seq<Seq<char>>) -> Seq<Seq<char>> {
    Seq::new(goals.len(), |i: int| numbered_goal_text(i as nat, goals[i]))
}

/// How a state is shown: `no goals`, its only goal, or numbered goals with a blank line between
/// them.
pub open spec fn state_text(goals: Seq<Seq<char>>) -> Seq<char> {
    if goals.len() == 0 {
        "no goals"@
    } else if goals.len() == 1 {
        goals[0]
    } else {
        joined(numbered_goals(goals), "\n\n"@)
    }
}

/// Shows a state, given each of its goals as Lean prints it.
pub fn show_state(goals: &Vec<String>) -> (r: String)
    ensures
        r@ == state_text(texts(goals@)),
{
    if goals.len() == 0 {
        return "no goals".to_owned();
    }
    if goals.len() == 1 {
        return goals[0].clone();
    }
    let mut blocks: Vec<String> = Vec::new();
    let mut i: usize = 0;
    while i < goals.len()
        invariant
            i <= goals.len(),
            texts(blocks@) == numbered_goals(texts(goals@)).take(i as int),
        decreases goals.len() - i,
    {
        let block = "goal[".to_owned().concat(decimal_string(i as u64).as_str()).concat(
            "]:\n",
        ).concat(goals[i].as_str());
        proof {
            lemma_texts_push(blocks@, block);
            assert(numbered_goals(texts(goals@)).take(i + 1) =~= texts(blocks@).push(block@));
        }
        blocks.push(block);
        i = i + 1;
    }
    assert(numbered_goals(texts(goals@)).take(goals@.len() as int) =~= numbered_goals(
        texts(goals@),
    ));
    join(&blocks, "\n\n")
}

/// `goals` are the goals that were shown, none of which failed.
pub open spec fn all_shown<T>(shown: Seq<Result<T, String>>, goals: Seq<T>) -> bool {
    &&& goals.len() == shown.len()
    &&& forall|i: int|
        0 <= i < shown.len() ==> (#[trigger] shown[i]) == Ok::<T, String>(goals[i])
}

/// `e` passes on the first failure among what was shown.
pub open spec fn first_failure<T>(shown: Seq<Result<T, String>>, e: ReplError) -> bool {
    exists|i: int|
        #![trigger shown[i]]
        {
            &&& 0 <= i < shown.len()
            &&& shown[i] is Err
            &&& lean_failure(e, shown[i]->Err_0@)
            &&& forall|j: int| 0 <= j < i ==> (#[trigger] shown[j]) is Ok
        }
}

/// The goals of a state while they are shown one after another, each in the state's own snapshot,
/// until one fails. `T` is what a goal is shown as.
#[derive(Debug)]
pub struct GoalListing<T> {
    targets: Vec<Target>,
    shown: Vec<T>,
    failure: Option<ReplError>,
}

/// The contents of a [`GoalListing`].
#[verifier::ext_equal]
pub struct ListingModel<T> {
    /// The goals to show.
    pub targets: Seq<Target>,
    /// Those shown so far.
    pub shown: Seq<T>,
    /// What stopped the listing, if anything did.
    pub failure: Option<ErrorModel>,
}

impl<T> View for GoalListing<T> {
    type V = ListingModel<T>;

    closed spec fn view(&self) -> ListingModel<T> {
        ListingModel {
            targets: self.targets@,
            shown: self.shown@,
            failure: match self.failure {
                Some(e) => Some(e@),
                None => None,
            },
        }
    }
}

impl<T> ListingModel<T> {
    /// A listing of `targets` of which nothing is shown yet.
    pub open spec fn start(targets: Seq<Target>) -> ListingModel<T> {
        ListingModel { targets, shown: Seq::empty(), failure: None }
    }

    /// The goal to show next, and the snapshot to show it in; `None` once all are shown or one
    /// has failed.
    pub open spec fn next(self) -> Option<Target> {
        if self.failure is None && self.shown.len() < self.targets.len() {
            Some(self.targets[self.shown.len() as int])
        } else {
            None
        }
    }

    /// The listing after the next goal came out as `result`. Nothing more happens once there is
    /// no next goal.
    pub open spec fn after(self, result: Result<T, String>) -> ListingModel<T> {
        match (self.next(), result) {
            (Some(_), Ok(goal)) => ListingModel { shown: self.shown.push(goal), ..self },
            (Some(_), Err(message)) => ListingModel {
                failure: Some(ErrorModel::Lean { message: message@ }),
                ..self
            },
            (None, _) => self,
        }
    }

    /// The listing after several results.
    pub open spec fn after_all(self, results: Seq<Result<T, String>>) -> ListingModel<T>
        decreases results.len(),
    {
        if results.len() == 0 {
            self
        } else {
            self.after_all(results.drop_last()).after(results.last())
        }
    }
}

impl<T> GoalListing<T> {
    /// The goal to show next, and the snapshot to show it in.
    pub fn next(&self) -> (r: Option<Target>)
        ensures
            r == self@.next(),
    {
        match self.failure {
            None => if self.shown.len() < self.targets.len() {
                Some(self.targets[self.shown.len()])
            } else {
                None
            },
            Some(_) => None,
        }
    }

    /// Takes in what came of showing the next goal.
    pub fn take(&mut self, result: Result<T, String>)
        ensures
            final(self)@ == old(self)@.after(result),
    {
        if let Some(_) = self.next() {
            match result {
                Ok(goal) => {
                    self.shown.push(goal);
                },
                Err(message) => {
                    self.failure = Some(ReplError::Lean { message });
                },
            }
        }
    }

    /// The goals, one for each goal of the state, or what stopped the listing; `None` while there
    /// is a goal left to show.
    pub fn finish(self) -> (r: Option<Result<Vec<T>, ReplError>>)
        ensures
            match (self@.failure, self@.next()) {
                (Some(error), _) => r matches Some(Err(e)) && e@ == error,
                (None, Some(_)) => r is None,
                (None, None) => r matches Some(Ok(goals)) && goals@ == self@.shown,
            },
    {
        let due = self.next().is_some();
        match self.failure {
            Some(e) => Some(Err(e)),
            None => if due {
                None
            } else {
                Some(Ok(self.shown))
            },
        }
    }
}

/// `shown` is what came of showing `count` goals in turn: one result for each, or fewer if the
/// last one is a failure.
pub open spec fn answers<T>(shown: Seq<Result<T, String>>, count: nat) -> bool {
    shown.len() == count || (0 < shown.len() < count && shown.last() is Err)
}

/// The texts of goals that were all printed.
pub open spec fn printed_texts(printed: Seq<Result<String, String>>) -> Seq<Seq<char>> {
    printed.map_values(|p: Result<String, String>| p->Ok_0@)
}

/// A listing stops at the first failure, and otherwise takes each goal as it was shown.
proof fn lemma_listing<T>(targets: Seq<Target>, shown: Seq<Result<T, String>>)
    requires
        shown.len() <= targets.len(),
    ensures
        ({
            let after = ListingModel::<T>::start(targets).after_all(shown);
            &&& after.targets == targets
            &&& match after.failure {
                None => all_shown(shown, after.shown),
                Some(error) => exists|i: int|
                    #![trigger shown[i]]
                    {
                        &&& 0 <= i < shown.len()
                        &&& shown[i] is Err
                        &&& error == (ErrorModel::Lean { message: shown[i]->Err_0@ })
                        &&& forall|j: int| 0 <= j < i ==> (#[trigger] shown[j]) is Ok
                    },
            }
        }),
    decreases shown.len(),
{
    if shown.len() > 0 {
        let shorter = shown.drop_last();
        lemma_listing(targets, shorter);
        let before = ListingModel::<T>::start(targets).after_all(shorter);
        match before.failure {
            None => {
                let last = shown.len() - 1;
                assert forall|j: int| 0 <= j < last implies (#[trigger] shown[j]) == Ok::<
                    T,
                    String,
                >(before.shown[j]) by {
                    assert(shorter[j] == shown[j]);
                }
                assert(shown[last] == shown.last());
            },
            Some(error) => {
                let i = choose|i: int|
                    #![trigger shorter[i]]
                    {
                        &&& 0 <= i < shorter.len()
                        &&& shorter[i] is Err
                        &&& error == (ErrorModel::Lean { message: shorter[i]->Err_0@ })
                        &&& forall|j: int| 0 <= j < i ==> (#[trigger] shorter[j]) is Ok
                    };
                assert(shown[i] == shorter[i]);
                assert forall|j: int| 0 <= j < i implies (#[trigger] shown[j]) is Ok by {
                    assert(shorter[j] == shown[j]);
                }
            },
        }
    }
}

impl<E> Repl<E> {
    /// Starts to show the remaining goals of `state`.
    pub fn list_goals<T>(&self, state: u64) -> (r: Result<GoalListing<T>, ReplError>)
        ensures
            match r {
                Ok(listing) => self@.has_state(state) && listing@ == ListingModel::<T>::start(
                    self@.targets(state),
                ),
                Err(e) => self@.unknown_state(state, e),
            },
    {
        match self.goal_targets(state) {
            Ok(targets) => {
                let listing = GoalListing { targets, shown: Vec::new(), failure: None };
                assert(listing@.shown =~= Seq::empty());
                Ok(listing)
            },
            Err(e) => Err(e),
        }
    }

    /// What the remaining goals of `state` are shown as, one for each in order, from what came of
    /// showing each in turn, up to the first failure.
    fn shown_goals<T>(&self, state: u64, shown: Vec<Result<T, String>>) -> (r: Result<
        Vec<T>,
        ReplError,
    >)
        requires
            self@.has_state(state) ==> answers(
                shown@,
                self@.states[state as int].goals.len(),
            ),
        ensures
            match r {
                Ok(goals) => {
                    &&& self@.has_state(state)
                    &&& goals@.len() == self@.states[state as int].goals.len()
                    &&& all_shown(shown@, goals@)
                },
                Err(e) => if self@.has_state(state) {
                    first_failure(shown@, e)
                } else {
                    self@.unknown_state(state, e)
                },
            },
    {
        let mut listing = match self.list_goals(state) {
            Ok(listing) => listing,
            Err(e) => {
                return Err(e);
            },
        };
        let ghost start = listing@;
        proof {
            assert(shown@.take(0) =~= Seq::empty());
        }
        for result in it: shown
            invariant
                it.seq() == shown@,
                listing@ == start.after_all(shown@.take(it.index() as int)),
        {
            proof {
                let more = shown@.take(it.index() + 1);
                assert(more.drop_last() =~= shown@.take(it.index() as int));
                assert(more.last() == result);
            }
            listing.take(result);
        }
        proof {
            assert(shown@.take(shown@.len() as int) =~= shown@);
            lemma_listing(self@.targets(state), shown@);
            if listing@.failure is None && shown@.len() > 0 {
                assert(shown@[shown@.len() - 1] is Ok);
            }
        }
        match listing.failure {
            Some(e) => Err(e),
            None => Ok(listing.shown),
        }
    }

    /// The remaining goals of `state`, one for each in order, from what came of showing each in
    /// turn, up to the first failure.
    pub fn get_goals(&self, state: u64, shown: Vec<Result<Goal, String>>) -> (r: Result<
        Vec<Goal>,
        ReplError,
    >)
        requires
            self@.has_state(state) ==> answers(
                shown@,
                self@.states[state as int].goals.len(),
            ),
        ensures
            match r {
                Ok(goals) => {
                    &&& self@.has_state(state)
                    &&& goals@.len() == self@.states[state as int].goals.len()
                    &&& all_shown(shown@, goals@)
                },
                Err(e) => if self@.has_state(state) {
                    first_failure(shown@, e)
                } else {
                    self@.unknown_state(state, e)
                },
            },
    {
        self.shown_goals(state, shown)
    }

    /// Every goal of `state` in one text, from what came of printing each in turn, up to the first
    /// failure.
    pub fn get_state_pp(&self, state: u64, printed: Vec<Result<String, String>>) -> (r: Result<
        String,
        ReplError,
    >)
        requires
            self@.has_state(state) ==> answers(
                printed@,
                self@.states[state as int].goals.len(),
            ),
        ensures
            match r {
                Ok(text) => {
                    &&& self@.has_state(state)
                    &&& printed@.len() == self@.states[state as int].goals.len()
                    &&& forall|i: int| 0 <= i < printed@.len() ==> (#[trigger] printed@[i]) is Ok
                    &&& text@ == state_text(printed_texts(printed@))
                },
                Err(e) => if self@.has_state(state) {
                    first_failure(printed@, e)
                } else {
                    self@.unknown_state(state, e)
                },
            },
    {
        match self.shown_goals(state, printed) {
            Ok(goals) => {
                assert(texts(goals@) =~= printed_texts(printed@));
                Ok(show_state(&goals))
            },
            Err(e) => Err(e),
        }
    }

    /// A goal of `state` as Lean prints it, from what came of printing it.
    pub fn get_goal_pp(
        &self,
        state: u64,
        goal_idx: Option<usize>,
        printed: Result<String, String>,
    ) -> (r: Result<String, ReplError>)
        ensures
            match r {
                Ok(text) => {
                    &&& self@.has_goal(state, goal_idx)
                    &&& printed matches Ok(p) && text@ == p@
                },
                Err(e) => if self@.has_goal(state, goal_idx) {
                    printed matches Err(message) && lean_failure(e, message@)
                } else {
                    self@.refuses(state, goal_idx, e)
                },
            },
    {
        match self.target(state, goal_idx) {
            Ok(_) => match printed {
                Ok(text) => Ok(text),
                Err(message) => Err(ReplError::Lean { message }),
            },
            Err(e) => Err(e),
        }
    }
}

/// A goal without hypotheses is shown as its type alone.
pub proof fn law_bare_goal(ty: Seq<char>)
    ensures
        goal_text(Seq::empty(), ty) == "⊢ "@ + ty,
{
    assert(goal_lines(Seq::empty(), ty) =~= seq!["⊢ "@ + ty]);
}

/// A state with one goal is shown exactly as that goal, and one without goals as `no goals`.
pub proof fn law_few_goals(goal: Seq<char>)
    ensures
        state_text(Seq::empty()) == "no goals"@,
        state_text(seq![goal]) == goal,
{
}

/// A finished listing holds one goal for each goal of the state, none left out.
pub proof fn law_every_goal_is_shown<T>(targets: Seq<Target>, results: Seq<Result<T, String>>)
    ensures
        ({
            let after = ListingModel::<T>::start(targets).after_all(results);
            &&& after.targets == targets
            &&& after.shown.len() <= targets.len()
            &&& after.failure is None && after.next() is None ==> after.shown.len() == targets.len()
        }),
    decreases results.len(),
{
    if results.len() > 0 {
        law_every_goal_is_shown(targets, results.drop_last());
    }
}

/// The goals of a state are shown alike at any time: whatever was done since, the same goals are
/// due in the same snapshots, so the same results give the same listing.
pub proof fn law_goals_are_shown_alike<E, T>(
    earlier: ReplModel<E>,
    later: ReplModel<E>,
    state: u64,
    results: Seq<Result<T, String>>,
)
    requires
        later.extends(earlier),
        earlier.has_state(state),
    ensures
        later.has_state(state),
        later.targets(state) == earlier.targets(state),
        ListingModel::<T>::start(later.targets(state)).after_all(results) == ListingModel::start(
            earlier.targets(state),
        ).after_all(results),
{
    assert(later.states[state as int] == earlier.states[state as int]);
}

/// A goal reads as one line `name : type` for each hypothesis, in order, and then `⊢ type`.
pub proof fn law_goals_read(hyps: Seq<(String, String)>, ty: Seq<char>, lines: Seq<Seq<char>>)
    requires
        lines.len() == hyps.len() + 1,
        forall|i: int|
            0 <= i < hyps.len() ==> #[trigger] lines[i] == hyps[i].0@ + " : "@ + hyps[i].1@,
        lines[hyps.len() as int] == "⊢ "@ + ty,
    ensures
        goal_text(hyps, ty) == joined(lines, "\n"@),
{
    assert(goal_lines(hyps, ty) =~= lines);
}

/// A state reads as `no goals`, as its only goal, or as its goals in order, each headed by its
/// number, with a blank line between them.
pub proof fn law_states_read(goals: Seq<Seq<char>>, blocks: Seq<Seq<char>>)
    requires
        blocks.len() == goals.len(),
        forall|i: int|
            0 <= i < goals.len() ==> #[trigger] blocks[i] == "goal["@ + decimal(i as nat) + "]:\n"@
                + goals[i],
    ensures
        goals.len() == 0 ==> state_text(goals) == "no goals"@,
        goals.len() == 1 ==> state_text(goals) == goals[0],
        goals.len() >= 2 ==> state_text(goals) == joined(blocks, "\n\n"@),
{
    assert(numbered_goals(goals) =~= blocks);
}

/// A listing shows its targets in order and one at a time. It starts with the first; a goal that
/// is shown leads to the next one; a failure ends it with Lean's message; and once it is at its
/// end, nothing more counts.
pub proof fn law_listing_goes_goal_by_goal<T>(
    targets: Seq<Target>,
    listing: ListingModel<T>,
    item: T,
    message: String,
    result: Result<T, String>,
)
    ensures
        ListingModel::<T>::start(targets).targets == targets,
        ListingModel::<T>::start(targets).shown.len() == 0,
        ListingModel::<T>::start(targets).failure is None,
        listing.next() is Some <==> listing.failure is None && listing.shown.len()
            < listing.targets.len(),
        listing.next() is Some ==> listing.next()->0 == listing.targets[listing.shown.len() as int],
        listing.next() is Some ==> listing.after(Ok(item)) == (ListingModel {
            targets: listing.targets,
            shown: listing.shown + seq![item],
            failure: None,
        }),
        listing.next() is Some ==> listing.after(Err(message)) == (ListingModel {
            targets: listing.targets,
            shown: listing.shown,
            failure: Some(ErrorModel::Lean { message: message@ }),
        }),
        listing.next() is None ==> listing.after(result) == listing,
{
}

/// Several results count one after another.
pub proof fn law_results_count_in_turn<T>(
    listing: ListingModel<T>,
    results: Seq<Result<T, String>>,
    result: Result<T, String>,
)
    ensures
        listing.after_all(Seq::empty()) == listing,
        listing.after_all(results.push(result)) == listing.after_all(results).after(result),
{
    assert(results.push(result).drop_last() =~= results);
}

/// What it is to show all goals, and to fail on one: every result is a success and holds the goal
/// in its place; or the reported one is a failure before which nothing failed.
pub proof fn law_all_goals_or_the_first_failure<T>(
    shown: Seq<Result<T, String>>,
    goals: Seq<T>,
    e: ReplError,
    i: int,
)
    ensures
        all_shown(shown, goals) <==> {
            &&& shown.len() == goals.len()
            &&& forall|j: int|
                0 <= j < shown.len() ==> (#[trigger] shown[j]) == Ok::<T, String>(goals[j])
        },
        0 <= i < shown.len() && shown[i] is Err && (forall|j: int|
            0 <= j < i ==> (#[trigger] shown[j]) is Ok) ==> (first_failure(shown, e) <==> (
        e matches ReplError::Lean { message } && message@ == shown[i]->Err_0@)),
        (forall|j: int| 0 <= j < shown.len() ==> (#[trigger] shown[j]) is Ok) ==> !first_failure(
            shown,
            e,
        ),
{
}

/// Results answer for a number of goals if there is one for each, or fewer that end in a failure.
pub proof fn law_what_answers_for_goals<T>(shown: Seq<Result<T, String>>, count: nat)
    ensures
        shown.len() == count ==> answers(shown, count),
        shown.len() > count ==> !answers(shown, count),
        shown.len() < count ==> (answers(shown, count) <==> shown.len() > 0 && shown[shown.len() - 1]
            is Err),
{
}

/// The texts of printed goals are the texts that were printed, in order.
pub proof fn law_printed_texts(printed: Seq<Result<String, String>>, i: int)
    requires
        0 <= i < printed.len(),
        printed[i] is Ok,
    ensures
        printed_texts(printed).len() == printed.len(),
        printed_texts(printed)[i] == printed[i]->Ok_0@,
{
}

} // verus!
