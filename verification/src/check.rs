//! `check` queries: the type of a term, in the root context or in the context of a goal.
//!
//! A bare constant shows its declared type. Any other term is elaborated as a local declaration
//! in the context of the goal, and its type is read off the goal that is left. A constant counts
//! as such only if no hypothesis of the goal takes its name.
use vstd::prelude::*;

use leo3::meta::LeanEnvironment;
use leo3::LeanUnbound;

use crate::environment::{constants, lookup, name_components, names_constant};
use crate::error::ReplError;
use crate::history::Operation;
use crate::repl::{GoalId, MetaId, Repl, ReplModel};
use crate::text::{chars_of, decimal, decimal_string, lemma_decimal_injective};

verus! {

/// Where a term is looked at: the goal whose hypotheses are in scope, if any, and the snapshot
/// of the elaborator's state to start from, if there is one.
#[derive(Clone, Copy, Debug, PartialEq, Eq, Structural)]
pub struct CheckContext {
    pub goal: Option<GoalId>,
    pub meta_state: Option<MetaId>,
}

/// How a query is answered.
#[derive(Clone, Copy, Debug, PartialEq, Eq, Structural)]
pub enum CheckPlan {
    /// The term is a constant: show its declared type.
    Declared,
    /// Declare the term locally in the goal (in a fresh goal `True` where there is none) and read
    /// the last hypothesis of the first goal that is left.
    Elaborate,
}

/// What is left to do for a query whose context and hypotheses are known.
#[derive(Clone, Debug, PartialEq, Eq)]
pub enum CheckStep {
    /// Show the declared type of the constant.
    ShowDeclared,
    /// Run the tactic on the goal and read the answer off what is left.
    RunTactic { tactic: String },
}

/// `term` without the dots that it starts with.
pub open spec fn without_leading_dots(term: Seq<char>) -> Seq<char>
    decreases term.len(),
{
    if term.len() > 0 && term[0] == '.' {
        without_leading_dots(term.drop_first())
    } else {
        term
    }
}

/// A local declaration of this name takes the place of the global constant that `term` would
/// name: it is the whole term or the part of it before one of its dots. Leading dots count for
/// nothing, except that they let an empty name match.
pub open spec fn name_shadows(name: Seq<char>, term: Seq<char>) -> bool {
    let path = without_leading_dots(term);
    ||| (term.len() > 0 && term[0] == '.' && name.len() == 0)
    ||| exists|k: int| is_name_end(path, k) && name == #[trigger] path.take(k)
}

/// `k` is the place of a dot of `path`, or its end.
pub open spec fn is_name_end(path: Seq<char>, k: int) -> bool {
    0 <= k <= path.len() && (k == path.len() || path[k] == '.')
}

/// Some hypothesis is called `name`.
pub open spec fn has_hypothesis(hyps: Seq<(String, String)>, name: Seq<char>) -> bool {
    exists|i: int| 0 <= i < hyps.len() && (#[trigger] hyps[i]).0@ == name
}

/// Some hypothesis shadows `term`.
pub open spec fn shadowed(hyps: Seq<(String, String)>, term: Seq<char>) -> bool {
    exists|i: int| 0 <= i < hyps.len() && name_shadows((#[trigger] hyps[i]).0@, term)
}

/// Whether some hypothesis is called `name`.
fn find_hypothesis(hyps: &Vec<(String, String)>, name: &str) -> (r: bool)
    ensures
        r == has_hypothesis(hyps@, name@),
{
    let wanted = name.to_owned();
    let mut i: usize = 0;
    while i < hyps.len()
        invariant
            i <= hyps.len(),
            wanted@ == name@,
            forall|j: int| 0 <= j < i ==> (#[trigger] hyps@[j]).0@ != name@,
        decreases hyps.len() - i,
    {
        if hyps[i].0 == wanted {
            return true;
        }
        i = i + 1;
    }
    false
}

/// Dropping the first `k` characters, all dots, drops leading dots only.
proof fn lemma_leading_dots(term: Seq<char>, k: int)
    requires
        0 <= k <= term.len(),
        forall|j: int| 0 <= j < k ==> term[j] == '.',
        k == term.len() || term[k] != '.',
    ensures
        without_leading_dots(term) == term.skip(k),
    decreases k,
{
    if k == 0 {
        assert(term.skip(0) =~= term);
    } else {
        lemma_leading_dots(term.drop_first(), k - 1);
        assert(term.drop_first().skip(k - 1) =~= term.skip(k));
    }
}

/// Whether a hypothesis shadows the name `term`, or a prefix of it: a local `List` also shadows
/// `List.map`.
pub fn is_shadowed(hyps: &Vec<(String, String)>, term: &str) -> (r: bool)
    ensures
        r == shadowed(hyps@, term@),
{
    let chars = chars_of(term);
    let mut start: usize = 0;
    while start < chars.len() && chars[start] == '.'
        invariant
            chars@ == term@,
            start <= chars.len(),
            forall|j: int| 0 <= j < start ==> term@[j] == '.',
        decreases chars.len() - start,
    {
        start = start + 1;
    }
    let ghost path = without_leading_dots(term@);
    proof {
        lemma_leading_dots(term@, start as int);
    }
    if start > 0 && find_hypothesis(hyps, "") {
        proof {
            reveal_strlit("");
        }
        return true;
    }
    let mut end: usize = start;
    loop
        invariant
            chars@ == term@,
            start <= end <= chars.len(),
            path == without_leading_dots(term@),
            path == term@.skip(start as int),
            forall|k: int| 0 <= k < end - start && is_name_end(path, k) ==> !has_hypothesis(
                hyps@,
                #[trigger] path.take(k),
            ),
        ensures
            forall|k: int| is_name_end(path, k) ==> !has_hypothesis(
                hyps@,
                #[trigger] path.take(k),
            ),
        decreases chars.len() - end,
    {
        if end == chars.len() || chars[end] == '.' {
            let prefix = term.substring_char(start, end);
            proof {
                assert(prefix@ =~= path.take(end - start));
            }
            if find_hypothesis(hyps, prefix) {
                proof {
                    let i = choose|i: int|
                        0 <= i < hyps@.len() && (#[trigger] hyps@[i]).0@ == prefix@;
                    assert(is_name_end(path, end - start));
                    assert(name_shadows(hyps@[i].0@, term@));
                }
                return true;
            }
        }
        if end == chars.len() {
            break;
        }
        end = end + 1;
    }
    proof {
        assert forall|i: int| 0 <= i < hyps@.len() implies !name_shadows(
            (#[trigger] hyps@[i]).0@,
            term@,
        ) by {
            if name_shadows(hyps@[i].0@, term@) {
                if exists|k: int| is_name_end(path, k) && hyps@[i].0@ == #[trigger] path.take(k) {
                    let k = choose|k: int|
                        is_name_end(path, k) && hyps@[i].0@ == #[trigger] path.take(k);
                    assert(has_hypothesis(hyps@, path.take(k)));
                } else {
                    reveal_strlit("");
                    assert(hyps@[i].0@ =~= ""@);
                    assert(has_hypothesis(hyps@, ""@));
                }
            }
        }
    }
    false
}

/// The name of the local declaration of the `n`-th elaborated term.
pub open spec fn check_name_text(n: nat) -> Seq<char> {
    "h_leotower_check_"@ + decimal(n)
}

/// The tactic that declares `term` locally.
pub open spec fn check_tactic_text(n: nat, term: Seq<char>) -> Seq<char> {
    "have "@ + check_name_text(n) + " := "@ + term
}

/// The answer to a query.
pub open spec fn check_text(term: Seq<char>, ty: Seq<char>) -> Seq<char> {
    term + " : "@ + ty
}

impl<E> Repl<E> {
    /// Resolves the context of a query: the named goal of the named state, or the root context
    /// where no state is named. The root context starts from state 0 once there is one.
    pub fn check_context(&self, state: Option<u64>, goal_idx: Option<usize>) -> (r: Result<
        CheckContext,
        ReplError,
    >)
        ensures
            match state {
                Some(s) => match r {
                    Ok(context) => self@.has_goal(s, goal_idx) && context == (CheckContext {
                        goal: Some(self@.target(s, goal_idx).goal),
                        meta_state: Some(self@.target(s, goal_idx).meta_state),
                    }),
                    Err(e) => self@.refuses(s, goal_idx, e),
                },
                None => r == Ok::<CheckContext, ReplError>(
                    CheckContext {
                        goal: None,
                        meta_state: if self@.states.len() > 0 {
                            Some(self@.states[0].meta_state)
                        } else {
                            None
                        },
                    },
                ),
            },
    {
        match state {
            Some(s) => match self.target(s, goal_idx) {
                Ok(t) => Ok(CheckContext { goal: Some(t.goal), meta_state: Some(t.meta_state) }),
                Err(e) => Err(e),
            },
            None => Ok(CheckContext { goal: None, meta_state: self.root_meta_state() }),
        }
    }

    /// The tactic that declares `term` locally. The counter of elaborated terms goes up by one,
    /// which makes the name of the declaration fresh; no replay state changes.
    pub fn check_tactic(&mut self, term: &str) -> (r: String)
        requires
            old(self)@.check_counter < u64::MAX,
        ensures
            r@ == check_tactic_text(final(self)@.check_counter as nat, term@),
            final(self)@ == (ReplModel {
                check_counter: (old(self)@.check_counter + 1) as u64,
                ..old(self)@
            }),
            final(self)@ == old(self)@.after(Operation::Check { plan: CheckPlan::Elaborate }),
    {
        let n: u64 = self.next_check();
        let name = "h_leotower_check_".to_owned().concat(decimal_string(n).as_str());
        "have ".to_owned().concat(name.as_str()).concat(" := ").concat(term)
    }
}

/// Decides how a query is answered: a constant that nothing shadows shows its declared type, any
/// other term is elaborated.
pub fn check_plan(is_shadowed: bool, is_constant: bool) -> (r: CheckPlan)
    ensures
        r == (if is_constant && !is_shadowed {
            CheckPlan::Declared
        } else {
            CheckPlan::Elaborate
        }),
{
    if is_constant && !is_shadowed {
        CheckPlan::Declared
    } else {
        CheckPlan::Elaborate
    }
}

/// How a query for `term` is answered. A term is a bare constant where the environment has a
/// constant of that name and no hypothesis of the goal (`None` for the root context) shadows it.
pub open spec fn plan_model(
    env: LeanUnbound<LeanEnvironment>,
    term: Seq<char>,
    hyps: Option<&Vec<(String, String)>>,
) -> CheckPlan {
    if hyps is Some && shadowed(hyps->0@, term) {
        CheckPlan::Elaborate
    } else if !term.contains('\0') && lookup(env, term) is Some {
        CheckPlan::Declared
    } else {
        CheckPlan::Elaborate
    }
}

/// Decides how a query for `term` is answered in an environment, given the hypotheses of the goal
/// that it is asked in (`None` for the root context). A constant is only looked for where no
/// hypothesis shadows it; a text that is no name is elaborated.
pub fn plan_check(
    env: &LeanUnbound<LeanEnvironment>,
    term: &str,
    hyps: Option<&Vec<(String, String)>>,
) -> (r: CheckPlan)
    ensures
        r == plan_model(*env, term@, hyps),
        r == CheckPlan::Declared <==> constants(*env).dom().contains(name_components(term@))
            && !term@.contains('\0') && !(hyps is Some && shadowed(hyps->0@, term@)),
{
    let is_shadowed = match hyps {
        Some(list) => is_shadowed(list, term),
        None => false,
    };
    let is_constant = !is_shadowed && names_constant(env, term);
    check_plan(is_shadowed, is_constant)
}

impl<E> Repl<E> {
    /// What is left to do for a query that is answered by `plan`: for a term that has to be
    /// elaborated the counter goes up by one. `None`, with the session unchanged, if there is no
    /// number left to count it with.
    pub fn check_step(&mut self, term: &str, plan: CheckPlan) -> (r: Option<CheckStep>)
        ensures
            old(self)@.check_step_is(final(self)@, term@, plan, r),
            final(self)@ == old(self)@.after(Operation::Check { plan }),
    {
        match plan {
            CheckPlan::Declared => Some(CheckStep::ShowDeclared),
            CheckPlan::Elaborate => if self.checks() < u64::MAX {
                Some(CheckStep::RunTactic { tactic: self.check_tactic(term) })
            } else {
                None
            },
        }
    }
}

impl Repl<LeanUnbound<LeanEnvironment>> {
    /// Decides what is left to do for a query in the session's environment, given the hypotheses
    /// of the goal that it is asked in (`None` for the root context). No replay state changes; the
    /// counter of elaborated terms goes up only where the term has to be elaborated. `None`, with
    /// the session unchanged, if there is no number left to count it with.
    pub fn check(&mut self, term: &str, hyps: Option<&Vec<(String, String)>>) -> (r: Option<
        CheckStep,
    >)
        ensures
            old(self)@.check_step_is(
                final(self)@,
                term@,
                plan_model(old(self)@.env.environment, term@, hyps),
                r,
            ),
            final(self)@ == old(self)@.after(
                Operation::Check { plan: plan_model(old(self)@.env.environment, term@, hyps) },
            ),
    {
        let plan = plan_check(self.environment(), term, hyps);
        self.check_step(term, plan)
    }
}

impl<E> ReplModel<E> {
    /// What is left to do for a query for `term` that is answered by `plan` is `step`, and the
    /// session is then `after`.
    pub open spec fn check_step_is(
        self,
        after: ReplModel<E>,
        term: Seq<char>,
        plan: CheckPlan,
        step: Option<CheckStep>,
    ) -> bool {
        match plan {
            CheckPlan::Declared => step == Some(CheckStep::ShowDeclared) && after == self,
            CheckPlan::Elaborate => if self.check_counter < u64::MAX {
                &&& step matches Some(CheckStep::RunTactic { tactic }) && tactic@
                    == check_tactic_text((self.check_counter + 1) as nat, term)
                &&& after == (ReplModel {
                    check_counter: (self.check_counter + 1) as u64,
                    ..self
                })
            } else {
                step is None && after == self
            },
        }
    }
}

/// The answer to a query, from the type as Lean prints it.
pub fn check_answer(term: &str, ty: &str) -> (r: String)
    ensures
        r@ == check_text(term@, ty@),
{
    term.to_owned().concat(" : ").concat(ty)
}

/// The answer to a query whose term was elaborated: the type of the last hypothesis of the first
/// goal that was left. `left` holds the hypotheses of that goal, `None` if no goal was left.
pub fn check_elaborated(term: &str, left: Option<&Vec<(String, String)>>) -> (r: Result<
    String,
    ReplError,
>)
    ensures
        match left {
            None => r == Err::<String, ReplError>(ReplError::CheckLeftNoGoal),
            Some(hyps) => if hyps@.len() == 0 {
                r == Err::<String, ReplError>(ReplError::CheckLeftNoHypothesis)
            } else {
                r matches Ok(answer) && answer@ == check_text(term@, hyps@.last().1@)
            },
        },
{
    match left {
        None => Err(ReplError::CheckLeftNoGoal),
        Some(hyps) => {
            if hyps.len() == 0 {
                return Err(ReplError::CheckLeftNoHypothesis);
            }
            Ok(check_answer(term, hyps[hyps.len() - 1].1.as_str()))
        },
    }
}

/// The local declarations of two queries never share a name.
pub proof fn law_check_names_are_fresh(m: nat, n: nat)
    requires
        m != n,
    ensures
        check_name_text(m) != check_name_text(n),
{
    if check_name_text(m) == check_name_text(n) {
        let head = "h_leotower_check_"@;
        assert(check_name_text(m).skip(head.len() as int) =~= decimal(m));
        assert(check_name_text(n).skip(head.len() as int) =~= decimal(n));
        lemma_decimal_injective(m, n);
    }
}

/// A local declaration shadows its own name, and every qualified name that starts with it: a
/// local `List` shadows `List` and `List.map`.
pub proof fn law_prefix_shadows(name: Seq<char>, rest: Seq<char>)
    requires
        name.len() > 0,
        name[0] != '.',
    ensures
        name_shadows(name, name),
        name_shadows(name, name + "."@ + rest),
{
    reveal_strlit(".");
    let path = name + "."@ + rest;
    assert(without_leading_dots(name) == name);
    assert(is_name_end(name, name.len() as int));
    assert(without_leading_dots(name).take(name.len() as int) =~= name);
    assert(path[0] == name[0]);
    assert(without_leading_dots(path) == path);
    assert(is_name_end(path, name.len() as int));
    assert(without_leading_dots(path).take(name.len() as int) =~= name);
}

/// A term without dots is shadowed by a declaration of just that name.
pub proof fn law_plain_name_shadows_itself_only(name: Seq<char>, term: Seq<char>)
    requires
        !term.contains('.'),
    ensures
        name_shadows(name, term) <==> name == term,
{
    if term.len() > 0 {
        assert(term[0] != '.');
    }
    let path = without_leading_dots(term);
    assert(path == term);
    assert(path.take(term.len() as int) =~= term);
    assert(is_name_end(path, term.len() as int));
    assert forall|k: int| is_name_end(term, k) implies k == term.len() by {
        if k < term.len() {
            assert(term[k] == '.');
        }
    }
}

/// A bare constant is answered alike everywhere: where no hypothesis of the goal shadows it, its
/// declared type is shown as in the root context, in every session with that environment, whatever
/// its states and counter are, and the session is unchanged.
pub proof fn law_constants_do_not_depend_on_the_goal(
    repl: ReplModel<LeanUnbound<LeanEnvironment>>,
    after: ReplModel<LeanUnbound<LeanEnvironment>>,
    term: Seq<char>,
    hyps: &Vec<(String, String)>,
    step: Option<CheckStep>,
)
    requires
        !term.contains('\0'),
        lookup(repl.env.environment, term) is Some,
        !shadowed(hyps@, term),
    ensures
        plan_model(repl.env.environment, term, Some(hyps)) == CheckPlan::Declared,
        plan_model(repl.env.environment, term, None) == CheckPlan::Declared,
        repl.check_step_is(after, term, plan_model(repl.env.environment, term, Some(hyps)), step)
            <==> step == Some(CheckStep::ShowDeclared) && after == repl,
        repl.check_step_is(after, term, plan_model(repl.env.environment, term, None), step)
            <==> step == Some(CheckStep::ShowDeclared) && after == repl,
{
}

/// A query changes nothing but the counter: the states, the environment and the running parts
/// stay.
pub proof fn law_check_changes_only_the_counter<E>(
    repl: ReplModel<E>,
    after: ReplModel<E>,
    term: Seq<char>,
    plan: CheckPlan,
    step: Option<CheckStep>,
)
    requires
        repl.check_step_is(after, term, plan, step),
    ensures
        after == (ReplModel { check_counter: after.check_counter, ..repl }),
        repl.check_counter <= after.check_counter <= repl.check_counter + 1,
{
}

/// A term is answered by its declared type exactly if the environment has a constant under its
/// components, it holds no NUL character, and no hypothesis of the goal shadows it. In every other
/// case it is elaborated.
pub proof fn law_only_constants_show_a_declared_type(
    env: LeanUnbound<LeanEnvironment>,
    term: Seq<char>,
    hyps: &Vec<(String, String)>,
)
    ensures
        ({
            let known = constants(env).dom().contains(name_components(term)) && !term.contains(
                '\0',
            );
            &&& plan_model(env, term, None) == CheckPlan::Declared <==> known
            &&& plan_model(env, term, None) == CheckPlan::Elaborate <==> !known
            &&& plan_model(env, term, Some(hyps)) == CheckPlan::Declared <==> known && !shadowed(
                hyps@,
                term,
            )
            &&& plan_model(env, term, Some(hyps)) == CheckPlan::Elaborate <==> !known || shadowed(
                hyps@,
                term,
            )
        }),
{
}

/// Removing leading dots removes all of them and nothing else.
proof fn lemma_dots_removed(term: Seq<char>)
    ensures
        term.len() == 0 || term[0] != '.' ==> without_leading_dots(term) == term,
        term.len() > 0 && term[0] == '.' ==> without_leading_dots(term) == without_leading_dots(
            term.drop_first(),
        ),
{
}

/// What a name shadows, in full. In a term that does not start with a dot, a name shadows the term
/// itself and what it qualifies, that is itself followed by a dot and anything. A leading dot
/// counts for nothing, except that it lets an empty name shadow.
pub proof fn law_what_a_name_shadows(name: Seq<char>, term: Seq<char>)
    ensures
        term.len() == 0 || term[0] != '.' ==> (name_shadows(name, term) <==> name == term || (exists|
            rest: Seq<char>,
        | term == #[trigger] (name + seq!['.'] + rest))),
        name_shadows(name, seq!['.'] + term) <==> name.len() == 0 || name_shadows(name, term),
{
    let path = without_leading_dots(term);
    lemma_dots_removed(term);
    if term.len() == 0 || term[0] != '.' {
        assert(path == term);
        if name_shadows(name, term) {
            let k = choose|k: int| is_name_end(path, k) && name == #[trigger] path.take(k);
            if k == term.len() {
                assert(name =~= term);
            } else {
                let rest = term.skip(k + 1);
                assert(term =~= name + seq!['.'] + rest);
            }
        }
        if name == term {
            assert(is_name_end(path, term.len() as int));
            assert(path.take(term.len() as int) =~= name);
        }
        if exists|rest: Seq<char>| term == #[trigger] (name + seq!['.'] + rest) {
            let rest = choose|rest: Seq<char>| term == #[trigger] (name + seq!['.'] + rest);
            assert(term[name.len() as int] == '.');
            assert(is_name_end(path, name.len() as int));
            assert(path.take(name.len() as int) =~= name);
        }
    }
    let dotted = seq!['.'] + term;
    lemma_dots_removed(dotted);
    assert(dotted[0] == '.');
    assert(dotted.drop_first() =~= term);
    assert(without_leading_dots(dotted) == path);
}

/// A term is shadowed if and only if the name of some hypothesis shadows it; the types of the
/// hypotheses and their order do not matter.
pub proof fn law_hypotheses_shadow_by_name(
    hyps: Seq<(String, String)>,
    term: Seq<char>,
    more: (String, String),
)
    ensures
        shadowed(Seq::empty(), term) == false,
        shadowed(hyps.push(more), term) <==> shadowed(hyps, term) || name_shadows(more.0@, term),
        shadowed(hyps, term) <==> exists|i: int|
            0 <= i < hyps.len() && name_shadows((#[trigger] hyps[i]).0@, term),
        has_hypothesis(hyps, term) <==> exists|i: int|
            0 <= i < hyps.len() && (#[trigger] hyps[i]).0@ == term,
{
    let all = hyps.push(more);
    if shadowed(hyps, term) {
        let i = choose|i: int| 0 <= i < hyps.len() && name_shadows((#[trigger] hyps[i]).0@, term);
        assert(all[i] == hyps[i]);
    }
    if name_shadows(more.0@, term) {
        assert(all[hyps.len() as int] == more);
    }
    if shadowed(all, term) {
        let i = choose|i: int| 0 <= i < all.len() && name_shadows((#[trigger] all[i]).0@, term);
        if i < hyps.len() {
            assert(hyps[i] == all[i]);
        }
    }
}

/// What is left to do for a query: for a constant its declared type is shown and the session is
/// unchanged; any other term is declared by `have h_leotower_check_n := term`, with the next
/// number `n`, and only the counter goes up; with no number left nothing happens.
pub proof fn law_elaborated_terms_are_numbered<E>(
    repl: ReplModel<E>,
    after: ReplModel<E>,
    term: Seq<char>,
    step: Option<CheckStep>,
)
    ensures
        repl.check_step_is(after, term, CheckPlan::Declared, step) <==> step
            == Some(CheckStep::ShowDeclared) && after == repl,
        repl.check_counter < u64::MAX ==> (repl.check_step_is(
            after,
            term,
            CheckPlan::Elaborate,
            step,
        ) <==> {
            &&& step matches Some(CheckStep::RunTactic { tactic }) && tactic@
                == "have h_leotower_check_"@ + decimal((repl.check_counter + 1) as nat) + " := "@
                + term
            &&& after.check_counter == repl.check_counter + 1
            &&& after.states == repl.states
            &&& after.parts == repl.parts
            &&& after.env == repl.env
        }),
        repl.check_counter == u64::MAX ==> (repl.check_step_is(
            after,
            term,
            CheckPlan::Elaborate,
            step,
        ) <==> step is None && after == repl),
{
    reveal_strlit("have ");
    reveal_strlit("h_leotower_check_");
    reveal_strlit("have h_leotower_check_");
    let n = (repl.check_counter + 1) as nat;
    assert("have "@ + "h_leotower_check_"@ =~= "have h_leotower_check_"@);
    assert(check_tactic_text(n, term) =~= "have h_leotower_check_"@ + decimal(n) + " := "@ + term);
}

/// An answer reads `term : type`, and the local declarations are numbered.
pub proof fn law_answers_read(term: Seq<char>, ty: Seq<char>, n: nat)
    ensures
        check_text(term, ty) == term + " : "@ + ty,
        check_name_text(n) == "h_leotower_check_"@ + decimal(n),
        check_tactic_text(n, term) == "have "@ + "h_leotower_check_"@ + decimal(n) + " := "@ + term,
{
    assert(check_tactic_text(n, term) =~= "have "@ + "h_leotower_check_"@ + decimal(n) + " := "@
        + term);
}

} // verus!
