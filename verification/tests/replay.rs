use leotower::display::show_state;
use leotower::import::{OpenEvent, OpenStep, Opening};
use leotower::regions::{ImportDiff, Region, ReleaseStep};
use leotower::repl::{root_tactic, GoalId, MetaId, PartsId, Running, Target, TacticOutcome};
use leotower::sequence::TacticSequence;
use leotower::{Goal, Repl, ReplError};

fn goal(index: u64) -> GoalId {
    GoalId { index }
}

fn meta(index: u64) -> MetaId {
    MetaId { index }
}

fn running(environment: u64, parts: u64) -> Running<u64> {
    Running { environment, parts: PartsId { index: parts } }
}

fn ok(goals: &[u64], meta_index: u64) -> Result<TacticOutcome<u64>, String> {
    Ok(TacticOutcome {
        goals: goals.iter().map(|i| goal(*i)).collect(),
        meta_state: meta(meta_index),
        running: running(1000 + meta_index, 2000 + meta_index),
    })
}

fn failed(message: &str) -> Result<TacticOutcome<u64>, String> {
    Err(message.to_string())
}

fn remapped() -> OpenEvent<u64> {
    OpenEvent::Remapped { regions: Ok(()) }
}

fn imported(environment: u64) -> OpenEvent<u64> {
    OpenEvent::Imported { environment: Ok(environment) }
}

fn ran(environment: u64) -> OpenEvent<u64> {
    OpenEvent::Ran { environment: Ok(environment) }
}

fn set_up(window: Option<ImportDiff>) -> OpenEvent<u64> {
    OpenEvent::SetUp { window, parts: Ok(PartsId { index: 0 }) }
}

fn opening(module: Option<&str>, events: Vec<OpenEvent<u64>>) -> Opening<u64> {
    let start = Opening::start(module.map(|m| m.to_string()));
    events.into_iter().fold(start, |opening, event| opening.advance(event))
}

fn open(module: Option<&str>, events: Vec<OpenEvent<u64>>) -> Option<Result<Repl<u64>, ReplError>> {
    Repl::new(opening(module, events))
}

fn refusal(module: Option<&str>, events: Vec<OpenEvent<u64>>) -> String {
    match open(module, events) {
        Some(Err(e)) => e.message(),
        _ => panic!("not refused"),
    }
}

fn session() -> Repl<u64> {
    open(None, vec![remapped(), imported(7), set_up(None)]).expect("done").expect("open")
}

fn ids(repl: &Repl<u64>, state: u64) -> Vec<u64> {
    repl.goal_ids(state).expect("a state").iter().map(|g| g.index).collect()
}

#[test]
fn induction_is_replayed_in_any_order() {
    let mut repl = session();
    let s0 = repl.set_goal(ok(&[10], 0)).unwrap();
    assert_eq!(s0, 0);
    assert_eq!(repl.get_num_goals(s0), Ok(1));
    let s1 = repl.run_tac(s0, None, ok(&[11], 1)).unwrap();
    assert_eq!(repl.get_num_goals(s1), Ok(1));
    let s2 = repl.run_tac(s1, None, ok(&[12, 13], 2)).unwrap();
    assert_eq!(repl.get_num_goals(s2), Ok(2));
    let s3 = repl.run_tac(s2, Some(1), ok(&[], 3)).unwrap();
    assert_eq!(repl.get_num_goals(s3), Ok(1));
    assert_eq!(ids(&repl, s3), vec![12]);
    let s4 = repl.run_tac(s3, Some(0), ok(&[], 4)).unwrap();
    assert_eq!(repl.get_num_goals(s4), Ok(0));
    assert_eq!(repl.num_states(), 5);
    assert_eq!(ids(&repl, s2), vec![12, 13]);
}

#[test]
fn unworked_goals_come_before_produced_ones() {
    let mut repl = session();
    repl.set_goal(ok(&[1, 2, 3, 4], 0)).unwrap();
    let next = repl.run_tac(0, Some(1), ok(&[7, 8], 1)).unwrap();
    assert_eq!(ids(&repl, next), vec![1, 3, 4, 7, 8]);
}

#[test]
fn two_goals_can_be_closed_in_either_order() {
    let mut repl = session();
    repl.set_goal(ok(&[1, 2, 3], 0)).unwrap();
    let a = repl.run_tac(0, Some(0), ok(&[], 1)).unwrap();
    let a = repl.run_tac(a, Some(1), ok(&[], 2)).unwrap();
    let b = repl.run_tac(0, Some(2), ok(&[], 3)).unwrap();
    let b = repl.run_tac(b, Some(0), ok(&[], 4)).unwrap();
    assert_eq!(ids(&repl, a), ids(&repl, b));
    assert_eq!(ids(&repl, a), vec![2]);
}

#[test]
fn branches_start_from_their_own_snapshot() {
    let mut repl = session();
    repl.set_goal(ok(&[1], 40)).unwrap();
    let left = repl.run_tac(0, None, ok(&[2], 41)).unwrap();
    let right = repl.run_tac(0, None, ok(&[3], 42)).unwrap();
    assert_eq!((left, right), (1, 2));
    assert_eq!(repl.target(0, None), Ok(Target { goal: goal(1), meta_state: meta(40) }));
    assert_eq!(repl.target(1, Some(0)), Ok(Target { goal: goal(2), meta_state: meta(41) }));
    assert_eq!(repl.target(2, None), Ok(Target { goal: goal(3), meta_state: meta(42) }));
}

#[test]
fn a_second_root_leaves_the_first_alone() {
    let mut repl = session();
    assert_eq!(repl.set_goal(ok(&[1], 0)), Ok(0));
    assert_eq!(repl.set_goal(ok(&[5, 6], 1)), Ok(1));
    assert_eq!(ids(&repl, 0), vec![1]);
    assert_eq!(ids(&repl, 1), vec![5, 6]);
}

#[test]
fn a_failed_goal_adds_nothing() {
    let mut repl = session();
    let r = repl.set_goal(failed("type error"));
    assert_eq!(r, Err(ReplError::Lean { message: "type error".to_string() }));
    assert_eq!(repl.num_states(), 0);
}

#[test]
fn an_unknown_state_is_refused_with_the_valid_range() {
    let mut repl = session();
    let e = repl.get_num_goals(3).unwrap_err();
    assert_eq!(e, ReplError::UnknownState { state: 3, len: 0 });
    assert_eq!(e.message(), "unknown state 3 (no states yet; call set_goal first)");
    repl.set_goal(ok(&[1], 0)).unwrap();
    repl.set_goal(ok(&[2], 0)).unwrap();
    let e = repl.run_tac(2, None, ok(&[], 1)).unwrap_err();
    assert_eq!(e.message(), "unknown state 2 (valid states: 0..=1)");
    assert_eq!(repl.goal_ids(u64::MAX).unwrap_err(), ReplError::UnknownState {
        state: u64::MAX,
        len: 2,
    });
    assert_eq!(repl.num_states(), 2);
}

#[test]
fn a_missing_goal_is_refused() {
    let mut repl = session();
    repl.set_goal(ok(&[1, 2], 0)).unwrap();
    let e = repl.run_tac(0, Some(5), ok(&[], 1)).unwrap_err();
    assert_eq!(e, ReplError::NoGoal { index: 5, state: 0, goals: 2 });
    assert_eq!(e.message(), "no goal at index 5 in state 0 (state has 2 goals)");
    assert_eq!(repl.target(0, Some(5)), Err(e));
    assert_eq!(repl.num_states(), 1);
}

#[test]
fn a_failed_tactic_leaves_the_session_usable() {
    let mut repl = session();
    repl.set_goal(ok(&[1], 0)).unwrap();
    let e = repl.run_tac(0, None, failed("tactic error: unsolved")).unwrap_err();
    assert_eq!(e.message(), "tactic error: unsolved");
    assert_eq!(repl.num_states(), 1);
    assert_eq!(repl.run_tac(0, None, ok(&[], 1)), Ok(1));
}

#[test]
fn trying_a_tactic_never_raises() {
    let mut repl = session();
    assert_eq!(repl.try_run_tac(0, None, ok(&[], 1)), (0, false));
    repl.set_goal(ok(&[1], 0)).unwrap();
    assert_eq!(repl.try_run_tac(0, None, failed("no")), (0, false));
    assert_eq!(repl.try_run_tac(0, Some(1), ok(&[], 1)), (0, false));
    assert_eq!(repl.num_states(), 1);
    assert_eq!(repl.try_run_tac(0, Some(0), ok(&[], 1)), (1, true));
    assert_eq!(repl.num_states(), 2);
}

#[test]
fn a_sequence_stops_after_the_last_success() {
    let mut repl = session();
    repl.set_goal(ok(&[1], 0)).unwrap();
    let runs = vec![ok(&[2], 1), ok(&[3], 2), failed("stuck"), ok(&[], 3)];
    assert_eq!(repl.try_run_tacs(0, None, runs), (2, false));
    assert_eq!(repl.num_states(), 3);
    assert_eq!(repl.try_run_tacs(2, None, vec![ok(&[], 4)]), (3, true));
    assert_eq!(repl.try_run_tacs(1, None, vec![]), (1, true));
    assert_eq!(repl.num_states(), 4);
}

#[test]
fn a_sequence_keeps_its_error() {
    let mut repl = session();
    repl.set_goal(ok(&[1], 0)).unwrap();
    let mut sequence = TacticSequence::new(0);
    assert_eq!(sequence.next_state(), Some(0));
    sequence.step(&mut repl, None, ok(&[], 1));
    assert_eq!(sequence.next_state(), Some(1));
    assert_eq!(sequence.reached(), (1, true));
    sequence.step(&mut repl, None, ok(&[], 2));
    assert_eq!(sequence.next_state(), None);
    sequence.step(&mut repl, None, ok(&[], 3));
    assert_eq!(sequence.reached(), (1, false));
    assert_eq!(sequence.finish(), Err(ReplError::NoGoal { index: 0, state: 1, goals: 0 }));
    assert_eq!(repl.num_states(), 2);
    let whole = TacticSequence::new(1);
    assert_eq!(whole.finish(), Ok(1));
}

#[test]
fn the_root_tactic_elaborates_the_type() {
    assert_eq!(
        root_tactic("∀ n m : Nat, n + m = m + n"),
        "suffices h : ∀ n m : Nat, n + m = m + n from True.intro"
    );
}

#[test]
fn a_module_is_imported_step_by_step() {
    let lean = || vec!["Mathlib".to_string()];
    let fresh: Opening<u64> = Opening::start(Some("Mathlib".to_string()));
    assert_eq!(fresh.next_step(), OpenStep::Remap { modules: lean() });
    assert_eq!(fresh.environment(), None);
    let next = fresh.advance(remapped());
    assert_eq!(next.next_step(), OpenStep::Import { modules: lean() });
    let next = next.advance(imported(3));
    assert_eq!(next.next_step(), OpenStep::SetUp);
    assert_eq!(next.environment(), Some(&3));
    let next = next.advance(set_up(None));
    assert_eq!(next.next_step(), OpenStep::Done);
    let repl = Repl::new(next).expect("done").expect("open");
    assert_eq!((repl.num_states(), repl.checks()), (0, 0));
    assert_eq!(*repl.environment(), 3);
    assert_eq!(repl.parts(), PartsId { index: 0 });
}

#[test]
fn the_commands_of_a_file_run_in_order() {
    let path = "proofs/Main.lean";
    let next: Opening<u64> = Opening::start(Some(path.to_string()));
    assert_eq!(next.next_step(), OpenStep::ReadFile { path: path.to_string() });
    let next = next.advance(OpenEvent::Read { source: Ok(()) });
    assert_eq!(next.next_step(), OpenStep::Remap { modules: vec!["Lean".to_string()] });
    let next = next.advance(remapped()).advance(imported(10));
    assert_eq!(next.next_step(), OpenStep::ParseFile { path: path.to_string() });
    let next = next.advance(OpenEvent::Parsed { commands: Ok(2) });
    assert_eq!(next.next_step(), OpenStep::RunCommand { index: 0 });
    assert_eq!(next.environment(), Some(&10));
    let next = next.advance(ran(11));
    assert_eq!(next.next_step(), OpenStep::RunCommand { index: 1 });
    assert_eq!(next.environment(), Some(&11));
    let next = next.advance(ran(12));
    assert_eq!(next.next_step(), OpenStep::SetUp);
    let repl = Repl::new(next.advance(set_up(None))).expect("done").expect("open");
    assert_eq!(*repl.environment(), 12);
}

#[test]
fn an_empty_file_leaves_the_imported_environment() {
    let events = vec![
        OpenEvent::Read { source: Ok(()) },
        remapped(),
        imported(10),
        OpenEvent::Parsed { commands: Ok(0) },
        set_up(None),
    ];
    let repl = open(Some("Empty.lean"), events).expect("done").expect("open");
    assert_eq!(*repl.environment(), 10);
}

#[test]
fn the_first_failed_step_refuses_the_session() {
    let file = Some("proofs/Main.lean");
    let read = || OpenEvent::Read { source: Ok(()) };
    assert_eq!(
        refusal(file, vec![OpenEvent::Read { source: Err("no such file".to_string()) }]),
        "cannot read proofs/Main.lean: no such file"
    );
    let errors = vec!["a: occupied".to_string(), "b: moved".to_string()];
    assert_eq!(
        refusal(Some("Mathlib"), vec![
            OpenEvent::Remapped { regions: Err(errors) },
            imported(1),
            set_up(None),
        ]),
        "cannot revive freed import regions before importing [\"Mathlib\"]: a: occupied; b: moved"
    );
    assert_eq!(
        refusal(file, vec![read(), OpenEvent::Remapped { regions: Err(Vec::new()) }]),
        "cannot revive freed import regions before importing [\"Lean\"]: "
    );
    let no_module = OpenEvent::Imported { environment: Err("unknown module".to_string()) };
    assert_eq!(refusal(Some("Nope"), vec![remapped(), no_module]), "unknown module");
    let unparsed = OpenEvent::Parsed { commands: Err("expected command".to_string()) };
    assert_eq!(
        refusal(file, vec![read(), remapped(), imported(1), unparsed]),
        "expected command"
    );
    let parsed = OpenEvent::Parsed { commands: Ok(3) };
    let stopped = OpenEvent::Ran { environment: Err("unknown identifier".to_string()) };
    assert_eq!(
        refusal(file, vec![read(), remapped(), imported(1), parsed, ran(2), stopped, ran(3)]),
        "unknown identifier"
    );
    let broken = OpenEvent::SetUp { window: None, parts: Err("no context".to_string()) };
    assert_eq!(refusal(None, vec![remapped(), imported(1), broken]), "no context");
}

#[test]
fn a_session_waits_for_every_step() {
    assert!(open(None, vec![]).is_none());
    assert!(open(None, vec![imported(1), set_up(None)]).is_none());
    assert!(open(Some("a.lean"), vec![remapped(), imported(1), set_up(None)]).is_none());
    let due = opening(None, vec![imported(1)]);
    assert_eq!(due.next_step(), OpenStep::Remap { modules: vec!["Lean".to_string()] });
}

#[test]
fn successes_install_what_they_left() {
    let added = vec![Region { id: 0, size_known: true }];
    let window = ImportDiff { added, identity_churn: false };
    let mut repl =
        open(None, vec![remapped(), imported(7), set_up(Some(window))]).unwrap().unwrap();
    repl.set_goal(ok(&[1], 5)).unwrap();
    assert_eq!(*repl.environment(), 1005);
    assert_eq!(repl.parts(), PartsId { index: 2005 });
    repl.run_tac(0, None, failed("no")).unwrap_err();
    repl.run_tac(3, None, ok(&[], 6)).unwrap_err();
    repl.check_tactic("1");
    assert_eq!(*repl.environment(), 1005);
    assert_eq!(repl.parts(), PartsId { index: 2005 });
    repl.run_tac(0, None, ok(&[], 8)).unwrap();
    assert_eq!(*repl.environment(), 1008);
    assert_eq!(repl.regions().after_count(Some(1)), ReleaseStep::Free);
    let regions = repl.into_regions();
    assert_eq!(*regions.environment(), 1008);
    let (environment, kept) = regions.release();
    assert_eq!(environment, 1008);
    assert_eq!(kept.after_count(Some(1)), ReleaseStep::Free);
}

#[test]
fn goals_are_listed_in_their_own_snapshot() {
    let g = |mvar: &str| Goal { hyps: Vec::new(), ty: "True".to_string(), mvar: mvar.to_string() };
    let mut repl = session();
    repl.set_goal(ok(&[1, 2], 30)).unwrap();
    repl.set_goal(ok(&[9], 31)).unwrap();
    let at = |index| Some(Target { goal: goal(index), meta_state: meta(30) });
    assert_eq!(repl.goal_targets(0).unwrap(), vec![at(1).unwrap(), at(2).unwrap()]);
    let mut listing = repl.list_goals::<Goal>(0).unwrap();
    assert_eq!(listing.next(), at(1));
    listing.take(Ok(g("m1")));
    assert_eq!(listing.next(), at(2));
    listing.take(Ok(g("m2")));
    assert_eq!(listing.next(), None);
    listing.take(Ok(g("m3")));
    assert_eq!(listing.finish(), Some(Ok(vec![g("m1"), g("m2")])));
    let mut listing = repl.list_goals::<Goal>(0).unwrap();
    listing.take(Err("first".to_string()));
    assert_eq!(listing.next(), None);
    listing.take(Err("second".to_string()));
    let first = ReplError::Lean { message: "first".to_string() };
    assert_eq!(listing.finish(), Some(Err(first)));
    assert_eq!(repl.list_goals::<Goal>(0).unwrap().finish(), None);
    assert_eq!(
        repl.list_goals::<Goal>(5).unwrap_err(),
        ReplError::UnknownState { state: 5, len: 2 }
    );
}

#[test]
fn a_tactic_can_be_run_again_after_other_branches() {
    let mut repl = session();
    repl.set_goal(ok(&[1, 2], 0)).unwrap();
    let before = repl.target(0, Some(1));
    let a = repl.run_tac(0, Some(1), ok(&[3, 4], 1)).unwrap();
    repl.run_tac(a, None, ok(&[], 2)).unwrap();
    repl.set_goal(ok(&[8], 3)).unwrap();
    assert_eq!(repl.target(0, Some(1)), before);
    let b = repl.run_tac(0, Some(1), ok(&[3, 4], 4)).unwrap();
    assert!(b > a);
    assert_eq!(ids(&repl, a), ids(&repl, b));
    assert_eq!(repl.get_num_goals(a), repl.get_num_goals(b));
}

#[test]
fn goals_are_shown_with_their_hypotheses() {
    let h = |n: &str, t: &str| (n.to_string(), t.to_string());
    let goal = Goal {
        hyps: vec![h("n", "Nat"), h("h", "n = n")],
        ty: "n + 0 = n".to_string(),
        mvar: "_uniq.1".to_string(),
    };
    assert_eq!(goal.show(), "n : Nat\nh : n = n\n⊢ n + 0 = n");
    let bare = Goal { hyps: Vec::new(), ty: "True".to_string(), mvar: String::new() };
    assert_eq!(bare.show(), "⊢ True");
}

#[test]
fn states_are_shown_by_number_of_goals() {
    assert_eq!(show_state(&Vec::new()), "no goals");
    assert_eq!(show_state(&vec!["⊢ a".to_string()]), "⊢ a");
    assert_eq!(
        show_state(&vec!["⊢ a".to_string(), "⊢ b".to_string(), "⊢ c".to_string()]),
        "goal[0]:\n⊢ a\n\ngoal[1]:\n⊢ b\n\ngoal[2]:\n⊢ c"
    );
}

#[test]
fn a_command_installs_its_environment() {
    let mut repl = session();
    repl.set_goal(ok(&[1, 2], 0)).unwrap();
    assert_eq!(repl.run_cmd(Ok(running(50, 60))), Ok(()));
    assert_eq!(*repl.environment(), 50);
    assert_eq!(repl.parts(), PartsId { index: 60 });
    assert_eq!(
        repl.run_cmd(Err("parse error".to_string())),
        Err(ReplError::Lean { message: "parse error".to_string() })
    );
    assert_eq!(*repl.environment(), 50);
    assert_eq!(repl.parts(), PartsId { index: 60 });
    assert_eq!(repl.num_states(), 1);
    assert_eq!(ids(&repl, 0), vec![1, 2]);
}

#[test]
fn goals_and_texts_belong_to_existing_states() {
    let mut repl = session();
    assert_eq!(repl.get_goals(0, vec![]), Err(ReplError::UnknownState { state: 0, len: 0 }));
    repl.set_goal(ok(&[1], 0)).unwrap();
    let shown = Goal { hyps: vec![], ty: "True".to_string(), mvar: "_uniq.1".to_string() };
    assert_eq!(repl.get_goals(0, vec![Ok(shown.clone())]), Ok(vec![shown.clone()]));
    assert_eq!(
        repl.get_goals(0, vec![Err("stuck".to_string())]),
        Err(ReplError::Lean { message: "stuck".to_string() })
    );
    repl.set_goal(ok(&[2, 3], 1)).unwrap();
    assert_eq!(
        repl.get_goals(1, vec![Ok(shown.clone()), Ok(shown.clone())]),
        Ok(vec![shown.clone(), shown.clone()])
    );
    assert_eq!(
        repl.get_goals(1, vec![Ok(shown), Err("late".to_string())]),
        Err(ReplError::Lean { message: "late".to_string() })
    );
    let printed: Result<String, String> = Ok("\u{22a2} True".to_string());
    assert_eq!(repl.get_goal_pp(0, None, printed.clone()), Ok("\u{22a2} True".to_string()));
    assert_eq!(
        repl.get_goal_pp(0, Some(1), printed.clone()),
        Err(ReplError::NoGoal { index: 1, state: 0, goals: 1 })
    );
    assert_eq!(
        repl.get_goal_pp(7, None, printed),
        Err(ReplError::UnknownState { state: 7, len: 2 })
    );
    assert_eq!(
        repl.get_goal_pp(0, None, Err("stuck".to_string())),
        Err(ReplError::Lean { message: "stuck".to_string() })
    );
}

#[test]
fn a_sequence_returns_its_last_state_or_its_error() {
    let mut repl = session();
    repl.set_goal(ok(&[1], 0)).unwrap();
    assert_eq!(repl.run_tacs(0, None, vec![]), Ok(0));
    assert_eq!(repl.run_tacs(0, None, vec![ok(&[2], 1), ok(&[], 2)]), Ok(2));
    assert_eq!(
        repl.run_tacs(0, None, vec![ok(&[3], 3), failed("no progress"), ok(&[], 4)]),
        Err(ReplError::Lean { message: "no progress".to_string() })
    );
    assert_eq!(repl.num_states(), 4);
    assert_eq!(
        repl.run_tacs(2, None, vec![ok(&[], 5)]),
        Err(ReplError::NoGoal { index: 0, state: 2, goals: 0 })
    );
}

#[test]
fn a_state_is_printed_whole_or_not_at_all() {
    let mut repl = session();
    let p = |text: &str| Ok(text.to_string());
    assert_eq!(
        repl.get_state_pp(0, vec![]),
        Err(ReplError::UnknownState { state: 0, len: 0 })
    );
    repl.set_goal(ok(&[1, 2], 0)).unwrap();
    assert_eq!(
        repl.get_state_pp(0, vec![p("a"), p("b")]),
        Ok("goal[0]:\na\n\ngoal[1]:\nb".to_string())
    );
    assert_eq!(
        repl.get_state_pp(0, vec![Err("stuck".to_string()), Err("later".to_string())]),
        Err(ReplError::Lean { message: "stuck".to_string() })
    );
    repl.run_tac(0, None, ok(&[], 1)).unwrap();
    assert_eq!(repl.get_state_pp(1, vec![p("b")]), p("b").map_err(|m| ReplError::Lean { message: m }));
    repl.run_tac(1, None, ok(&[], 2)).unwrap();
    assert_eq!(repl.get_state_pp(2, vec![]), Ok("no goals".to_string()));
}

#[test]
fn states_count_what_succeeded() {
    let mut repl = session();
    assert_eq!(repl.num_states(), 0);
    repl.run_tac(0, None, ok(&[], 1)).unwrap_err();
    repl.run_cmd(Ok(running(1, 1))).unwrap();
    assert_eq!(repl.num_states(), 0);
    repl.set_goal(ok(&[1, 2], 0)).unwrap();
    repl.set_goal(failed("no")).unwrap_err();
    repl.run_tac(0, Some(1), ok(&[3], 1)).unwrap();
    assert_eq!(repl.try_run_tac(1, Some(9), ok(&[], 2)), (1, false));
    assert_eq!(repl.try_run_tac(1, None, ok(&[], 2)), (2, true));
    repl.check_tactic("1");
    repl.run_cmd(Err("no".to_string())).unwrap_err();
    assert_eq!(repl.num_states(), 3);
}
