use leotower::check::{
    check_answer, check_elaborated, check_plan, is_shadowed, CheckContext, CheckPlan, CheckStep,
};
use leotower::environment::{inspected, inspected_kind, render_declaration, ConstantKind};
use leotower::error::{no_goal_msg, unknown_state_msg};
use leotower::import::{OpenEvent, Opening};
use leotower::repl::{GoalId, MetaId, PartsId, Running, TacticOutcome};
use leotower::session::{read_nat, SessionError};
use leotower::text::{decimal_string, ends_with, join, read_decimal};
use leotower::{Repl, ReplError};

fn hyps(list: &[(&str, &str)]) -> Vec<(String, String)> {
    list.iter().map(|(n, t)| (n.to_string(), t.to_string())).collect()
}

fn outcome(goals: &[u64], meta: u64) -> Result<TacticOutcome<()>, String> {
    Ok(TacticOutcome {
        goals: goals.iter().map(|i| GoalId { index: *i }).collect(),
        meta_state: MetaId { index: meta },
        running: Running { environment: (), parts: PartsId { index: 0 } },
    })
}

fn session() -> Repl<()> {
    let opening = Opening::start(None)
        .advance(OpenEvent::Remapped { regions: Ok(()) })
        .advance(OpenEvent::Imported { environment: Ok(()) })
        .advance(OpenEvent::SetUp { window: None, parts: Ok(PartsId { index: 0 }) });
    Repl::new(opening).expect("done").expect("open")
}

#[test]
fn the_root_context_starts_from_state_zero() {
    let mut repl = session();
    assert_eq!(repl.check_context(None, Some(9)), Ok(CheckContext { goal: None, meta_state: None }));
    repl.set_goal(outcome(&[4], 20)).unwrap();
    repl.set_goal(outcome(&[5], 21)).unwrap();
    assert_eq!(
        repl.check_context(None, None),
        Ok(CheckContext { goal: None, meta_state: Some(MetaId { index: 20 }) })
    );
    assert_eq!(
        repl.check_context(Some(1), None),
        Ok(CheckContext {
            goal: Some(GoalId { index: 5 }),
            meta_state: Some(MetaId { index: 21 }),
        })
    );
    assert_eq!(
        repl.check_context(Some(2), None),
        Err(ReplError::UnknownState { state: 2, len: 2 })
    );
    assert_eq!(
        repl.check_context(Some(0), Some(1)),
        Err(ReplError::NoGoal { index: 1, state: 0, goals: 1 })
    );
}

#[test]
fn each_elaborated_term_gets_a_fresh_name() {
    let mut repl = session();
    repl.set_goal(outcome(&[4], 20)).unwrap();
    assert_eq!(repl.checks(), 0);
    assert_eq!(repl.check_tactic("fun x => x"), "have h_leotower_check_1 := fun x => x");
    assert_eq!(repl.check_tactic("1 + 1"), "have h_leotower_check_2 := 1 + 1");
    assert_eq!(repl.checks(), 2);
    assert_eq!(repl.num_states(), 1);
}

#[test]
fn only_elaborated_terms_are_counted() {
    let mut repl = session();
    assert_eq!(
        repl.check_step("List.map", CheckPlan::Declared),
        Some(CheckStep::ShowDeclared)
    );
    assert_eq!(repl.checks(), 0);
    assert_eq!(
        repl.check_step("1 + 1", CheckPlan::Elaborate),
        Some(CheckStep::RunTactic { tactic: "have h_leotower_check_1 := 1 + 1".to_string() })
    );
    assert_eq!(repl.checks(), 1);
    assert_eq!(repl.num_states(), 0);
}

#[test]
fn an_inspection_shows_a_known_constant() {
    let rendered = || Ok(vec!["Nat".to_string(), "42".to_string()]);
    assert_eq!(
        inspected(Some(ConstantKind::Definition), "answer", rendered()),
        Ok("def answer : Nat :=\n42".to_string())
    );
    assert_eq!(
        inspected(None, "answer", rendered()),
        Err(ReplError::UnknownConstant { name: "answer".to_string() })
    );
    assert_eq!(
        inspected(None, "answer", Err("stuck".to_string())),
        Err(ReplError::UnknownConstant { name: "answer".to_string() })
    );
    assert_eq!(
        inspected(Some(ConstantKind::Axiom), "answer", Err("stuck".to_string())),
        Err(ReplError::Lean { message: "stuck".to_string() })
    );
}

#[test]
fn a_shadowed_constant_is_elaborated() {
    assert_eq!(check_plan(false, true), CheckPlan::Declared);
    assert_eq!(check_plan(true, true), CheckPlan::Elaborate);
    assert_eq!(check_plan(false, false), CheckPlan::Elaborate);
    assert_eq!(check_plan(true, false), CheckPlan::Elaborate);
}

#[test]
fn a_hypothesis_shadows_its_name_and_what_it_qualifies() {
    let local = hyps(&[("n", "Nat"), ("List", "Type")]);
    assert!(is_shadowed(&local, "List"));
    assert!(is_shadowed(&local, "List.map"));
    assert!(is_shadowed(&local, "List.map.go"));
    assert!(is_shadowed(&local, "n"));
    assert!(!is_shadowed(&local, "Lists"));
    assert!(!is_shadowed(&local, "Data.List"));
    assert!(!is_shadowed(&local, "Nat"));
    assert!(!is_shadowed(&hyps(&[("List.map", "Nat")]), "List"));
    assert!(is_shadowed(&hyps(&[("List.map", "Nat")]), "List.map.x"));
    assert!(!is_shadowed(&Vec::new(), "List"));
}

#[test]
fn dots_part_names_as_they_stand() {
    assert!(is_shadowed(&hyps(&[("a", "T")]), ".a"));
    assert!(is_shadowed(&hyps(&[("a", "T")]), "..a.b"));
    assert!(is_shadowed(&hyps(&[("", "T")]), ".a"));
    assert!(!is_shadowed(&hyps(&[("", "T")]), "a"));
    assert!(is_shadowed(&hyps(&[("", "T")]), ""));
    assert!(is_shadowed(&hyps(&[("a.", "T")]), "a..b"));
    assert!(is_shadowed(&hyps(&[("a..b", "T")]), "a..b"));
    assert!(!is_shadowed(&hyps(&[(".a", "T")]), ".a"));
    assert!(is_shadowed(&hyps(&[("你好", "T")]), "你好.x"));
}

#[test]
fn answers_name_the_term_and_its_type() {
    assert_eq!(check_answer("Nat.succ", "Nat → Nat"), "Nat.succ : Nat → Nat");
    let left = hyps(&[("n", "Nat"), ("h_leotower_check_1", "Nat")]);
    assert_eq!(check_elaborated("n + 1", Some(&left)), Ok("n + 1 : Nat".to_string()));
    let e = check_elaborated("x", None).unwrap_err();
    assert_eq!(e, ReplError::CheckLeftNoGoal);
    assert_eq!(e.message(), "internal error: check have produced no goals");
    let e = check_elaborated("x", Some(&Vec::new())).unwrap_err();
    assert_eq!(e, ReplError::CheckLeftNoHypothesis);
    assert_eq!(e.message(), "internal error: check declaration not found in goal context");
}

#[test]
fn declarations_are_shown_with_their_kind() {
    let ty = vec!["Nat → Nat".to_string()];
    let with_value = vec!["Nat".to_string(), "42".to_string()];
    assert_eq!(render_declaration(ConstantKind::Axiom, "foo", &ty), "axiom foo : Nat → Nat");
    assert_eq!(
        render_declaration(ConstantKind::Definition, "answer", &with_value),
        "def answer : Nat :=\n42"
    );
    assert_eq!(ConstantKind::Inductive.label(), "inductive");
    assert_eq!(ConstantKind::Opaque.label(), "opaque");
    assert_eq!(ConstantKind::Theorem.label(), "theorem");
    assert_eq!(ConstantKind::Constructor.label(), "def");
    assert_eq!(ConstantKind::Recursor.label(), "def");
    assert_eq!(ConstantKind::Quot.label(), "def");
}

#[test]
fn an_unknown_constant_is_refused() {
    assert_eq!(
        inspected_kind(Some(ConstantKind::Theorem), "Nat.add_comm"),
        Ok(ConstantKind::Theorem)
    );
    let e = inspected_kind(None, "No.such").unwrap_err();
    assert_eq!(e, ReplError::UnknownConstant { name: "No.such".to_string() });
    assert_eq!(e.message(), "unknown constant: No.such");
}

#[test]
fn numerals_are_written_and_read() {
    assert_eq!(decimal_string(0), "0");
    assert_eq!(decimal_string(1090), "1090");
    assert_eq!(decimal_string(u64::MAX), "18446744073709551615");
    assert_eq!(read_decimal("42"), Some(42));
    assert_eq!(read_decimal("0007"), Some(7));
    assert_eq!(read_decimal(""), None);
    assert_eq!(read_decimal("4 2"), None);
    assert_eq!(read_decimal("18446744073709551615"), Some(usize::MAX));
    assert_eq!(read_decimal("18446744073709551616"), None);
    assert_eq!(read_decimal("1267650600228229401496703205376"), None);
}

#[test]
fn a_number_above_the_word_size_is_too_large() {
    assert_eq!(read_nat("42"), Ok(42));
    assert_eq!(read_nat("9223372036854775808"), Ok(9223372036854775808));
    let e = read_nat("18446744073709551616").unwrap_err();
    assert_eq!(e, SessionError::TooLarge);
    assert_eq!(e.message(), "conversion error: Natural number too large for usize");
    assert_eq!(SessionError::Lean { message: "x".to_string() }.message(), "x");
}

#[test]
fn messages_are_exact() {
    assert_eq!(unknown_state_msg(7, 0), "unknown state 7 (no states yet; call set_goal first)");
    assert_eq!(unknown_state_msg(12, 12), "unknown state 12 (valid states: 0..=11)");
    assert_eq!(no_goal_msg(1, 2, 0), "no goal at index 1 in state 2 (state has 0 goals)");
    assert_eq!(ReplError::Lean { message: "tactic error: x".to_string() }.message(), "tactic error: x");
}

#[test]
fn strings_are_joined_and_compared() {
    let parts = vec!["a".to_string(), "".to_string(), "c".to_string()];
    assert_eq!(join(&parts, "; "), "a; ; c");
    assert_eq!(join(&Vec::new(), "; "), "");
    assert!(ends_with("x.lean", ".lean"));
    assert!(!ends_with("lean", ".lean"));
    assert!(ends_with("", ""));
}
