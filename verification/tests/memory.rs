use leotower::import::{
    block_on_remap, import_blocked, import_request, ImportRequest, OpenEvent, OpenStep, Opening,
};
use leotower::regions::{
    safe_to_free_regions, Aftermath, EnvRegions, ImportDiff, Region, ReleaseStep,
};
use leotower::repl::PartsId;
use leotower::{Repl, ReplError};

fn known(n: u64) -> Vec<Region> {
    (0..n).map(|id| Region { id, size_known: true }).collect()
}

fn lean(n: u64) -> EnvRegions<u64> {
    EnvRegions::new(0, vec!["Lean".to_string()], n, known(n), true)
}

#[test]
fn drop_leaks_when_quarantined() {
    let regions = lean(3);
    assert_eq!(regions.begin_release(false), ReleaseStep::CountRegions);
    assert_eq!(regions.after_count(Some(3)), ReleaseStep::Free, "freed without a quarantine");
    let poisoned = true;
    assert_eq!(
        regions.begin_release(poisoned),
        ReleaseStep::Leak {
            warning: Some(
                "leotower: keepalive is quarantined; leaking env instead of freeing".to_string()
            ),
        },
        "a quarantined drop must leak the env"
    );
    let import = block_on_remap(
        &vec!["Lean".to_string()],
        Err(vec!["keepalive is quarantined".to_string()]),
    );
    assert!(import.is_err(), "a quarantined import must be refused");
    let opening: Opening<u64> = Opening::start(None).advance(OpenEvent::Remapped {
        regions: Err(vec!["keepalive is quarantined".to_string()]),
    });
    assert_eq!(opening.next_step(), OpenStep::Done, "nothing is imported");
    let session = Repl::new(opening).expect("done");
    assert!(session.is_err(), "no session opens on a refused import");
}

#[test]
fn a_file_backed_environment_is_freed() {
    let regions = lean(2);
    assert_eq!(regions.begin_release(false), ReleaseStep::CountRegions);
    assert_eq!(regions.after_count(Some(2)), ReleaseStep::Free);
}

#[test]
fn a_count_that_differs_or_is_unreadable_leaks() {
    let regions = lean(2);
    assert_eq!(regions.after_count(Some(3)), ReleaseStep::Leak { warning: None });
    assert_eq!(regions.after_count(None), ReleaseStep::Leak { warning: None });
    assert!(safe_to_free_regions(Some(2), 2));
    assert!(!safe_to_free_regions(Some(3), 2));
    assert!(!safe_to_free_regions(None, 0));
}

#[test]
fn an_untracked_region_leaks_the_whole_environment() {
    let mut imported = known(3);
    imported[2].size_known = false;
    let regions = EnvRegions::new(0u64, vec!["Lean".to_string()], 3, imported, true);
    assert_eq!(
        regions.after_count(Some(3)),
        ReleaseStep::Leak {
            warning: Some(
                "leotower: an import region was not trackable at snapshot time; leaking env instead of freeing"
                    .to_string()
            ),
        }
    );
    assert_eq!(regions.after_count(Some(4)), ReleaseStep::Leak { warning: None });
}

#[test]
fn an_import_is_trackable_without_identity_churn() {
    let modules = || vec!["Lean".to_string()];
    let diff = |identity_churn| Some(ImportDiff { added: known(2), identity_churn });
    let leak = ReleaseStep::Leak { warning: None };
    assert_eq!(EnvRegions::from_import((), modules(), diff(false)).after_count(Some(2)), ReleaseStep::Free);
    assert_eq!(EnvRegions::from_import((), modules(), diff(true)).after_count(Some(2)), leak.clone());
    assert_eq!(EnvRegions::from_import((), modules(), None).after_count(Some(0)), leak);
}

#[test]
fn what_was_freed_is_recorded() {
    let gone = known(1);
    assert_eq!(
        lean(2).after_free(Ok(()), Ok(gone.clone())),
        Aftermath::Record {
            modules: vec!["Lean".to_string()],
            regions: gone.clone(),
            warning: None,
        }
    );
    assert_eq!(
        lean(2).after_free(Err("bad region".to_string()), Ok(gone.clone())),
        Aftermath::Record {
            modules: vec!["Lean".to_string()],
            regions: gone,
            warning: Some(
                "leotower: free_regions failed during drop (bad region); recovered 1 freed region(s) so a later cross-set import revives them"
                    .to_string()
            ),
        }
    );
}

#[test]
fn an_unreadable_aftermath_is_assumed_or_quarantined() {
    assert_eq!(
        lean(2).after_free(Ok(()), Err("denied".to_string())),
        Aftermath::Record {
            modules: vec!["Lean".to_string()],
            regions: known(2),
            warning: Some(
                "leotower: free_regions succeeded but /proc/self/maps unreadable (denied); recording the pre-free VMA set as a best-effort revive"
                    .to_string()
            ),
        }
    );
    assert_eq!(
        lean(2).after_free(Err("bad region".to_string()), Err("denied".to_string())),
        Aftermath::Quarantine {
            warning: "leotower: free_regions failed (bad region) AND /proc/self/maps unreadable (denied) during drop; CANNOT determine freed regions -> keepalive QUARANTINED (future envs leak, imports blocked)"
                .to_string(),
        }
    );
}

#[test]
fn a_name_with_the_source_suffix_is_a_file() {
    let request = |m: &str| import_request(Some(m.to_string()));
    assert_eq!(request("a/B.lean"), ImportRequest::File { path: "a/B.lean".to_string() });
    assert_eq!(request(".lean"), ImportRequest::File { path: ".lean".to_string() });
    assert_eq!(request("Mathlib.Data"), ImportRequest::Module { name: "Mathlib.Data".to_string() });
    assert_eq!(request("lean"), ImportRequest::Module { name: "lean".to_string() });
    assert_eq!(request(""), ImportRequest::Module { name: String::new() });
    assert_eq!(import_request(None), ImportRequest::Module { name: "Lean".to_string() });
}

#[test]
fn a_file_imports_the_prelude() {
    assert_eq!(import_request(Some("x.lean".to_string())).modules(), vec!["Lean".to_string()]);
    assert_eq!(import_request(Some("Mathlib".to_string())).modules(), vec!["Mathlib".to_string()]);
    assert_eq!(import_request(None).modules(), vec!["Lean".to_string()]);
}

#[test]
fn a_failed_remap_blocks_the_import() {
    let importing = vec!["Lean".to_string(), "a\"b".to_string()];
    assert_eq!(block_on_remap(&importing, Ok(())), Ok(()));
    let errors = vec!["x: occupied".to_string(), "y: deleted".to_string()];
    let e = block_on_remap(&importing, Err(errors.clone())).unwrap_err();
    assert_eq!(
        e.message(),
        "cannot revive freed import regions before importing [\"Lean\", \"a\\\"b\"]: x: occupied; y: deleted"
    );
    assert_eq!(
        import_blocked("[]".to_string(), &errors),
        ReplError::ImportBlocked {
            importing: "[]".to_string(),
            reasons: "x: occupied; y: deleted".to_string(),
        }
    );
}

#[test]
fn a_session_keeps_what_its_import_added() {
    let window = ImportDiff { added: known(2), identity_churn: false };
    let opening = Opening::start(Some("Mathlib".to_string()))
        .advance(OpenEvent::Remapped { regions: Ok(()) })
        .advance(OpenEvent::Imported { environment: Ok(5u64) })
        .advance(OpenEvent::SetUp { window: Some(window), parts: Ok(PartsId { index: 0 }) });
    let repl = Repl::new(opening).expect("done").expect("a session");
    assert_eq!(repl.regions().after_count(Some(2)), ReleaseStep::Free);
    assert_eq!(repl.regions().after_count(Some(1)), ReleaseStep::Leak { warning: None });
    assert_eq!(
        repl.regions().after_free(Ok(()), Err("denied".to_string())),
        Aftermath::Record {
            modules: vec!["Mathlib".to_string()],
            regions: known(2),
            warning: Some(
                "leotower: free_regions succeeded but /proc/self/maps unreadable (denied); \
                 recording the pre-free VMA set as a best-effort revive"
                    .to_string()
            ),
        }
    );
}

#[test]
fn a_replaced_environment_keeps_its_import() {
    let mut regions = lean(2);
    assert_eq!(*regions.environment(), 0);
    assert_eq!(regions.swap_inner(9), 0);
    assert_eq!(*regions.environment(), 9);
    assert_eq!(regions.after_count(Some(2)), ReleaseStep::Free);
}

#[test]
fn only_regions_of_the_import_are_recorded() {
    let gone = vec![known(3)[1], known(3)[2]];
    match lean(3).after_free(Err("bad region".to_string()), Ok(gone)) {
        Aftermath::Record { regions, .. } => {
            assert!(regions.iter().all(|r| known(3).contains(r)));
            assert_eq!(regions.iter().map(|r| r.id).collect::<Vec<u64>>(), vec![1, 2]);
        }
        Aftermath::Quarantine { .. } => panic!("the mappings were read"),
    }
}
