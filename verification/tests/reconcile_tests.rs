use instant_dev::catalog::parse_catalog;
use instant_dev::reconcile::{
    batch_failed, compute_plan, contains_name, DesiredPackageSet, EngineStep, InstallResult,
    InstalledState, ReconcilerEngine, UnitKind,
};

fn strings(names: &[&str]) -> Vec<String> {
    names.iter().map(|n| n.to_string()).collect()
}

#[test]
fn test_plan_monotonic_difference() {
    // desired {packages:{a,b}, casks:{c}} minus installed {packages:{a}}
    // is exactly {packages:{b}, casks:{c}}: no extras, no omissions.
    let desired = DesiredPackageSet { packages: strings(&["a", "b"]), casks: strings(&["c"]) };
    let installed = InstalledState { packages: strings(&["a"]), casks: strings(&[]) };
    let plan = compute_plan(&desired, &installed);
    assert_eq!(plan.to_install_packages, strings(&["b"]));
    assert_eq!(plan.to_install_casks, strings(&["c"]));
}

#[test]
fn test_plan_never_removes() {
    // Units installed but not desired never enter the plan.
    let desired = DesiredPackageSet { packages: strings(&["a"]), casks: strings(&[]) };
    let installed = InstalledState {
        packages: strings(&["a", "stale", "other"]),
        casks: strings(&["left-behind"]),
    };
    let plan = compute_plan(&desired, &installed);
    assert!(plan.to_install_packages.is_empty());
    assert!(plan.to_install_casks.is_empty());
}

#[test]
fn test_plan_second_run_is_empty() {
    // After a run whose installs all succeed, the installed state covers
    // the desired set; recomputing the plan yields nothing to do.
    let desired = DesiredPackageSet {
        packages: strings(&["a", "b", "c"]),
        casks: strings(&["d"]),
    };
    let installed = InstalledState { packages: strings(&["b"]), casks: strings(&[]) };
    let plan = compute_plan(&desired, &installed);
    assert_eq!(plan.to_install_packages, strings(&["a", "c"]));
    assert_eq!(plan.to_install_casks, strings(&["d"]));

    let mut after_packages = installed.packages.clone();
    after_packages.extend(plan.to_install_packages.iter().cloned());
    let mut after_casks = installed.casks.clone();
    after_casks.extend(plan.to_install_casks.iter().cloned());
    let after = InstalledState { packages: after_packages, casks: after_casks };

    let second = compute_plan(&desired, &after);
    assert!(second.to_install_packages.is_empty());
    assert!(second.to_install_casks.is_empty());
}

#[test]
fn test_contains_name_lookup() {
    let list = strings(&["jq", "ripgrep"]);
    assert!(contains_name(&list, &"jq".to_string()));
    assert!(!contains_name(&list, &"fd".to_string()));
    assert!(!contains_name(&Vec::new(), &"jq".to_string()));
}

#[test]
fn test_engine_partial_failure_isolation() {
    // A failed install of `b` does not abort the batch: `c` is still
    // attempted and both outcomes are reported.
    let desired = DesiredPackageSet { packages: strings(&["b", "c"]), casks: strings(&[]) };
    let installed = InstalledState { packages: strings(&[]), casks: strings(&[]) };
    let mut engine = ReconcilerEngine::new(desired, installed);

    match engine.next() {
        EngineStep::NeedInstall { name, kind } => {
            assert_eq!(name, "b");
            assert_eq!(kind, UnitKind::Package);
        }
        other => panic!("expected an install request, got {:?}", other),
    }
    engine.record_result(false, "exit status 1");

    match engine.next() {
        EngineStep::NeedInstall { name, kind } => {
            assert_eq!(name, "c");
            assert_eq!(kind, UnitKind::Package);
        }
        other => panic!("failure of b must not abort the batch, got {:?}", other),
    }
    engine.record_result(true, "");

    assert!(matches!(engine.next(), EngineStep::Done));
    assert!(engine.is_done());

    let outcomes = engine.outcomes();
    assert_eq!(outcomes.len(), 2);
    assert_eq!(outcomes[0].name, "b");
    match &outcomes[0].result {
        InstallResult::Failed { reason } => assert_eq!(reason, "exit status 1"),
        other => panic!("expected a failure outcome for b, got {:?}", other),
    }
    assert_eq!(outcomes[1].name, "c");
    assert!(matches!(outcomes[1].result, InstallResult::Installed));
}

#[test]
fn test_engine_end_to_end_scenario() {
    // Catalog {packages:["jq","ripgrep"], casks:[]} with installed
    // {packages:["jq"]}: only ripgrep is installed, and the outcome list is
    // [jq already satisfied, ripgrep installed].
    let doc = "packages = [\"jq\", \"ripgrep\"]\ncasks = []\n";
    let desired = parse_catalog(doc).expect("well-formed catalog");
    let installed = InstalledState { packages: strings(&["jq"]), casks: strings(&[]) };

    let plan = compute_plan(&desired, &installed);
    assert_eq!(plan.to_install_packages, strings(&["ripgrep"]));
    assert!(plan.to_install_casks.is_empty());

    let mut engine = ReconcilerEngine::new(desired, installed);
    match engine.next() {
        EngineStep::Satisfied { name, kind } => {
            assert_eq!(name, "jq");
            assert_eq!(kind, UnitKind::Package);
        }
        other => panic!("jq is already installed, got {:?}", other),
    }
    match engine.next() {
        EngineStep::NeedInstall { name, .. } => assert_eq!(name, "ripgrep"),
        other => panic!("ripgrep is missing, got {:?}", other),
    }
    engine.record_result(true, "");
    assert!(matches!(engine.next(), EngineStep::Done));

    let outcomes = engine.outcomes();
    assert_eq!(outcomes.len(), 2);
    assert_eq!(outcomes[0].name, "jq");
    assert!(matches!(outcomes[0].result, InstallResult::AlreadySatisfied));
    assert_eq!(outcomes[1].name, "ripgrep");
    assert!(matches!(outcomes[1].result, InstallResult::Installed));
}

#[test]
fn test_engine_walks_packages_then_casks() {
    let desired = DesiredPackageSet { packages: strings(&["p"]), casks: strings(&["k"]) };
    let installed = InstalledState { packages: strings(&[]), casks: strings(&["k"]) };
    let mut engine = ReconcilerEngine::new(desired, installed);
    match engine.next() {
        EngineStep::NeedInstall { name, kind } => {
            assert_eq!(name, "p");
            assert_eq!(kind, UnitKind::Package);
        }
        other => panic!("expected the package first, got {:?}", other),
    }
    engine.record_result(true, "");
    match engine.next() {
        EngineStep::Satisfied { name, kind } => {
            assert_eq!(name, "k");
            assert_eq!(kind, UnitKind::Cask);
        }
        other => panic!("expected the cask to be satisfied, got {:?}", other),
    }
    assert!(matches!(engine.next(), EngineStep::Done));
}

#[test]
fn test_batch_failed_escalates_only_total_failure() {
    // Partial failures are reported, not escalated; escalate only when not
    // a single planned install succeeded.
    let desired = DesiredPackageSet { packages: strings(&["a", "b", "c"]), casks: strings(&[]) };
    let installed = InstalledState { packages: strings(&["a"]), casks: strings(&[]) };
    let mut engine = ReconcilerEngine::new(desired, installed);
    assert!(matches!(engine.next(), EngineStep::Satisfied { .. })); // a
    assert!(matches!(engine.next(), EngineStep::NeedInstall { .. })); // b
    engine.record_result(false, "exit status 1");
    assert!(matches!(engine.next(), EngineStep::NeedInstall { .. })); // c
    engine.record_result(true, "");
    assert!(!batch_failed(engine.outcomes()));

    let desired = DesiredPackageSet { packages: strings(&["b"]), casks: strings(&[]) };
    let installed = InstalledState { packages: strings(&[]), casks: strings(&[]) };
    let mut engine = ReconcilerEngine::new(desired, installed);
    assert!(matches!(engine.next(), EngineStep::NeedInstall { .. }));
    engine.record_result(false, "exit status 1");
    assert!(batch_failed(engine.outcomes()));

    // Nothing attempted, nothing failed: no escalation.
    let desired = DesiredPackageSet { packages: strings(&["a"]), casks: strings(&[]) };
    let installed = InstalledState { packages: strings(&["a"]), casks: strings(&[]) };
    let mut engine = ReconcilerEngine::new(desired, installed);
    assert!(matches!(engine.next(), EngineStep::Satisfied { .. }));
    assert!(!batch_failed(engine.outcomes()));
}

#[test]
fn test_engine_empty_desired_is_done_at_once() {
    let desired = DesiredPackageSet { packages: Vec::new(), casks: Vec::new() };
    let installed = InstalledState { packages: strings(&["x"]), casks: strings(&[]) };
    let mut engine = ReconcilerEngine::new(desired, installed);
    assert!(engine.is_done());
    assert!(matches!(engine.next(), EngineStep::Done));
    assert!(engine.outcomes().is_empty());
}
