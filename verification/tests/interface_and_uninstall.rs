use dxtr_cleaner::app_inventory::{
    ApplicationInventoryIssue, ApplicationInventoryReport, ApplicationLocation,
    ApplicationMetadata, InstalledApplication,
};
use dxtr_cleaner::cancellation::CancellationToken;
use dxtr_cleaner::cli_args::{default_roots, parse_category, parse_u64, position};
use dxtr_cleaner::executor::{ExecutionReport, ExecutionRecord, ExecutionFailure};
use dxtr_cleaner::action_policy::CleanupAction;
use dxtr_cleaner::gui_state::{
    find_current_application, inventory_failure_message, CleanerState, ExecutionMessage,
    ExecutionState, InventoryMessage, Metric, PlanMessage, ScanState, UiMessage, UninstallMessage,
    UninstallState, ViewMode,
};
use dxtr_cleaner::model::{CleanupCategory, ScanItem};
use dxtr_cleaner::planner::{EntryKind, PathObservation, SafetyError};
use dxtr_cleaner::related_files::{
    MatchConfidence, MatchEvidence, RelatedFileCandidate, RelatedFileKind, RelatedFileReport,
};
use dxtr_cleaner::scanner::ScanEvent;
use dxtr_cleaner::uninstall_execution::{
    validate_and_canonicalize, RelatedFileExecutionRoot, UninstallExecutionError,
    UninstallExecutionPolicy, UninstallExecutionRecord, UninstallExecutionReport,
    UninstallExecutor,
};
use dxtr_cleaner::uninstall_plan::{UninstallPlan, UninstallPlanItemKind};

fn args(values: &[&str]) -> Vec<String> {
    values.iter().map(|value| value.to_string()).collect()
}

#[test]
fn category_argument_defaults_to_user_caches() {
    assert_eq!(parse_category(&args(&["scan"])), Ok(CleanupCategory::UserCache));
    assert_eq!(
        parse_category(&args(&["scan", "--category", "xcode"])),
        Ok(CleanupCategory::Xcode)
    );
    assert_eq!(
        parse_category(&args(&["scan", "--category", "large"])),
        Ok(CleanupCategory::LargeFiles)
    );
    assert_eq!(
        parse_category(&args(&["scan", "--category"])),
        Err("--category requires a value".to_string())
    );
    assert_eq!(
        parse_category(&args(&["scan", "--category", "everything"])),
        Err("unknown category: everything".to_string())
    );
    assert_eq!(position(&args(&["a", "b", "a"]), "a"), Some(0));
    assert_eq!(position(&args(&["a"]), "z"), None);
}

#[test]
fn default_roots_follow_the_home_directory() {
    assert_eq!(
        default_roots(CleanupCategory::Node, Some("/Users/t")),
        Ok(vec!["/Users/t/.npm".to_string(), "/Users/t/Library/pnpm/store".to_string()])
    );
    assert_eq!(
        default_roots(CleanupCategory::UserCache, None),
        Err("HOME is not set".to_string())
    );
    assert_eq!(
        default_roots(CleanupCategory::Docker, Some("/Users/t")),
        Err("category 'Docker' is not implemented in M0".to_string())
    );
}

#[test]
fn seconds_parse_as_unsigned_integers() {
    assert_eq!(parse_u64("0"), Some(0));
    assert_eq!(parse_u64("86400"), Some(86_400));
    assert_eq!(parse_u64("18446744073709551615"), Some(u64::MAX));
    assert_eq!(parse_u64("18446744073709551616"), None);
    assert_eq!(parse_u64(""), None);
    assert_eq!(parse_u64("-1"), None);
    assert_eq!(parse_u64("+5"), Some(5));
    assert_eq!(parse_u64("1h"), None);
}

fn app(path: &str, bundle_identifier: &str) -> InstalledApplication {
    let mut metadata = ApplicationMetadata::default();
    metadata.bundle_identifier = Some(bundle_identifier.to_string());
    InstalledApplication::new(
        path.to_string(),
        "Example".to_string(),
        ApplicationLocation::Local,
    )
    .with_metadata(metadata)
}

fn related(confidence: MatchConfidence, path: &str, kind: RelatedFileKind) -> RelatedFileCandidate {
    RelatedFileCandidate::new(
        path.to_string(),
        kind,
        confidence,
        MatchEvidence::ExactBundleIdentifier("com.example.app".into()),
    )
}

fn dir(canonical: &str) -> PathObservation {
    PathObservation {
        entry: EntryKind::Directory,
        canonical: Some(canonical.to_string()),
    }
}

fn example_plan() -> UninstallPlan {
    UninstallPlan::build(
        app("/Applications/Example.app", "com.example.app"),
        RelatedFileReport {
            candidates: vec![related(
                MatchConfidence::High,
                "/Users/t/Library/Caches/com.example.app",
                RelatedFileKind::Cache,
            )],
        },
    )
}

fn observations_for(plan: &UninstallPlan) -> Vec<PathObservation> {
    plan.items().iter().map(|item| dir(item.path())).collect()
}

fn example_fresh_report() -> RelatedFileReport {
    RelatedFileReport {
        candidates: vec![related(
            MatchConfidence::High,
            "/Users/t/Library/Caches/com.example.app",
            RelatedFileKind::Cache,
        )],
    }
}

fn cache_roots() -> Vec<RelatedFileExecutionRoot> {
    vec![RelatedFileExecutionRoot {
        kind: RelatedFileKind::Cache,
        path: "/Users/t/Library/Caches".to_string(),
    }]
}

fn pin_with(
    plan: &UninstallPlan,
    fresh: &RelatedFileReport,
    roots: &[RelatedFileExecutionRoot],
) -> Result<UninstallExecutionPolicy, UninstallExecutionError> {
    let roots = roots.to_vec();
    let root_observed: Vec<PathObservation> = roots.iter().map(|r| dir(&r.path)).collect();
    UninstallExecutionPolicy::pin(plan, fresh, &roots, &root_observed, &observations_for(plan))
}

fn pin_example(plan: &UninstallPlan) -> Result<UninstallExecutionPolicy, UninstallExecutionError> {
    pin_with(plan, &example_fresh_report(), &cache_roots())
}

#[test]
fn policy_refuses_protected_application() {
    let plan = UninstallPlan::build(
        app("/Applications/Safari.app", "com.apple.Safari"),
        RelatedFileReport::default(),
    );
    assert_eq!(
        pin_with(&plan, &RelatedFileReport::default(), &cache_roots()),
        Err(UninstallExecutionError::ProtectedApplication)
    );
}

#[test]
fn pin_refuses_a_related_item_without_fresh_evidence() {
    let plan = example_plan();
    assert_eq!(
        pin_with(&plan, &RelatedFileReport::default(), &cache_roots()),
        Err(UninstallExecutionError::MissingEvidence(
            "/Users/t/Library/Caches/com.example.app".to_string()
        ))
    );
    let weaker = RelatedFileReport {
        candidates: vec![related(
            MatchConfidence::Medium,
            "/Users/t/Library/Caches/com.example.app",
            RelatedFileKind::Cache,
        )],
    };
    assert_eq!(
        pin_with(&plan, &weaker, &cache_roots()),
        Err(UninstallExecutionError::MissingEvidence(
            "/Users/t/Library/Caches/com.example.app".to_string()
        ))
    );
}

#[test]
fn pin_refuses_a_related_item_outside_its_kind_root() {
    let plan = example_plan();
    let preferences = vec![RelatedFileExecutionRoot {
        kind: RelatedFileKind::Preference,
        path: "/Users/t/Library/Caches".to_string(),
    }];
    assert_eq!(
        pin_with(&plan, &example_fresh_report(), &preferences),
        Err(UninstallExecutionError::OutsideExecutionRoot(
            "/Users/t/Library/Caches/com.example.app".to_string()
        ))
    );
    let elsewhere = vec![RelatedFileExecutionRoot {
        kind: RelatedFileKind::Cache,
        path: "/Users/t/Library/Logs".to_string(),
    }];
    assert_eq!(
        pin_with(&plan, &example_fresh_report(), &elsewhere),
        Err(UninstallExecutionError::OutsideExecutionRoot(
            "/Users/t/Library/Caches/com.example.app".to_string()
        ))
    );
    assert!(pin_example(&plan).is_ok());
}

#[test]
fn selection_change_after_pinning_is_rejected_as_stale() {
    let mut plan = example_plan();
    let policy = pin_example(&plan).expect("pin plan");
    assert!(plan.set_selected("/Users/t/Library/Caches/com.example.app", false));
    let current = app("/Applications/Example.app", "com.example.app");
    assert_eq!(
        UninstallExecutor::start(&plan, &policy, &current).err(),
        Some(UninstallExecutionError::StalePlan)
    );
}

#[test]
fn application_identity_change_is_rejected_as_stale() {
    let plan = example_plan();
    let policy = pin_example(&plan).expect("pin plan");
    let changed = app("/Applications/Example.app", "com.example.changed");
    assert_eq!(
        UninstallExecutor::start(&plan, &policy, &changed).err(),
        Some(UninstallExecutionError::StalePlan)
    );
}

#[test]
fn trash_order_keeps_application_bundle_last() {
    let plan = example_plan();
    let policy = pin_example(&plan).expect("pin plan");
    let current = app("/Applications/Example.app", "com.example.app");
    let mut run = match UninstallExecutor::start(&plan, &policy, &current) {
        Ok(run) => run,
        Err(error) => panic!("execute plan: {error:?}"),
    };
    let mut order = Vec::new();
    while let Some((path, kind)) = run.item_to_check() {
        let path = path.to_string();
        order.push(kind);
        let root = dir(run.root_to_check().unwrap_or("/Users/t/Library/Caches"));
        run.check_next(false, &dir(&path), &root).expect("unchanged path passes");
        assert_eq!(run.pending_path(), Some(path.as_str()));
        run.record_backend_result(Ok(()));
    }
    assert_eq!(
        order,
        vec![
            UninstallPlanItemKind::RelatedFile(RelatedFileKind::Cache),
            UninstallPlanItemKind::ApplicationBundle,
        ]
    );
    let report = run.into_report();
    assert_eq!(report.succeeded_count(), 2);
    assert_eq!(report.failed_count(), 0);
    assert_eq!(report.records.last().map(|r| r.kind), Some(UninstallPlanItemKind::ApplicationBundle));
}

#[test]
fn path_resolving_elsewhere_after_pinning_stops_the_uninstall() {
    let plan = example_plan();
    let policy = pin_example(&plan).expect("pin plan");
    let current = app("/Applications/Example.app", "com.example.app");
    let mut run = match UninstallExecutor::start(&plan, &policy, &current) {
        Ok(run) => run,
        Err(error) => panic!("execute plan: {error:?}"),
    };
    let (path, _) = run.item_to_check().expect("an item to check");
    let path = path.to_string();
    assert_eq!(
        run.check_next(false, &dir("/Users/t/elsewhere"), &dir("/Users/t/Library/Caches")),
        Err(UninstallExecutionError::PathChanged(path))
    );
    assert!(run.pending_path().is_none());
}

#[test]
fn an_execution_root_that_resolves_elsewhere_stops_the_uninstall() {
    let plan = example_plan();
    let policy = pin_example(&plan).expect("pin plan");
    let current = app("/Applications/Example.app", "com.example.app");
    let mut run = match UninstallExecutor::start(&plan, &policy, &current) {
        Ok(run) => run,
        Err(error) => panic!("execute plan: {error:?}"),
    };
    let (path, _) = run.item_to_check().expect("an item to check");
    let path = path.to_string();
    assert_eq!(run.root_to_check(), Some("/Users/t/Library/Caches"));
    assert_eq!(
        run.check_next(false, &dir(&path), &dir("/private/tmp/swapped")),
        Err(UninstallExecutionError::ExecutionRootChanged(
            "/Users/t/Library/Caches".to_string()
        ))
    );
    assert!(run.pending_path().is_none());
}

#[test]
fn uninstall_path_checks_report_what_changed() {
    let bundle = UninstallPlanItemKind::ApplicationBundle;
    let preference = UninstallPlanItemKind::RelatedFile(RelatedFileKind::Preference);
    assert_eq!(
        validate_and_canonicalize("/Applications/X.app", bundle, &dir("/Applications/X.app")),
        Ok("/Applications/X.app".to_string())
    );
    assert_eq!(
        validate_and_canonicalize(
            "/Applications/X.app",
            bundle,
            &PathObservation {
                entry: EntryKind::Missing,
                canonical: None
            }
        ),
        Err(UninstallExecutionError::MissingPath("/Applications/X.app".to_string()))
    );
    assert_eq!(
        validate_and_canonicalize("/p.plist", preference, &dir("/p.plist")),
        Err(UninstallExecutionError::UnexpectedEntryType("/p.plist".to_string()))
    );
    assert_eq!(
        validate_and_canonicalize(
            "/link",
            bundle,
            &PathObservation {
                entry: EntryKind::Symlink,
                canonical: Some("/x".to_string())
            }
        ),
        Err(UninstallExecutionError::Symlink("/link".to_string()))
    );
    assert_eq!(
        validate_and_canonicalize("/Applications", bundle, &dir("/Applications")),
        Err(UninstallExecutionError::ProtectedRoot("/Applications".to_string()))
    );
}

#[test]
fn uninstall_counts_split_the_records() {
    let report = UninstallExecutionReport {
        records: vec![
            UninstallExecutionRecord {
                path: "/a".to_string(),
                kind: UninstallPlanItemKind::ApplicationBundle,
                result: Ok(()),
            },
            UninstallExecutionRecord {
                path: "/b".to_string(),
                kind: UninstallPlanItemKind::RelatedFile(RelatedFileKind::Cache),
                result: Err("no".to_string()),
            },
        ],
        cancelled: false,
        safety_failure: None,
    };
    assert_eq!(report.succeeded_count(), 1);
    assert_eq!(report.failed_count(), 1);
    assert!(UninstallExecutionReport::default().records.is_empty());
}

#[test]
fn smart_scan_flow_builds_the_review_plan() {
    let mut state = CleanerState::new();
    assert_eq!(state.view, ViewMode::SmartCare);
    assert_eq!(state.state, ScanState::Idle);
    let requests = state
        .begin_scan(Some("/Users/t".to_string()), CancellationToken::new())
        .expect("an idle interface starts scanning");
    assert_eq!(requests.len(), 4);
    assert_eq!(state.state, ScanState::Scanning);
    assert!(state
        .begin_scan(Some("/Users/t".to_string()), CancellationToken::new())
        .is_none());

    let item = ScanItem {
        path: "/Users/t/Library/Caches/a.bin".to_string(),
        category: CleanupCategory::UserCache,
        bytes: 10,
        is_symlink: false,
    };
    state.apply_message(UiMessage::Event(ScanEvent::ItemFound { item: item.clone() }));
    state.apply_message(UiMessage::Event(ScanEvent::PermissionDenied {
        path: "/Users/t/Library/Caches/locked".to_string(),
    }));
    assert_eq!(state.user_cache, Metric { items: 1, bytes: 10 });
    assert_eq!(state.permission_denied, 1);

    let roots = requests.iter().map(|r| r.roots.len()).sum::<usize>();
    let canonical: Vec<Option<String>> = requests
        .iter()
        .flat_map(|r| r.roots.iter().map(|p| Some(p.clone())))
        .collect();
    assert_eq!(canonical.len(), roots);
    state.apply_message(UiMessage::Completed(canonical));
    assert_eq!(state.state, ScanState::Completed);
    let plan = state.cleanup_plan.as_ref().expect("a review plan");
    assert_eq!(plan.items.len(), 1);
    assert!(plan.items[0].selected);
    let policy = state.execution_policy.as_ref().expect("an execution policy");
    assert!(policy.destructive_actions_enabled);
    assert_eq!(policy.allowed_roots.len(), roots);

    assert!(state.begin_cleanup(CancellationToken::new()));
    assert_eq!(state.execution_state, ExecutionState::Executing);
    state.finish_cleanup(ExecutionMessage::Completed(ExecutionReport {
        records: vec![ExecutionRecord {
            path: item.path.clone(),
            category: CleanupCategory::UserCache,
            action: CleanupAction::MoveToTrash,
            bytes: 10,
            result: Ok(()),
        }],
        cancelled: false,
    }));
    assert_eq!(state.execution_state, ExecutionState::Completed);
    assert!(state.cleanup_plan.is_none());
}

#[test]
fn cleanup_with_a_refused_item_ends_failed() {
    let mut state = CleanerState::new();
    state
        .begin_scan(Some("/Users/t".to_string()), CancellationToken::new())
        .expect("scan starts");
    state.apply_message(UiMessage::Event(ScanEvent::ItemFound {
        item: ScanItem {
            path: "/Users/t/Library/Caches/a.bin".to_string(),
            category: CleanupCategory::UserCache,
            bytes: 1,
            is_symlink: false,
        },
    }));
    let n: usize = state.scan_requests.iter().map(|r| r.roots.len()).sum();
    state.apply_message(UiMessage::Completed(vec![None; n]));
    assert!(state.begin_cleanup(CancellationToken::new()));
    state.finish_cleanup(ExecutionMessage::Completed(ExecutionReport {
        records: vec![ExecutionRecord {
            path: "/Users/t/Library/Caches/a.bin".to_string(),
            category: CleanupCategory::UserCache,
            action: CleanupAction::MoveToTrash,
            bytes: 1,
            result: Err(ExecutionFailure::Safety(SafetyError::OutsideAllowedRoots)),
        }],
        cancelled: false,
    }));
    assert_eq!(state.execution_state, ExecutionState::Failed);
}

#[test]
fn scan_without_home_fails_and_cancel_drops_findings() {
    let mut state = CleanerState::new();
    assert!(state.begin_scan(None, CancellationToken::new()).is_none());
    assert_eq!(state.state, ScanState::Failed);
    assert_eq!(state.error.as_deref(), Some("HOME is not set"));

    let token = CancellationToken::new();
    state
        .begin_scan(Some("/Users/t".to_string()), token.clone())
        .expect("scan starts");
    assert!(state.cancel_scan());
    assert!(token.is_cancelled());
    assert_eq!(state.state, ScanState::Cancelling);
    state.apply_message(UiMessage::Cancelled);
    assert_eq!(state.state, ScanState::Cancelled);
    assert!(state.scanned_items.is_empty());
    assert!(!state.begin_cleanup(CancellationToken::new()));
}

#[test]
fn uninstaller_flow_reviews_then_moves_to_trash() {
    let mut state = CleanerState::new();
    assert!(state.open_uninstaller());
    assert_eq!(state.view, ViewMode::Uninstaller);
    assert_eq!(state.uninstall_state, UninstallState::Loading);
    state.finish_load(InventoryMessage::Loaded(vec![app(
        "/Applications/Example.app",
        "com.example.app",
    )]));
    assert_eq!(state.uninstall_state, UninstallState::Idle);
    assert!(state.begin_prepare_uninstall(0));
    assert!(!state.begin_prepare_uninstall(5));
    state.finish_prepare(PlanMessage::Ready(example_plan()));
    assert_eq!(state.uninstall_state, UninstallState::Review);
    assert!(state.toggle_uninstall_item("/Users/t/Library/Caches/com.example.app"));
    assert!(state.toggle_uninstall_item("/Users/t/Library/Caches/com.example.app"));
    assert!(state.begin_uninstall(CancellationToken::new()));
    assert_eq!(state.uninstall_state, UninstallState::Executing);
    state.finish_uninstall(UninstallMessage::Completed(UninstallExecutionReport {
        records: vec![UninstallExecutionRecord {
            path: "/Applications/Example.app".to_string(),
            kind: UninstallPlanItemKind::ApplicationBundle,
            result: Ok(()),
        }],
        cancelled: false,
        safety_failure: None,
    }));
    assert_eq!(state.uninstall_state, UninstallState::Completed);
    assert!(state.uninstall_plan.is_none());
    assert!(state.applications.is_empty());
}

#[test]
fn a_failed_safety_check_marks_the_uninstall_failed() {
    let mut state = CleanerState::new();
    assert!(state.open_uninstaller());
    state.finish_load(InventoryMessage::Loaded(vec![app(
        "/Applications/Example.app",
        "com.example.app",
    )]));
    assert!(state.begin_prepare_uninstall(0));
    state.finish_prepare(PlanMessage::Ready(example_plan()));
    assert!(state.begin_uninstall(CancellationToken::new()));
    state.finish_uninstall(UninstallMessage::Completed(UninstallExecutionReport {
        records: vec![UninstallExecutionRecord {
            path: "/Users/t/Library/Caches/com.example.app".to_string(),
            kind: UninstallPlanItemKind::RelatedFile(RelatedFileKind::Cache),
            result: Ok(()),
        }],
        cancelled: false,
        safety_failure: Some(UninstallExecutionError::MissingPath(
            "/Applications/Example.app".to_string(),
        )),
    }));
    assert_eq!(state.uninstall_state, UninstallState::Failed);
}

#[test]
fn protected_plan_cannot_start_an_uninstall() {
    let mut state = CleanerState::new();
    state.open_uninstaller();
    state.finish_load(InventoryMessage::Loaded(vec![app(
        "/Applications/Safari.app",
        "com.apple.Safari",
    )]));
    assert!(state.begin_prepare_uninstall(0));
    state.finish_prepare(PlanMessage::Ready(UninstallPlan::build(
        app("/Applications/Safari.app", "com.apple.Safari"),
        RelatedFileReport::default(),
    )));
    assert!(!state.begin_uninstall(CancellationToken::new()));
    state.finish_load(InventoryMessage::Disconnected);
}

#[test]
fn labels_describe_each_state() {
    assert_eq!(ScanState::Completed.label(), "Review ready");
    assert_eq!(ExecutionState::Executing.label(), "Moving selected items to Trash…");
    assert_eq!(UninstallState::Failed.label(), "Uninstall blocked or incomplete");
}

#[test]
fn inventory_issues_block_uninstalling() {
    let clean = ApplicationInventoryReport::default();
    assert_eq!(inventory_failure_message(&clean), None);
    let report = ApplicationInventoryReport {
        applications: Vec::new(),
        issues: (1..=4)
            .map(|i| ApplicationInventoryIssue::new(format!("/p{i}"), format!("m{i}")))
            .collect(),
    };
    assert_eq!(
        inventory_failure_message(&report).as_deref(),
        Some("application inventory is incomplete: /p1: m1; /p2: m2; /p3: m3")
    );
}

#[test]
fn current_application_is_found_by_identity() {
    let reviewed = app("/Applications/Example.app", "com.example.app");
    let inventory = vec![
        app("/Applications/Other.app", "com.example.app"),
        app("/Applications/Example.app", "com.example.changed"),
        app("/Applications/Example.app", "com.example.app"),
    ];
    assert_eq!(find_current_application(&inventory, &reviewed), Some(2));
    assert_eq!(find_current_application(&inventory[..2], &reviewed), None);
}

#[test]
fn review_selection_and_cancellation_reach_the_workers() {
    let mut state = CleanerState::new();
    assert!(!state.cancel_execution());
    assert!(!state.cancel_uninstall());
    state
        .begin_scan(Some("/Users/t".to_string()), CancellationToken::new())
        .expect("scan starts");
    state.apply_message(UiMessage::Event(ScanEvent::ItemFound {
        item: ScanItem {
            path: "/Users/t/Library/Caches/link".to_string(),
            category: CleanupCategory::UserCache,
            bytes: 0,
            is_symlink: true,
        },
    }));
    state.apply_message(UiMessage::Event(ScanEvent::ItemFound {
        item: ScanItem {
            path: "/Users/t/Library/Caches/a.bin".to_string(),
            category: CleanupCategory::UserCache,
            bytes: 4,
            is_symlink: false,
        },
    }));
    let n: usize = state.scan_requests.iter().map(|r| r.roots.len()).sum();
    state.apply_message(UiMessage::Completed(vec![None; n]));
    state.set_all_review_items(false);
    assert!(!state.begin_cleanup(CancellationToken::new()));
    state.set_all_review_items(true);
    let plan = state.cleanup_plan.as_ref().expect("review plan");
    assert!(!plan.items[0].selected);
    assert!(plan.items[1].selected);

    let token = CancellationToken::new();
    assert!(state.begin_cleanup(token.clone()));
    assert!(state.cancel_execution());
    assert!(token.is_cancelled());
    assert_eq!(state.execution_state, ExecutionState::Cancelling);
    state.finish_cleanup(ExecutionMessage::Disconnected);
    assert_eq!(state.execution_state, ExecutionState::Failed);
    assert_eq!(state.execution_error.as_deref(), Some("cleanup worker disconnected"));

    state.open_uninstaller();
    state.open_smart_care();
    assert_eq!(state.view, ViewMode::SmartCare);
}

#[test]
fn cancelling_an_uninstall_raises_its_token() {
    let mut state = CleanerState::new();
    state.open_uninstaller();
    state.finish_load(InventoryMessage::Loaded(vec![app(
        "/Applications/Example.app",
        "com.example.app",
    )]));
    assert!(state.begin_prepare_uninstall(0));
    state.finish_prepare(PlanMessage::Ready(example_plan()));
    let token = CancellationToken::new();
    assert!(state.begin_uninstall(token.clone()));
    assert!(state.cancel_uninstall());
    assert!(token.is_cancelled());
    assert_eq!(state.uninstall_state, UninstallState::Cancelling);
}

#[test]
fn toggling_the_required_bundle_changes_nothing() {
    let mut state = CleanerState::new();
    state.open_uninstaller();
    state.finish_load(InventoryMessage::Loaded(vec![app(
        "/Applications/Example.app",
        "com.example.app",
    )]));
    assert!(state.begin_prepare_uninstall(0));
    state.finish_prepare(PlanMessage::Ready(example_plan()));
    let before = state.uninstall_plan.clone();
    assert!(!state.toggle_uninstall_item("/Applications/Example.app"));
    assert!(!state.toggle_uninstall_item("/nowhere"));
    assert_eq!(state.uninstall_plan, before);
}
