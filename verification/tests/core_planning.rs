use dxtr_cleaner::path::{join_path_in, paths_equal_in, starts_with_path_in, PathStyle};
use dxtr_cleaner::text::trim_str;
use dxtr_cleaner::action_policy::{CategoryActionPolicy, CleanupAction};
use dxtr_cleaner::app_inventory::{ApplicationLocation, ApplicationMetadata, InstalledApplication};
use dxtr_cleaner::executor::{
    CleanupExecutor, ExecutionFailure, ExecutionOutcome, ExecutionRecord, ExecutionReport,
};
use dxtr_cleaner::model::{CleanupCategory, CleanupPlan, CleanupPlanItem, ScanItem};
use dxtr_cleaner::orphan::{OrphanCandidate, OrphanReport};
use dxtr_cleaner::planner::{
    AllowedRoot, EntryKind, ExecutionPolicy, ItemObservation, PathObservation, Planner,
    SafetyError,
};
use dxtr_cleaner::related_files::{
    MatchConfidence, MatchEvidence, RelatedFileCandidate, RelatedFileKind, RelatedFileReport,
};
use dxtr_cleaner::safety::{is_protected_broad_root, is_windows_protected_broad_root};
use dxtr_cleaner::uninstall_plan::UninstallPlan;

fn scan_item(path: &str, category: CleanupCategory, is_symlink: bool) -> ScanItem {
    ScanItem {
        path: path.to_string(),
        category,
        bytes: 1,
        is_symlink,
    }
}

fn file_at(canonical: &str) -> PathObservation {
    PathObservation {
        entry: EntryKind::File,
        canonical: Some(canonical.to_string()),
    }
}

fn directory_at(canonical: &str) -> PathObservation {
    PathObservation {
        entry: EntryKind::Directory,
        canonical: Some(canonical.to_string()),
    }
}

fn missing() -> PathObservation {
    PathObservation {
        entry: EntryKind::Missing,
        canonical: None,
    }
}

fn observation(item: PathObservation, roots: Vec<PathObservation>) -> ItemObservation {
    ItemObservation { item, roots }
}

fn root(category: CleanupCategory, path: &str) -> AllowedRoot {
    AllowedRoot::pinned_to(category, path.to_string(), Some(path.to_string()))
}

fn selected(item: ScanItem) -> CleanupPlanItem {
    CleanupPlanItem {
        item,
        selected: true,
    }
}

#[test]
fn destructive_execution_is_off_by_default() {
    let plan = CleanupPlan::default();
    assert_eq!(
        Planner::validate_for_execution(&plan, &ExecutionPolicy::default(), &Vec::new()),
        Err(SafetyError::DestructiveActionsDisabled)
    );
}

#[test]
fn symlinks_are_not_selected_by_default() {
    let plan = Planner::build(vec![scan_item("/tmp/link", CleanupCategory::UserCache, true)]);
    assert!(!plan.items[0].selected);
}

#[test]
fn broad_system_root_is_rejected_for_execution() {
    let plan = CleanupPlan {
        items: vec![selected(scan_item("/System", CleanupCategory::SystemCache, false))],
    };
    let policy = ExecutionPolicy::enabled(vec![root(CleanupCategory::SystemCache, "/Library/Caches")]);
    let observations = vec![observation(
        directory_at("/System"),
        vec![directory_at("/Library/Caches")],
    )];

    assert_eq!(
        Planner::validate_for_execution(&plan, &policy, &observations),
        Err(SafetyError::ProtectedRoot)
    );
}

#[test]
fn execution_requires_a_category_matching_allow_list_root() {
    let item = scan_item("/tmp/allow-list/cache.bin", CleanupCategory::UserCache, false);
    let roots = vec![directory_at("/tmp/allow-list")];
    let now = observation(file_at("/tmp/allow-list/cache.bin"), roots.clone());

    let matching = ExecutionPolicy::enabled(vec![root(CleanupCategory::UserCache, "/tmp/allow-list")]);
    assert_eq!(
        Planner::validate_item_for_execution(&item, &matching, &now),
        Ok("/tmp/allow-list/cache.bin".to_string())
    );

    let other_category = ExecutionPolicy::enabled(vec![root(CleanupCategory::Node, "/tmp/allow-list")]);
    assert_eq!(
        Planner::validate_item_for_execution(&item, &other_category, &now),
        Err(SafetyError::OutsideAllowedRoots)
    );
}

#[test]
fn execution_never_allows_the_allow_list_root_itself() {
    let item = scan_item("/tmp/root-itself", CleanupCategory::UserCache, false);
    let policy = ExecutionPolicy::enabled(vec![root(CleanupCategory::UserCache, "/tmp/root-itself")]);
    let now = observation(
        directory_at("/tmp/root-itself"),
        vec![directory_at("/tmp/root-itself")],
    );
    assert_eq!(
        Planner::validate_item_for_execution(&item, &policy, &now),
        Err(SafetyError::OutsideAllowedRoots)
    );
}

#[test]
fn execution_revalidates_symlinks_created_after_scan() {
    let item = scan_item("/tmp/swap/cache.bin", CleanupCategory::UserCache, false);
    let policy = ExecutionPolicy::enabled(vec![root(CleanupCategory::UserCache, "/tmp/swap")]);
    let now = observation(
        PathObservation {
            entry: EntryKind::Symlink,
            canonical: Some("/tmp/swap/target.bin".to_string()),
        },
        vec![directory_at("/tmp/swap")],
    );
    assert_eq!(
        Planner::validate_item_for_execution(&item, &policy, &now),
        Err(SafetyError::SymlinkSelected)
    );
}

#[test]
fn execution_rejects_allow_list_root_swapped_to_symlink() {
    let item = scan_item("/tmp/parent/cache/cache.bin", CleanupCategory::UserCache, false);
    let policy = ExecutionPolicy::enabled(vec![root(CleanupCategory::UserCache, "/tmp/parent/cache")]);
    let swapped = PathObservation {
        entry: EntryKind::Symlink,
        canonical: Some("/tmp/outside".to_string()),
    };
    let now = observation(file_at("/tmp/outside/cache.bin"), vec![swapped]);
    assert_eq!(
        Planner::validate_item_for_execution(&item, &policy, &now),
        Err(SafetyError::OutsideAllowedRoots)
    );
}

#[test]
fn missing_paths_fail_closed_at_execution_time() {
    let item = scan_item("/tmp/missing/gone.bin", CleanupCategory::UserCache, false);
    let policy = ExecutionPolicy::enabled(vec![root(CleanupCategory::UserCache, "/tmp/missing")]);
    let roots = vec![directory_at("/tmp/missing")];
    assert_eq!(
        Planner::validate_item_for_execution(&item, &policy, &observation(missing(), roots.clone())),
        Err(SafetyError::MissingPath)
    );
    let denied = PathObservation {
        entry: EntryKind::PermissionDenied,
        canonical: None,
    };
    assert_eq!(
        Planner::validate_item_for_execution(&item, &policy, &observation(denied, roots.clone())),
        Err(SafetyError::PermissionDenied)
    );
    let unresolved = PathObservation {
        entry: EntryKind::File,
        canonical: None,
    };
    assert_eq!(
        Planner::validate_item_for_execution(&item, &policy, &observation(unresolved, roots)),
        Err(SafetyError::PathRevalidationFailed)
    );
}

#[test]
fn validation_reports_the_first_failing_selected_entry() {
    let plan = CleanupPlan {
        items: vec![
            CleanupPlanItem {
                item: scan_item("/System", CleanupCategory::UserCache, false),
                selected: false,
            },
            selected(scan_item("/tmp/r/a.bin", CleanupCategory::UserCache, false)),
            selected(scan_item("/tmp/r/b.bin", CleanupCategory::UserCache, false)),
        ],
    };
    let policy = ExecutionPolicy::enabled(vec![root(CleanupCategory::UserCache, "/tmp/r")]);
    let roots = vec![directory_at("/tmp/r")];
    let observations = vec![
        observation(directory_at("/System"), roots.clone()),
        observation(file_at("/tmp/r/a.bin"), roots.clone()),
        observation(missing(), roots.clone()),
    ];
    assert_eq!(
        Planner::validate_for_execution(&plan, &policy, &observations),
        Err(SafetyError::MissingPath)
    );
    let all_present = vec![
        observation(directory_at("/System"), roots.clone()),
        observation(file_at("/tmp/r/a.bin"), roots.clone()),
        observation(file_at("/tmp/r/b.bin"), roots),
    ];
    assert_eq!(Planner::validate_for_execution(&plan, &policy, &all_present), Ok(()));
}

#[test]
fn protects_broad_system_roots_but_allows_descendants() {
    assert!(is_protected_broad_root("/", None));
    assert!(is_protected_broad_root("/System", None));
    assert!(is_protected_broad_root("/Library", None));
    assert!(!is_protected_broad_root("/Library/Caches", None));
    assert!(!is_protected_broad_root("/Users/tester/Library/Caches", None));
}

#[test]
fn protects_case_variants_of_broad_roots() {
    assert!(is_protected_broad_root("/system", None));
    assert!(is_protected_broad_root("/LIBRARY", None));
    assert!(is_protected_broad_root("/users", None));
}

#[test]
fn normalizes_parent_components_before_policy_check() {
    assert!(is_protected_broad_root("/System/..", None));
    assert!(is_protected_broad_root("/Library/../System", None));
    assert!(!is_protected_broad_root("/Library/../Library/Caches", None));
}

#[test]
fn resolution_decides_over_the_spelled_path() {
    assert!(is_protected_broad_root("/tmp/link-to-root", Some("/usr")));
    assert!(!is_protected_broad_root("/usr", Some("/tmp/elsewhere")));
}

#[test]
fn protects_windows_drive_and_system_roots_but_allows_descendants() {
    assert!(is_windows_protected_broad_root(r"C:\", None));
    assert!(is_windows_protected_broad_root(r"C:\Windows", None));
    assert!(is_windows_protected_broad_root(r"D:\Program Files", None));
    assert!(is_windows_protected_broad_root(r"C:\Program Files (x86)", None));
    assert!(is_windows_protected_broad_root(r"C:\Program Files (Arm)", None));
    assert!(is_windows_protected_broad_root(r"C:\ProgramData", None));
    assert!(is_windows_protected_broad_root(r"C:\Users", None));
    assert!(!is_windows_protected_broad_root(r"C:\Windows\Temp", None));
    assert!(!is_windows_protected_broad_root(
        r"C:\Users\tester\AppData\Local\Temp",
        None
    ));
}

#[test]
fn protects_windows_case_variants_and_parent_normalization() {
    assert!(is_windows_protected_broad_root(r"c:\WINDOWS", None));
    assert!(is_windows_protected_broad_root(r"C:\Temp\..\Windows", None));
    assert!(!is_windows_protected_broad_root(r"C:\Windows\Temp\..\Temp", None));
}

#[test]
fn protects_unc_share_root() {
    assert!(is_windows_protected_broad_root(r"\\server\share\", None));
    assert!(!is_windows_protected_broad_root(r"\\server\share\cache", None));
}

fn record(path: &str, bytes: u64, result: Result<(), ExecutionFailure>) -> ExecutionRecord {
    ExecutionRecord {
        path: path.to_string(),
        category: CleanupCategory::UserCache,
        action: CleanupAction::MoveToTrash,
        bytes,
        result,
    }
}

#[test]
fn ordinary_backend_failure_is_not_classified_as_skipped() {
    let report = ExecutionReport {
        records: vec![record(
            "/tmp/cache.bin",
            128,
            Err(ExecutionFailure::Backend("permission denied".into())),
        )],
        cancelled: false,
    };

    assert_eq!(report.succeeded_count(), 0);
    assert_eq!(report.skipped_count(), 0);
    assert_eq!(report.failed_count(), 1);
    assert_eq!(report.moved_bytes(), 0);
    assert_eq!(report.outcome_count(ExecutionOutcome::PermissionDenied), 1);
    assert_eq!(
        report.records[0].outcome(),
        ExecutionOutcome::PermissionDenied
    );
}

#[test]
fn finder_permission_wording_is_classified_as_permission_denied() {
    let record = record(
        "/tmp/cache.bin",
        128,
        Err(ExecutionFailure::Backend(
            "Finder says: You don’t have permission to move this item to the Trash.".into(),
        )),
    );

    assert_eq!(record.outcome(), ExecutionOutcome::PermissionDenied);
}

#[test]
fn planner_permission_failure_is_classified_as_permission_denied() {
    let record = record(
        "/tmp/cache.bin",
        128,
        Err(ExecutionFailure::Safety(SafetyError::PermissionDenied)),
    );

    assert_eq!(record.outcome(), ExecutionOutcome::PermissionDenied);
}

#[test]
fn raced_away_backend_failure_is_classified_as_skipped() {
    let report = ExecutionReport {
        records: vec![record(
            "/tmp/cache.bin",
            128,
            Err(ExecutionFailure::Backend(
                "move to Trash failed: path disappeared before Finder could move it".into(),
            )),
        )],
        cancelled: false,
    };

    assert_eq!(report.succeeded_count(), 0);
    assert_eq!(report.skipped_count(), 1);
    assert_eq!(report.failed_count(), 0);
    assert_eq!(report.moved_bytes(), 0);
    assert_eq!(report.records[0].outcome(), ExecutionOutcome::Missing);
}

#[test]
fn windows_recycle_bin_missing_path_is_classified_as_missing() {
    let record = record(
        r"C:\Temp\gone.bin",
        128,
        Err(ExecutionFailure::Backend(
            r"Recycle Bin path does not exist: C:\Temp\gone.bin".into(),
        )),
    );

    assert_eq!(record.outcome(), ExecutionOutcome::Missing);
}

#[test]
fn revalidation_and_protection_have_distinct_outcomes() {
    let changed = record(
        "/tmp/changed",
        32,
        Err(ExecutionFailure::Safety(SafetyError::PathRevalidationFailed)),
    );
    let protected = record(
        "/tmp/protected",
        64,
        Err(ExecutionFailure::Safety(SafetyError::ProtectedRoot)),
    );

    assert_eq!(changed.outcome(), ExecutionOutcome::ChangedSinceScan);
    assert_eq!(protected.outcome(), ExecutionOutcome::Protected);
}

#[test]
fn trash_accounting_labels_moved_bytes_as_scan_estimate_and_not_reclaimed() {
    let report = ExecutionReport {
        records: vec![record("/tmp/cache.bin", 128, Ok(()))],
        cancelled: false,
    };

    let accounting = report.trash_accounting();
    assert_eq!(accounting.moved_scan_estimate_bytes, 128);
    assert_eq!(accounting.reclaimed_bytes, None);
    assert_eq!(report.records[0].outcome(), ExecutionOutcome::Executed);
}

#[test]
fn outcome_counts_partition_the_records() {
    let report = ExecutionReport {
        records: vec![
            record("/tmp/a", 1, Ok(())),
            record("/tmp/b", 2, Err(ExecutionFailure::Safety(SafetyError::MissingPath))),
            record("/tmp/c", 4, Err(ExecutionFailure::Backend("disk exploded".into()))),
            record("/tmp/d", 8, Ok(())),
        ],
        cancelled: false,
    };
    assert_eq!(report.succeeded_count(), 2);
    assert_eq!(report.skipped_count(), 1);
    assert_eq!(report.failed_count(), 1);
    assert_eq!(
        report.succeeded_count() + report.skipped_count() + report.failed_count(),
        report.records.len()
    );
    assert_eq!(report.moved_bytes(), 9);
    assert_eq!(report.permanently_deleted_bytes(), 0);
    assert_eq!(report.outcome_count(ExecutionOutcome::Failed), 1);
}

#[test]
fn cancelling_a_run_records_nothing_more() {
    let plan = Planner::build(vec![
        scan_item("/tmp/exec/first.bin", CleanupCategory::UserCache, false),
        scan_item("/tmp/exec/second.bin", CleanupCategory::UserCache, false),
    ]);
    let policy = ExecutionPolicy::enabled(vec![root(CleanupCategory::UserCache, "/tmp/exec")]);
    let actions = CategoryActionPolicy::trash_only();
    let mut run = CleanupExecutor::start(&plan, &policy, &actions).expect("enabled policy starts");
    assert!(run.item_to_check().is_some());
    run.check_next(
        true,
        &observation(file_at("/tmp/exec/first.bin"), vec![directory_at("/tmp/exec")]),
    );
    assert!(run.item_to_check().is_none());
    assert!(run.pending_action().is_none());
    let report = run.into_report();
    assert!(report.cancelled);
    assert!(report.records.is_empty());
}

#[test]
fn execution_records_each_selected_item_in_plan_order() {
    let mut plan = Planner::build(vec![
        scan_item("/tmp/exec/cache.bin", CleanupCategory::UserCache, false),
        scan_item("/tmp/exec/link", CleanupCategory::UserCache, true),
        scan_item("/tmp/exec/gone.bin", CleanupCategory::UserCache, false),
        scan_item("/tmp/exec/raced.bin", CleanupCategory::UserCache, false),
    ]);
    plan.items[0].item.bytes = 128;
    let policy = ExecutionPolicy::enabled(vec![root(CleanupCategory::UserCache, "/tmp/exec")]);
    let mut actions = CategoryActionPolicy::trash_only();
    actions
        .enable_permanent_delete(CleanupCategory::UserCache)
        .expect("user cache can opt in");
    let roots = vec![directory_at("/tmp/exec")];
    let mut run = CleanupExecutor::start(&plan, &policy, &actions).expect("enabled policy starts");

    assert_eq!(run.item_to_check().map(|e| e.item.path.clone()), Some("/tmp/exec/cache.bin".to_string()));
    run.check_next(false, &observation(file_at("/tmp/exec/cache.bin"), roots.clone()));
    assert_eq!(
        run.pending_action(),
        Some((CleanupAction::PermanentDelete, "/tmp/exec/cache.bin"))
    );
    run.record_backend_result(Ok(()));

    assert_eq!(run.item_to_check().map(|e| e.item.path.clone()), Some("/tmp/exec/gone.bin".to_string()));
    run.check_next(false, &observation(missing(), roots.clone()));
    assert!(run.pending_action().is_none());

    run.check_next(false, &observation(file_at("/tmp/exec/raced.bin"), roots.clone()));
    run.record_backend_result(Err("path no longer exists".to_string()));
    assert!(run.item_to_check().is_none());

    let report = run.into_report();
    assert!(!report.cancelled);
    assert_eq!(report.records.len(), 3);
    assert_eq!(report.records[0].outcome(), ExecutionOutcome::Executed);
    assert_eq!(report.records[0].action, CleanupAction::PermanentDelete);
    assert_eq!(report.records[1].outcome(), ExecutionOutcome::Missing);
    assert_eq!(report.records[2].outcome(), ExecutionOutcome::Missing);
    assert_eq!(report.permanently_deleted_bytes(), 128);
    assert_eq!(report.moved_bytes(), 0);
    assert_eq!(report.skipped_count(), 2);
}

#[test]
fn execution_is_refused_while_destructive_actions_are_disabled() {
    let plan = Planner::build(vec![scan_item("/tmp/a", CleanupCategory::UserCache, false)]);
    let policy = ExecutionPolicy::default();
    let actions = CategoryActionPolicy::trash_only();
    assert!(matches!(
        CleanupExecutor::start(&plan, &policy, &actions),
        Err(SafetyError::DestructiveActionsDisabled)
    ));
}

#[test]
fn only_high_confidence_candidates_are_not_review_only() {
    assert!(!MatchConfidence::High.is_review_only());
    assert!(MatchConfidence::Medium.is_review_only());
    assert!(MatchConfidence::Low.is_review_only());
}

#[test]
fn report_sort_deduplicates_paths_and_keeps_strongest_evidence() {
    let path = "/tmp/com.example.app".to_string();
    let mut report = RelatedFileReport {
        candidates: vec![
            RelatedFileCandidate::new(
                path.clone(),
                RelatedFileKind::Cache,
                MatchConfidence::Low,
                MatchEvidence::ExactDisplayName("Example".into()),
            ),
            RelatedFileCandidate::new(
                path.clone(),
                RelatedFileKind::Cache,
                MatchConfidence::High,
                MatchEvidence::ExactBundleIdentifier("com.example.app".into()),
            ),
        ],
    };

    report.sort_deterministically();

    assert_eq!(report.candidates.len(), 1);
    assert_eq!(report.candidates[0].confidence, MatchConfidence::High);
}

#[test]
fn related_sort_orders_distinct_paths() {
    let mut report = RelatedFileReport {
        candidates: vec![
            RelatedFileCandidate::new(
                "/tmp/b".to_string(),
                RelatedFileKind::Cache,
                MatchConfidence::Low,
                MatchEvidence::ExactDisplayName("B".into()),
            ),
            RelatedFileCandidate::new(
                "/tmp/a".to_string(),
                RelatedFileKind::Preference,
                MatchConfidence::Medium,
                MatchEvidence::BundleIdentifierPrefix("a".into()),
            ),
        ],
    };
    report.sort_deterministically();
    let paths: Vec<&str> = report.candidates.iter().map(|c| c.path.as_str()).collect();
    assert_eq!(paths, vec!["/tmp/a", "/tmp/b"]);
}

#[test]
fn report_sort_is_deterministic_and_keeps_strongest_duplicate() {
    let path = "/tmp/com.example.app".to_string();
    let mut report = OrphanReport {
        candidates: vec![
            OrphanCandidate::new(
                "z.example.app".to_string(),
                path.clone(),
                RelatedFileKind::Preference,
                MatchConfidence::Medium,
            ),
            OrphanCandidate::new(
                "a.example.app".to_string(),
                path,
                RelatedFileKind::Cache,
                MatchConfidence::High,
            ),
        ],
        issues: Vec::new(),
    };

    report.sort_deterministically();

    assert_eq!(report.candidates.len(), 1);
    assert_eq!(report.candidates[0].confidence, MatchConfidence::High);
    assert_eq!(report.candidates[0].bundle_identifier, "a.example.app");
}

fn app(bundle_identifier: &str) -> InstalledApplication {
    let mut metadata = ApplicationMetadata::default();
    metadata.bundle_identifier = Some(bundle_identifier.to_string());
    InstalledApplication::new(
        "/Applications/Example.app".to_string(),
        "Example".to_string(),
        ApplicationLocation::Local,
    )
    .with_metadata(metadata)
}

fn related(confidence: MatchConfidence, path: &str) -> RelatedFileCandidate {
    RelatedFileCandidate::new(
        path.to_string(),
        RelatedFileKind::Cache,
        confidence,
        MatchEvidence::ExactBundleIdentifier("com.example.app".into()),
    )
}

#[test]
fn unprotected_plan_selects_required_app_and_high_confidence_related_by_default() {
    let mut plan = UninstallPlan::build(
        app("com.example.app"),
        RelatedFileReport {
            candidates: vec![
                related(MatchConfidence::High, "/tmp/high"),
                related(MatchConfidence::Medium, "/tmp/medium"),
                related(MatchConfidence::Low, "/tmp/low"),
            ],
        },
    );

    assert!(!plan.is_protected());
    assert_eq!(plan.selected_count(), 2);
    assert!(plan.items().iter().any(|item| {
        item.path() == "/Applications/Example.app"
            && item.is_selected()
            && item.is_required()
            && !item.is_selectable()
    }));
    assert!(!plan.set_selected("/Applications/Example.app", false));
    assert!(plan
        .items()
        .iter()
        .any(|item| { item.path() == "/tmp/high" && item.is_selected() && !item.is_review_only() }));
    assert!(plan
        .items()
        .iter()
        .any(|item| { item.path() == "/tmp/medium" && !item.is_selected() && item.is_review_only() }));
    assert!(plan
        .items()
        .iter()
        .any(|item| { item.path() == "/tmp/low" && !item.is_selected() && item.is_review_only() }));
}

#[test]
fn protected_plan_locks_every_item() {
    let mut plan = UninstallPlan::build(
        app("com.apple.Safari"),
        RelatedFileReport {
            candidates: vec![related(MatchConfidence::High, "/tmp/high")],
        },
    );

    assert!(plan.is_protected());
    assert_eq!(plan.selected_count(), 0);
    assert!(plan
        .items()
        .iter()
        .all(|item| !item.is_selected() && !item.is_selectable() && !item.is_required()));
    assert!(!plan.set_selected("/tmp/high", true));
}

#[test]
fn review_only_item_can_be_explicitly_selected_on_unprotected_plan() {
    let mut plan = UninstallPlan::build(
        app("com.example.app"),
        RelatedFileReport {
            candidates: vec![related(MatchConfidence::Medium, "/tmp/medium")],
        },
    );

    assert!(plan.set_selected("/tmp/medium", true));
    assert!(plan
        .items()
        .iter()
        .any(|item| { item.path() == "/tmp/medium" && item.is_selected() && item.is_review_only() }));
}

#[test]
fn missing_outcome_alone_does_not_make_a_record_skipped() {
    let report = ExecutionReport {
        records: vec![record(
            r"C:\Temp\gone.bin",
            128,
            Err(ExecutionFailure::Backend(
                r"Recycle Bin path does not exist: C:\Temp\gone.bin".into(),
            )),
        )],
        cancelled: false,
    };
    assert_eq!(report.records[0].outcome(), ExecutionOutcome::Missing);
    assert_eq!(report.skipped_count(), 0);
    assert_eq!(report.failed_count(), 1);
}

#[test]
fn trimming_removes_exactly_the_unicode_white_space() {
    assert_eq!(trim_str("\u{3000}\u{85}\t x y \u{2029}\u{A0}"), "x y".to_string());
    assert_eq!(trim_str("\u{200B}x\u{FEFF}"), "\u{200B}x\u{FEFF}".to_string());
    assert_eq!(trim_str(" \n "), String::new());
}

#[test]
fn windows_paths_compare_by_prefix_and_components() {
    assert!(starts_with_path_in(PathStyle::Windows, r"C:\T\a", r"C:\T"));
    assert!(starts_with_path_in(PathStyle::Windows, r"c:/T/a/", r"C:\T\"));
    assert!(!starts_with_path_in(PathStyle::Windows, r"C:\Ta", r"C:\T"));
    assert!(!starts_with_path_in(PathStyle::Windows, r"D:\T\a", r"C:\T"));
    assert!(!starts_with_path_in(PathStyle::Windows, r"\T\a", r"C:\T"));
    assert!(!starts_with_path_in(PathStyle::Unix, r"C:\T\a", r"C:\T"));
    assert!(paths_equal_in(PathStyle::Windows, r"C:\T\.\a", r"c:/T/a"));
    assert!(!paths_equal_in(PathStyle::Windows, r"C:\T\a", r"C:\T\A"));
    assert!(paths_equal_in(PathStyle::Windows, r"\\server\share\x", r"//server/share/x"));
    assert!(starts_with_path_in(PathStyle::Windows, r"\\server\share\x", r"\\server\share\"));
}

#[test]
fn windows_joins_use_the_windows_separator() {
    assert_eq!(join_path_in(PathStyle::Windows, r"C:\Users", "tester"), r"C:\Users\tester");
    assert_eq!(join_path_in(PathStyle::Windows, r"C:\Users\", "tester"), r"C:\Users\tester");
    assert_eq!(join_path_in(PathStyle::Windows, "C:", "tester"), "C:tester");
    assert_eq!(join_path_in(PathStyle::Windows, r"C:\Users", r"D:\x"), r"D:\x");
    assert_eq!(join_path_in(PathStyle::Windows, r"C:\Users", r"\x"), r"C:\x");
    assert_eq!(join_path_in(PathStyle::Unix, "/Users", "tester"), "/Users/tester");
}

#[test]
fn windows_execution_policy_reads_windows_paths_and_roots() {
    let policy = ExecutionPolicy::enabled_for(
        PathStyle::Windows,
        vec![root(CleanupCategory::UserCache, r"C:\Users\tester\AppData\Local\Temp")],
    );
    let item = scan_item(r"C:\Users\tester\AppData\Local\Temp\a.bin", CleanupCategory::UserCache, false);
    let now = observation(
        file_at(r"C:\Users\tester\AppData\Local\Temp\a.bin"),
        vec![directory_at(r"C:\Users\tester\AppData\Local\Temp")],
    );
    assert_eq!(
        Planner::validate_item_for_execution(&item, &policy, &now),
        Ok(r"C:\Users\tester\AppData\Local\Temp\a.bin".to_string())
    );
    let unix = ExecutionPolicy::enabled(vec![root(
        CleanupCategory::UserCache,
        r"C:\Users\tester\AppData\Local\Temp",
    )]);
    assert_eq!(
        Planner::validate_item_for_execution(&item, &unix, &now),
        Err(SafetyError::OutsideAllowedRoots)
    );
    let system = scan_item(r"C:\Windows", CleanupCategory::UserCache, false);
    let system_now = observation(directory_at(r"C:\Windows"), vec![directory_at(r"C:\Users\tester\AppData\Local\Temp")]);
    assert_eq!(
        Planner::validate_item_for_execution(&system, &policy, &system_now),
        Err(SafetyError::ProtectedRoot)
    );
}
