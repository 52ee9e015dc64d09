use dxtr_cleaner::action_policy::CleanupAction;
use dxtr_cleaner::executor::{ExecutionFailure, ExecutionOutcome, ExecutionRecord, ExecutionReport};
use dxtr_cleaner::listing::{DirectoryEntry, EntryType};
use dxtr_cleaner::mac_platform::{FullDiskAccessReport, PermissionStatus};
use dxtr_cleaner::model::{CleanupCategory, ScanItem};
use dxtr_cleaner::planner::{EntryKind, SafetyError};
use dxtr_cleaner::target::CategoryScanTarget;
use dxtr_cleaner::trust::{scan_coverage, ExecutionTrustSummary, ScanCoverage};
use dxtr_cleaner::windows::{
    is_windows_absolute_path, WindowsBrowserCacheScan, WindowsBuildCacheScan,
    WindowsDevCacheScan, WindowsExplorerCacheScan, WindowsLocalAppDataCacheScan, WindowsPaths,
    WindowsScanSet, WindowsTempScan, WindowsWerCacheScan,
};
use dxtr_cleaner::windows_cleanup::{
    WindowsDisposableCleanup, WindowsSmartCleanup, WindowsTrashBackend,
};

/// What `Path::join` gives for a relative component on Windows.
fn join(base: &str, child: &str) -> String {
    format!("{base}\\{child}")
}

fn tester_paths() -> WindowsPaths {
    WindowsPaths {
        user_profile: r"C:\Users\tester".to_string(),
        local_app_data: r"C:\Users\tester\AppData\Local".to_string(),
        program_data: r"C:\ProgramData".to_string(),
        system_root: r"C:\Windows".to_string(),
        temp: r"C:\Users\tester\AppData\Local\Temp".to_string(),
    }
}

fn env(pairs: &[(&str, &str)]) -> Vec<(String, String)> {
    pairs
        .iter()
        .map(|(k, v)| (k.to_string(), v.to_string()))
        .collect()
}

#[test]
fn permanent_delete_fails_closed() {
    let error = WindowsTrashBackend
        .permanent_delete("unused")
        .expect_err("permanent delete must remain locked");
    assert!(error.contains("safety-locked"));
}

#[test]
fn recycle_preflight_refuses_what_it_cannot_move() {
    let backend = WindowsTrashBackend;
    assert_eq!(
        backend.recycle_preflight(false, r"C:\Temp\a.bin", true),
        Err("Windows Recycle Bin backend is unavailable on this platform".to_string())
    );
    assert_eq!(
        backend.recycle_preflight(true, r"Temp\a.bin", true),
        Err("Recycle Bin path must be absolute".to_string())
    );
    let gone = backend
        .recycle_preflight(true, r"C:\Temp\gone.bin", false)
        .unwrap_err();
    assert_eq!(gone, r"Recycle Bin path does not exist: C:\Temp\gone.bin");
    let record = ExecutionRecord {
        path: r"C:\Temp\gone.bin".to_string(),
        category: CleanupCategory::UserCache,
        action: CleanupAction::MoveToTrash,
        bytes: 1,
        result: Err(ExecutionFailure::Backend(gone)),
    };
    assert_eq!(record.outcome(), ExecutionOutcome::Missing);
    assert_eq!(backend.recycle_preflight(true, r"C:\Temp\a.bin", true), Ok(()));
}

#[test]
fn discovery_fails_closed_off_windows() {
    let snapshot = env(&[
        ("USERPROFILE", r"C:\Users\tester"),
        ("LOCALAPPDATA", r"C:\Users\tester\AppData\Local"),
        ("PROGRAMDATA", r"C:\ProgramData"),
        ("SystemRoot", r"C:\Windows"),
    ]);
    assert!(WindowsPaths::discover(false, &snapshot, r"C:\Temp".to_string()).is_err());
}

#[test]
fn discovers_required_paths_on_windows_runner() {
    let snapshot = env(&[
        ("USERPROFILE", r"C:\Users\tester"),
        ("LOCALAPPDATA", r"C:\Users\tester\AppData\Local"),
        ("PROGRAMDATA", r"C:\ProgramData"),
        ("SystemRoot", r"C:\Windows"),
    ]);
    let paths = WindowsPaths::discover(true, &snapshot, r"C:\Users\tester\AppData\Local\Temp".to_string())
        .expect("discover Windows path snapshot");
    assert!(is_windows_absolute_path(&paths.user_profile));
    assert!(is_windows_absolute_path(&paths.local_app_data));
    assert!(is_windows_absolute_path(&paths.program_data));
    assert!(is_windows_absolute_path(&paths.system_root));
    assert!(is_windows_absolute_path(&paths.temp));
}

#[test]
fn rejects_missing_or_relative_required_paths() {
    let missing = WindowsPaths::from_lookup_and_temp(
        &env(&[("USERPROFILE", r"C:\\Users\\tester")]),
        r"C:\\Temp".to_string(),
    )
    .expect_err("missing required paths must fail");
    assert!(missing.contains("LOCALAPPDATA"));

    let relative = WindowsPaths::from_lookup_and_temp(
        &env(&[
            ("USERPROFILE", r"C:\\Users\\tester"),
            ("LOCALAPPDATA", r"C:\\Users\\tester\\AppData\\Local"),
            ("PROGRAMDATA", r"C:\\ProgramData"),
            ("SystemRoot", r"C:\\Windows"),
        ]),
        r"relative\\temp".to_string(),
    )
    .expect_err("relative temp path must fail");
    assert!(relative.contains("temporary directory"));
}

#[test]
fn builds_only_known_build_cache_roots() {
    let paths = tester_paths();
    let user = paths.user_profile.clone();
    let local = paths.local_app_data.clone();

    let request = WindowsBuildCacheScan::new(&paths).request();

    assert_eq!(request.category, CleanupCategory::UserCache);
    assert_eq!(
        request.roots,
        vec![
            join(&join(&local, "NuGet"), "v3-cache"),
            join(&join(&user, ".gradle"), "caches"),
        ]
    );
    assert!(request.excluded_roots.is_empty());
}

#[test]
fn builds_only_known_node_package_manager_cache_roots() {
    let paths = tester_paths();
    let local = paths.local_app_data.clone();

    let request = WindowsDevCacheScan::new(&paths).request();

    assert_eq!(request.category, CleanupCategory::Node);
    assert_eq!(
        request.roots,
        vec![
            join(&local, "npm-cache"),
            join(&join(&local, "pnpm"), "store"),
            join(&join(&local, "Yarn"), "Cache"),
        ]
    );
    assert!(request.excluded_roots.is_empty());
}

#[test]
fn builds_user_cache_request_from_typed_windows_paths() {
    let paths = tester_paths();

    let request = WindowsTempScan::new(&paths).request();
    assert_eq!(request.category, CleanupCategory::UserCache);
    assert_eq!(request.roots, vec![paths.temp.clone()]);
    assert!(request.excluded_roots.is_empty());
}

#[test]
fn targets_only_user_wer_archive_and_queue() {
    let paths = tester_paths();

    let request = WindowsWerCacheScan::new(&paths).request();
    let wer = join(&join(&join(&paths.local_app_data, "Microsoft"), "Windows"), "WER");

    assert_eq!(request.category, CleanupCategory::UserCache);
    assert_eq!(
        request.roots,
        vec![join(&wer, "ReportArchive"), join(&wer, "ReportQueue")]
    );
    assert!(request.excluded_roots.is_empty());
    assert!(!request.roots.iter().any(|root| root == &wer));
}

fn dir_entry(path: &str, name: &str, entry_type: EntryType) -> DirectoryEntry {
    DirectoryEntry {
        path: path.to_string(),
        name: Some(name.to_string()),
        entry_type,
    }
}

#[test]
fn discovers_only_package_local_cache_directories() {
    let paths = tester_paths();
    let packages = WindowsLocalAppDataCacheScan::packages_directory(&paths);
    assert_eq!(packages, join(&paths.local_app_data, "Packages"));
    let entries = vec![
        dir_entry(&join(&packages, "Vendor.App_b"), "Vendor.App_b", EntryType::Directory),
        dir_entry(&join(&packages, "Vendor.App_a"), "Vendor.App_a", EntryType::Directory),
        dir_entry(&join(&packages, "readme.txt"), "readme.txt", EntryType::File),
    ];
    let candidates = WindowsLocalAppDataCacheScan::candidates(&entries);
    assert_eq!(candidates.len(), 2);
    let kinds = vec![EntryKind::Directory, EntryKind::Directory];
    let scan = WindowsLocalAppDataCacheScan::from_candidates(candidates, &kinds);
    assert_eq!(
        scan.roots(),
        vec![
            join(&join(&packages, "Vendor.App_a"), "LocalCache"),
            join(&join(&packages, "Vendor.App_b"), "LocalCache"),
        ]
    );
    let none = WindowsLocalAppDataCacheScan::from_candidates(
        vec![join(&join(&packages, "Vendor.App_a"), "LocalCache")],
        &vec![EntryKind::Missing],
    );
    assert!(none.roots().is_empty());
}

#[test]
fn discovers_only_explorer_cache_databases() {
    let paths = tester_paths();
    let explorer = WindowsExplorerCacheScan::explorer_directory(&paths);
    let scan = WindowsExplorerCacheScan::from_listing(vec![
        dir_entry(&join(&explorer, "thumbcache_256.db"), "thumbcache_256.db", EntryType::File),
        dir_entry(&join(&explorer, "iconcache_32.db"), "iconcache_32.db", EntryType::File),
        dir_entry(&join(&explorer, "unrelated.db"), "unrelated.db", EntryType::File),
        dir_entry(&join(&explorer, "thumbcache_notes.txt"), "thumbcache_notes.txt", EntryType::File),
        dir_entry(&join(&explorer, "thumbcache_dir.db"), "thumbcache_dir.db", EntryType::Directory),
    ]);
    let roots = scan.roots();
    assert_eq!(
        roots,
        vec![
            join(&explorer, "iconcache_32.db"),
            join(&explorer, "thumbcache_256.db"),
        ]
    );
    assert_eq!(scan.category(), CleanupCategory::UserCache);
}

#[test]
fn discovers_only_known_chromium_profile_cache_directories() {
    let paths = tester_paths();
    let user_data = WindowsBrowserCacheScan::user_data_directories(&paths);
    assert_eq!(user_data.len(), 2);
    let chrome = user_data[0].clone();
    let entries = vec![
        dir_entry(&join(&chrome, "Default"), "Default", EntryType::Directory),
        dir_entry(&join(&chrome, "Profile 1"), "Profile 1", EntryType::Directory),
        dir_entry(&join(&chrome, "Guest Profile"), "Guest Profile", EntryType::Directory),
        dir_entry(&join(&chrome, "History"), "History", EntryType::File),
    ];
    let candidates = WindowsBrowserCacheScan::candidates(&entries);
    assert_eq!(candidates.len(), 6);
    let kinds: Vec<EntryKind> = candidates
        .iter()
        .map(|c| {
            if c.ends_with("\\Cache") && c.contains("Default") || c.ends_with("Code Cache") && c.contains("Profile 1") {
                EntryKind::Directory
            } else {
                EntryKind::Missing
            }
        })
        .collect();
    let scan = WindowsBrowserCacheScan::from_candidates(candidates, &kinds);
    assert_eq!(
        scan.roots(),
        vec![
            join(&join(&chrome, "Default"), "Cache"),
            join(&join(&chrome, "Profile 1"), "Code Cache"),
        ]
    );
}

#[test]
fn aggregates_known_windows_scan_requests_without_empty_discovery_targets() {
    let paths = tester_paths();
    let local = WindowsLocalAppDataCacheScan::from_candidates(
        vec![join(&join(&join(&paths.local_app_data, "Packages"), "Vendor.App"), "LocalCache")],
        &vec![EntryKind::Directory],
    );
    let explorer = WindowsExplorerCacheScan::from_listing(Vec::new());
    let browser = WindowsBrowserCacheScan::from_candidates(Vec::new(), &Vec::new());
    let set = WindowsScanSet::from_targets(&paths, &local, &explorer, &browser);
    let requests = set.into_requests();
    assert_eq!(requests.len(), 5);
    assert_eq!(requests[0].roots, vec![paths.temp.clone()]);
    assert_eq!(requests[2].category, CleanupCategory::Node);
    assert_eq!(requests[4].roots.len(), 1);
}

#[test]
fn disposable_cleanup_policies_pin_the_root_alone() {
    let items = vec![ScanItem {
        path: r"C:\cleanup\cache.bin".to_string(),
        category: CleanupCategory::UserCache,
        bytes: 5,
        is_symlink: false,
    }];
    let plan = WindowsDisposableCleanup::build_plan(items);
    assert!(plan.items[0].selected);
    let (execution, actions) =
        WindowsDisposableCleanup::policies(r"C:\cleanup".to_string(), Some(r"C:\cleanup".to_string()));
    assert!(execution.destructive_actions_enabled);
    assert_eq!(execution.allowed_roots.len(), 1);
    assert_eq!(execution.allowed_roots[0].category, CleanupCategory::UserCache);
    assert_eq!(actions.action_for(CleanupCategory::UserCache), CleanupAction::MoveToTrash);
    assert_eq!(actions.action_for(CleanupCategory::Node), CleanupAction::MoveToTrash);
}

#[test]
fn smart_cleanup_pins_every_provider_root() {
    let paths = tester_paths();
    let local = WindowsLocalAppDataCacheScan::from_candidates(Vec::new(), &Vec::new());
    let explorer = WindowsExplorerCacheScan::from_listing(Vec::new());
    let browser = WindowsBrowserCacheScan::from_candidates(Vec::new(), &Vec::new());
    let set = WindowsScanSet::from_targets(&paths, &local, &explorer, &browser);
    let roots = WindowsSmartCleanup::root_paths(&set);
    assert_eq!(roots[0], (CleanupCategory::UserCache, paths.temp.clone()));
    let canonical: Vec<Option<String>> = roots.iter().map(|(_, p)| Some(p.clone())).collect();
    let cleanup = WindowsSmartCleanup::from_scan_set(roots.clone(), canonical);
    let policy = cleanup.execution_policy();
    assert!(policy.destructive_actions_enabled);
    assert_eq!(policy.allowed_roots.len(), roots.len());
    assert_eq!(policy.allowed_roots[0].path, paths.temp);
}

#[test]
fn smart_cleanup_refuses_items_that_lost_their_review_identity() {
    let items = vec![
        ScanItem {
            path: r"C:\Temp\reviewed.bin".to_string(),
            category: CleanupCategory::UserCache,
            bytes: 7,
            is_symlink: false,
        },
        ScanItem {
            path: r"C:\Temp\link".to_string(),
            category: CleanupCategory::UserCache,
            bytes: 0,
            is_symlink: true,
        },
    ];
    assert_eq!(
        WindowsSmartCleanup::identity_paths(&items),
        vec![r"C:\Temp\reviewed.bin".to_string()]
    );
    let reviewed = WindowsSmartCleanup::build_plan(items, vec![None]);
    assert_eq!(
        WindowsSmartCleanup::recheck_paths(&reviewed),
        vec![r"C:\Temp\reviewed.bin".to_string()]
    );
    let matches = WindowsSmartCleanup::identity_matches(&reviewed, &vec![None]);
    assert_eq!(matches, vec![false]);
    let (kept, refused) = WindowsSmartCleanup::split_reviewed(&reviewed, &matches);
    assert!(kept.items.is_empty());
    assert_eq!(refused.records.len(), 1);
    assert_eq!(refused.records[0].outcome(), ExecutionOutcome::ChangedSinceScan);
    assert_eq!(refused.records[0].action, CleanupAction::MoveToTrash);

    let kept_all = WindowsSmartCleanup::split_reviewed(&reviewed, &vec![true]).0;
    assert_eq!(kept_all.items.len(), 1);
    assert!(kept_all.items[0].selected);
}

#[test]
fn merged_reports_keep_refusals_then_executions() {
    let refused = ExecutionReport {
        records: vec![ExecutionRecord {
            path: "/a".to_string(),
            category: CleanupCategory::UserCache,
            action: CleanupAction::MoveToTrash,
            bytes: 1,
            result: Err(ExecutionFailure::Safety(SafetyError::PathRevalidationFailed)),
        }],
        cancelled: false,
    };
    let executed = ExecutionReport {
        records: vec![ExecutionRecord {
            path: "/b".to_string(),
            category: CleanupCategory::UserCache,
            action: CleanupAction::MoveToTrash,
            bytes: 2,
            result: Ok(()),
        }],
        cancelled: true,
    };
    let merged = WindowsSmartCleanup::merge_reports(refused, executed);
    let paths: Vec<&str> = merged.records.iter().map(|r| r.path.as_str()).collect();
    assert_eq!(paths, vec!["/a", "/b"]);
    assert!(merged.cancelled);
}

fn fda(status: PermissionStatus) -> FullDiskAccessReport {
    FullDiskAccessReport {
        status,
        probe_path: None,
        detail: "fixture".into(),
    }
}

#[test]
fn permission_denied_paths_force_partial_coverage() {
    assert_eq!(
        scan_coverage(Some(&fda(PermissionStatus::Granted)), 1),
        ScanCoverage::Partial
    );
}

#[test]
fn granted_fda_without_scan_denials_is_full_coverage() {
    assert_eq!(
        scan_coverage(Some(&fda(PermissionStatus::Granted)), 0),
        ScanCoverage::Full
    );
}

#[test]
fn denied_fda_is_partial_even_before_scan_denials_are_observed() {
    assert_eq!(
        scan_coverage(Some(&fda(PermissionStatus::Denied)), 0),
        ScanCoverage::Partial
    );
}

#[test]
fn unknown_fda_does_not_claim_full_coverage() {
    assert_eq!(
        scan_coverage(Some(&fda(PermissionStatus::Unknown)), 0),
        ScanCoverage::Unknown
    );
    assert_eq!(scan_coverage(None, 0), ScanCoverage::Unknown);
}

#[test]
fn coverage_labels_read_naturally() {
    assert_eq!(ScanCoverage::Full.label(), "Full scan");
    assert_eq!(ScanCoverage::Partial.label(), "Partial scan");
    assert_eq!(ScanCoverage::Unknown.label(), "Scan coverage unknown");
}

#[test]
fn execution_summary_preserves_typed_partial_success() {
    let record = |path: &str, bytes: u64, result: Result<(), ExecutionFailure>| ExecutionRecord {
        path: path.to_string(),
        category: CleanupCategory::UserCache,
        action: CleanupAction::MoveToTrash,
        bytes,
        result,
    };
    let report = ExecutionReport {
        records: vec![
            record("/tmp/moved", 128, Ok(())),
            record(
                "/tmp/denied",
                64,
                Err(ExecutionFailure::Safety(SafetyError::PermissionDenied)),
            ),
            record(
                "/tmp/missing",
                32,
                Err(ExecutionFailure::Safety(SafetyError::MissingPath)),
            ),
        ],
        cancelled: false,
    };

    let summary = ExecutionTrustSummary::from_report(&report);
    assert_eq!(summary.executed, 1);
    assert_eq!(summary.permission_denied, 1);
    assert_eq!(summary.missing, 1);
    assert_eq!(summary.attention_count(), 2);
    assert_eq!(summary.moved_scan_estimate_bytes, 128);
    assert_eq!(summary.reclaimed_bytes, None);
}

#[test]
fn environment_names_match_ignoring_case() {
    let snapshot = env(&[
        ("UserProfile", r"C:\Users\tester"),
        ("localappdata", r"C:\Users\tester\AppData\Local"),
        ("ProgramData", r"C:\ProgramData"),
        ("SYSTEMROOT", r"C:\Windows"),
    ]);
    let paths = WindowsPaths::discover(true, &snapshot, r"C:\Temp".to_string())
        .expect("names differ only in case");
    assert_eq!(paths.user_profile, r"C:\Users\tester");
    assert_eq!(paths.system_root, r"C:\Windows");
}
