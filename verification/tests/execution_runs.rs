use std::cell::RefCell;
use std::collections::BTreeMap;

use dxtr_cleaner::action_policy::{CategoryActionPolicy, CleanupAction};
use dxtr_cleaner::app_inventory::{ApplicationLocation, ApplicationMetadata, InstalledApplication};
use dxtr_cleaner::cancellation::CancellationToken;
use dxtr_cleaner::executor::{
    CleanupExecutor, ExecutionFailure, ExecutionRecord, ExecutionReport, PermanentDeleteBackend,
    TrashBackend,
};
use dxtr_cleaner::model::{CleanupCategory, CleanupPlan, CleanupPlanItem, ScanItem};
use dxtr_cleaner::planner::{AllowedRoot, EntryKind, ExecutionPolicy, PathObservation, SafetyError};
use dxtr_cleaner::related_files::{
    MatchConfidence, MatchEvidence, RelatedFileCandidate, RelatedFileKind, RelatedFileReport,
};
use dxtr_cleaner::uninstall_execution::{
    RelatedFileExecutionRoot, UninstallExecutionError, UninstallExecutionPolicy,
    UninstallExecutor,
};
use dxtr_cleaner::uninstall_plan::{UninstallPlan, UninstallPlanItemKind};
use dxtr_cleaner::windows_cleanup::{WindowsDisposableCleanup, WindowsSmartCleanup};

/// An in-memory file system: what each path is now.
#[derive(Default)]
struct Disk {
    entries: RefCell<BTreeMap<String, EntryKind>>,
}

impl Disk {
    fn with(paths: &[(&str, EntryKind)]) -> Disk {
        let disk = Disk::default();
        for (path, kind) in paths {
            disk.entries.borrow_mut().insert(path.to_string(), *kind);
        }
        disk
    }

    fn observe(&self, path: &str) -> PathObservation {
        match self.entries.borrow().get(path) {
            Some(kind) => PathObservation {
                entry: *kind,
                canonical: Some(path.to_string()),
            },
            None => PathObservation {
                entry: EntryKind::Missing,
                canonical: None,
            },
        }
    }

    fn contains(&self, path: &str) -> bool {
        self.entries.borrow().contains_key(path)
    }
}

/// Records what it was asked to do and removes it from the disk.
struct RecordingBackend<'a> {
    disk: &'a Disk,
    trashed: RefCell<Vec<String>>,
    deleted: RefCell<Vec<String>>,
}

impl<'a> RecordingBackend<'a> {
    fn new(disk: &'a Disk) -> Self {
        RecordingBackend {
            disk,
            trashed: RefCell::new(Vec::new()),
            deleted: RefCell::new(Vec::new()),
        }
    }
}

impl TrashBackend for RecordingBackend<'_> {
    fn move_to_trash(&self, path: &str) -> Result<(), String> {
        self.trashed.borrow_mut().push(path.to_string());
        match self.disk.entries.borrow_mut().remove(path) {
            Some(_) => Ok(()),
            None => Err(format!("{path}: path no longer exists")),
        }
    }
}

impl PermanentDeleteBackend for RecordingBackend<'_> {
    fn permanent_delete(&self, path: &str) -> Result<(), String> {
        self.deleted.borrow_mut().push(path.to_string());
        self.disk.entries.borrow_mut().remove(path);
        Ok(())
    }
}

struct FinderRaceBackend;

impl TrashBackend for FinderRaceBackend {
    fn move_to_trash(&self, _path: &str) -> Result<(), String> {
        Err("move to Trash failed: path disappeared before Finder could move it".into())
    }
}

impl PermanentDeleteBackend for FinderRaceBackend {
    fn permanent_delete(&self, _path: &str) -> Result<(), String> {
        unreachable!("fixture uses Trash-only action policy")
    }
}

fn plan_for(paths: &[&str]) -> CleanupPlan {
    CleanupPlan {
        items: paths
            .iter()
            .map(|path| CleanupPlanItem {
                item: ScanItem {
                    path: path.to_string(),
                    category: CleanupCategory::UserCache,
                    bytes: 1,
                    is_symlink: false,
                },
                selected: true,
            })
            .collect(),
    }
}

fn execution_policy(root: &str) -> ExecutionPolicy {
    ExecutionPolicy::enabled(vec![AllowedRoot::pinned_to(
        CleanupCategory::UserCache,
        root.to_string(),
        Some(root.to_string()),
    )])
}

#[test]
fn cancellation_stops_before_validation_or_backend_work() {
    let disk = Disk::with(&[
        ("/tmp/executor", EntryKind::Directory),
        ("/tmp/executor/a", EntryKind::File),
        ("/tmp/executor/b", EntryKind::File),
    ]);
    let plan = plan_for(&["/tmp/executor/a", "/tmp/executor/b"]);
    let cancellation = CancellationToken::new();
    cancellation.cancel();
    let backend = RecordingBackend::new(&disk);

    let report = CleanupExecutor::execute(
        &plan,
        &execution_policy("/tmp/executor"),
        &CategoryActionPolicy::trash_only(),
        &cancellation,
        &backend,
        |p: &str| disk.observe(p),
    )
    .expect("execution report");
    assert!(report.cancelled);
    assert!(report.records.is_empty());
    assert!(backend.trashed.borrow().is_empty());
    assert!(backend.deleted.borrow().is_empty());
}

#[test]
fn revalidation_missing_path_is_reported_as_skipped_not_failed() {
    let disk = Disk::with(&[
        ("/tmp/partial", EntryKind::Directory),
        ("/tmp/partial/duplicate", EntryKind::File),
    ]);
    let plan = plan_for(&["/tmp/partial/duplicate", "/tmp/partial/duplicate"]);
    let backend = RecordingBackend::new(&disk);

    let report = CleanupExecutor::execute(
        &plan,
        &execution_policy("/tmp/partial"),
        &CategoryActionPolicy::trash_only(),
        &CancellationToken::new(),
        &backend,
        |p: &str| disk.observe(p),
    )
    .expect("execution report");

    assert_eq!(report.succeeded_count(), 1);
    assert_eq!(report.skipped_count(), 1);
    assert_eq!(report.failed_count(), 0);
    assert_eq!(report.moved_bytes(), 1);
    assert_eq!(report.permanently_deleted_bytes(), 0);
    assert!(matches!(
        report.records[1].result,
        Err(ExecutionFailure::Safety(SafetyError::MissingPath))
    ));
}

#[test]
fn finder_race_backend_message_is_reported_as_skipped_not_failed() {
    let disk = Disk::with(&[
        ("/tmp/race", EntryKind::Directory),
        ("/tmp/race/cache", EntryKind::File),
    ]);
    let report = CleanupExecutor::execute(
        &plan_for(&["/tmp/race/cache"]),
        &execution_policy("/tmp/race"),
        &CategoryActionPolicy::trash_only(),
        &CancellationToken::new(),
        &FinderRaceBackend,
        |p: &str| disk.observe(p),
    )
    .expect("execution report");

    assert_eq!(report.succeeded_count(), 0);
    assert_eq!(report.skipped_count(), 1);
    assert_eq!(report.failed_count(), 0);
    assert_eq!(report.moved_bytes(), 0);
}

#[test]
fn category_action_policy_drives_the_backend_operation() {
    let disk = Disk::with(&[
        ("/tmp/policy", EntryKind::Directory),
        ("/tmp/policy/cache", EntryKind::File),
    ]);
    let mut action_policy = CategoryActionPolicy::trash_only();
    action_policy
        .enable_permanent_delete(CleanupCategory::UserCache)
        .expect("user cache can opt in");
    let backend = RecordingBackend::new(&disk);

    let report = CleanupExecutor::execute(
        &plan_for(&["/tmp/policy/cache"]),
        &execution_policy("/tmp/policy"),
        &action_policy,
        &CancellationToken::new(),
        &backend,
        |p: &str| disk.observe(p),
    )
    .expect("execution report");

    assert_eq!(report.succeeded_count(), 1);
    assert_eq!(report.skipped_count(), 0);
    assert_eq!(report.moved_bytes(), 0);
    assert_eq!(report.permanently_deleted_bytes(), 1);
    assert!(backend.trashed.borrow().is_empty());
    assert_eq!(backend.deleted.borrow().len(), 1);
}

#[test]
fn disabled_policy_refuses_the_whole_run() {
    let disk = Disk::default();
    let backend = RecordingBackend::new(&disk);
    let refused = CleanupExecutor::execute(
        &plan_for(&["/tmp/x"]),
        &ExecutionPolicy::default(),
        &CategoryActionPolicy::trash_only(),
        &CancellationToken::new(),
        &backend,
        |p: &str| disk.observe(p),
    );
    assert_eq!(refused, Err(SafetyError::DestructiveActionsDisabled));
}

fn windows_item(path: &str) -> ScanItem {
    ScanItem {
        path: path.to_string(),
        category: CleanupCategory::UserCache,
        bytes: 5,
        is_symlink: false,
    }
}

#[test]
fn disposable_cleanup_uses_shared_planner_and_trash_only_action() {
    let disk = Disk::with(&[
        ("/tmp/cleanup", EntryKind::Directory),
        ("/tmp/cleanup/cache.bin", EntryKind::File),
    ]);
    let plan = WindowsDisposableCleanup::build_plan(vec![windows_item("/tmp/cleanup/cache.bin")]);
    let backend = RecordingBackend::new(&disk);

    let report = WindowsDisposableCleanup::execute_with_backend(
        &plan,
        "/tmp/cleanup".to_string(),
        Some("/tmp/cleanup".to_string()),
        &CancellationToken::new(),
        &backend,
        |p: &str| disk.observe(p),
    )
    .expect("execute disposable cleanup");

    assert_eq!(report.succeeded_count(), 1);
    assert_eq!(report.failed_count(), 0);
    assert_eq!(report.moved_bytes(), 5);
    assert_eq!(backend.trashed.borrow().len(), 1);
}

#[test]
fn disposable_cleanup_fails_closed_outside_the_manual_root() {
    let disk = Disk::with(&[
        ("/tmp/root", EntryKind::Directory),
        ("/tmp/outside", EntryKind::Directory),
        ("/tmp/outside/cache.bin", EntryKind::File),
    ]);
    let plan = WindowsDisposableCleanup::build_plan(vec![windows_item("/tmp/outside/cache.bin")]);
    let backend = RecordingBackend::new(&disk);

    let report = WindowsDisposableCleanup::execute_with_backend(
        &plan,
        "/tmp/root".to_string(),
        Some("/tmp/root".to_string()),
        &CancellationToken::new(),
        &backend,
        |p: &str| disk.observe(p),
    )
    .expect("execution returns per-item safety report");

    assert_eq!(report.succeeded_count(), 0);
    assert_eq!(report.failed_count(), 1);
    assert_eq!(
        report.records[0].result,
        Err(ExecutionFailure::Safety(SafetyError::OutsideAllowedRoots))
    );
    assert!(backend.trashed.borrow().is_empty());
}

fn smart_cleanup(temp: &str) -> WindowsSmartCleanup {
    WindowsSmartCleanup::from_scan_set(
        vec![(CleanupCategory::UserCache, temp.to_string())],
        vec![Some(temp.to_string())],
    )
}

/// Two handles to the same open file, where the process has one.
fn same_file_handles() -> Option<(same_file::Handle, same_file::Handle)> {
    let first = same_file::Handle::stdin().ok()?;
    let second = same_file::Handle::stdin().ok()?;
    Some((first, second))
}

#[test]
fn smart_cleanup_allows_reviewed_items_only_under_discovered_provider_roots() {
    let Some((_, _)) = same_file_handles() else {
        return;
    };
    let disk = Disk::with(&[
        ("/tmp/smart/Temp", EntryKind::Directory),
        ("/tmp/smart/Temp/cache.bin", EntryKind::File),
        ("/tmp/smart/outside.bin", EntryKind::File),
    ]);
    let cleanup = smart_cleanup("/tmp/smart/Temp");
    let items = vec![windows_item("/tmp/smart/Temp/cache.bin"), windows_item("/tmp/smart/outside.bin")];
    let opened: Vec<Option<same_file::Handle>> = WindowsSmartCleanup::identity_paths(&items)
        .iter()
        .map(|_| same_file::Handle::stdin().ok())
        .collect();
    let reviewed = WindowsSmartCleanup::build_plan(items, opened);
    let current: Vec<Option<same_file::Handle>> = WindowsSmartCleanup::recheck_paths(&reviewed)
        .iter()
        .map(|_| same_file::Handle::stdin().ok())
        .collect();
    let backend = RecordingBackend::new(&disk);

    let report = cleanup
        .execute_with_backend(&reviewed, &current, &CancellationToken::new(), &backend, |p: &str| {
            disk.observe(p)
        })
        .expect("execution report");

    assert_eq!(report.succeeded_count(), 1);
    assert_eq!(report.failed_count(), 1);
    assert_eq!(backend.trashed.borrow().len(), 1);
}

#[test]
fn smart_cleanup_rejects_item_replaced_after_review() {
    let disk = Disk::with(&[
        ("/tmp/smart/Temp", EntryKind::Directory),
        ("/tmp/smart/Temp/cache.bin", EntryKind::File),
    ]);
    let cleanup = smart_cleanup("/tmp/smart/Temp");
    let reviewed = WindowsSmartCleanup::build_plan(
        vec![windows_item("/tmp/smart/Temp/cache.bin")],
        vec![same_file::Handle::stdin().ok()],
    );
    // The file now at the path is another one: its identity cannot be matched.
    let current: Vec<Option<same_file::Handle>> = vec![None];
    let backend = RecordingBackend::new(&disk);

    let report = cleanup
        .execute_with_backend(&reviewed, &current, &CancellationToken::new(), &backend, |p: &str| {
            disk.observe(p)
        })
        .expect("execution report");

    assert_eq!(report.succeeded_count(), 0);
    assert_eq!(report.failed_count(), 1);
    assert!(backend.trashed.borrow().is_empty());
}

#[test]
fn smart_cleanup_cannot_authorize_an_unreviewed_new_descendant() {
    let Some((_, _)) = same_file_handles() else {
        return;
    };
    let disk = Disk::with(&[
        ("/tmp/smart/Temp", EntryKind::Directory),
        ("/tmp/smart/Temp/reviewed.bin", EntryKind::File),
        ("/tmp/smart/Temp/late.bin", EntryKind::File),
    ]);
    let cleanup = smart_cleanup("/tmp/smart/Temp");
    let reviewed = WindowsSmartCleanup::build_plan(
        vec![windows_item("/tmp/smart/Temp/reviewed.bin")],
        vec![same_file::Handle::stdin().ok()],
    );
    let current = vec![same_file::Handle::stdin().ok()];
    let backend = RecordingBackend::new(&disk);

    let report = cleanup
        .execute_with_backend(&reviewed, &current, &CancellationToken::new(), &backend, |p: &str| {
            disk.observe(p)
        })
        .expect("execution report");

    assert_eq!(report.succeeded_count(), 1);
    assert_eq!(backend.trashed.borrow().len(), 1);
    assert!(
        disk.contains("/tmp/smart/Temp/late.bin"),
        "unreviewed descendant must remain untouched"
    );
}

#[test]
fn smart_cleanup_rejects_or_blocks_provider_root_replacement() {
    let Some((_, _)) = same_file_handles() else {
        return;
    };
    let disk = Disk::with(&[("/tmp/smart/Temp/cache.bin", EntryKind::File)]);
    // The provider root was replaced: it now resolves elsewhere than when pinned.
    disk.entries
        .borrow_mut()
        .insert("/tmp/smart/Temp".to_string(), EntryKind::Directory);
    let cleanup = WindowsSmartCleanup::from_scan_set(
        vec![(CleanupCategory::UserCache, "/tmp/smart/Temp".to_string())],
        vec![Some("/tmp/smart/Temp-before".to_string())],
    );
    let reviewed = WindowsSmartCleanup::build_plan(
        vec![windows_item("/tmp/smart/Temp/cache.bin")],
        vec![same_file::Handle::stdin().ok()],
    );
    let current = vec![same_file::Handle::stdin().ok()];
    let backend = RecordingBackend::new(&disk);

    let report = cleanup
        .execute_with_backend(&reviewed, &current, &CancellationToken::new(), &backend, |p: &str| {
            disk.observe(p)
        })
        .expect("execution report");

    assert_eq!(report.succeeded_count(), 0);
    assert_eq!(report.failed_count(), 1);
    assert!(backend.trashed.borrow().is_empty());
}

fn app(path: &str, bundle_identifier: &str) -> InstalledApplication {
    let mut metadata = ApplicationMetadata::default();
    metadata.bundle_identifier = Some(bundle_identifier.to_string());
    InstalledApplication::new(path.to_string(), "Example".to_string(), ApplicationLocation::Local)
        .with_metadata(metadata)
}

fn uninstall_plan() -> UninstallPlan {
    UninstallPlan::build(
        app("/Applications/Example.app", "com.example.app"),
        RelatedFileReport {
            candidates: vec![RelatedFileCandidate::new(
                "/Users/t/Library/Caches/com.example.app".to_string(),
                RelatedFileKind::Cache,
                MatchConfidence::High,
                MatchEvidence::ExactBundleIdentifier("com.example.app".into()),
            )],
        },
    )
}

fn pin_on_disk(plan: &UninstallPlan, disk: &Disk) -> UninstallExecutionPolicy {
    let fresh = RelatedFileReport {
        candidates: vec![RelatedFileCandidate::new(
            "/Users/t/Library/Caches/com.example.app".to_string(),
            RelatedFileKind::Cache,
            MatchConfidence::High,
            MatchEvidence::ExactBundleIdentifier("com.example.app".into()),
        )],
    };
    let roots = vec![RelatedFileExecutionRoot {
        kind: RelatedFileKind::Cache,
        path: "/Users/t/Library/Caches".to_string(),
    }];
    let root_observed: Vec<PathObservation> = roots.iter().map(|r| disk.observe(&r.path)).collect();
    let observed: Vec<PathObservation> = plan.items().iter().map(|i| disk.observe(i.path())).collect();
    UninstallExecutionPolicy::pin(plan, &fresh, &roots, &root_observed, &observed).expect("pin plan")
}

#[test]
fn uninstall_moves_related_files_before_the_bundle() {
    let disk = Disk::with(&[
        ("/Applications/Example.app", EntryKind::Directory),
        ("/Users/t/Library/Caches", EntryKind::Directory),
        ("/Users/t/Library/Caches/com.example.app", EntryKind::Directory),
    ]);
    let plan = uninstall_plan();
    let policy = pin_on_disk(&plan, &disk);
    let backend = RecordingBackend::new(&disk);

    let report = UninstallExecutor::execute(
        &plan,
        &policy,
        &app("/Applications/Example.app", "com.example.app"),
        &CancellationToken::new(),
        &backend,
        |p: &str| disk.observe(p),
    )
    .expect("execute plan");

    assert_eq!(
        backend.trashed.borrow().clone(),
        vec![
            "/Users/t/Library/Caches/com.example.app".to_string(),
            "/Applications/Example.app".to_string(),
        ]
    );
    assert_eq!(report.succeeded_count(), 2);
    assert_eq!(report.records[1].kind, UninstallPlanItemKind::ApplicationBundle);
}

#[test]
fn uninstall_stops_when_a_pinned_path_vanished() {
    let disk = Disk::with(&[
        ("/Applications/Example.app", EntryKind::Directory),
        ("/Users/t/Library/Caches", EntryKind::Directory),
        ("/Users/t/Library/Caches/com.example.app", EntryKind::Directory),
    ]);
    let plan = uninstall_plan();
    let policy = pin_on_disk(&plan, &disk);
    disk.entries
        .borrow_mut()
        .remove("/Users/t/Library/Caches/com.example.app");
    let backend = RecordingBackend::new(&disk);

    let result = UninstallExecutor::execute(
        &plan,
        &policy,
        &app("/Applications/Example.app", "com.example.app"),
        &CancellationToken::new(),
        &backend,
        |p: &str| disk.observe(p),
    );
    let report = result.expect("a report that names the failed check");
    assert_eq!(
        report.safety_failure,
        Some(UninstallExecutionError::MissingPath(
            "/Users/t/Library/Caches/com.example.app".to_string()
        ))
    );
    assert!(report.records.is_empty());
    assert!(backend.trashed.borrow().is_empty());
}

#[test]
fn uninstall_keeps_earlier_records_when_a_later_check_fails() {
    let disk = Disk::with(&[
        ("/Applications/Example.app", EntryKind::Directory),
        ("/Users/t/Library/Caches", EntryKind::Directory),
        ("/Users/t/Library/Caches/com.example.app", EntryKind::Directory),
    ]);
    let plan = uninstall_plan();
    let policy = pin_on_disk(&plan, &disk);
    disk.entries.borrow_mut().remove("/Applications/Example.app");
    let backend = RecordingBackend::new(&disk);

    let report = UninstallExecutor::execute(
        &plan,
        &policy,
        &app("/Applications/Example.app", "com.example.app"),
        &CancellationToken::new(),
        &backend,
        |p: &str| disk.observe(p),
    )
    .expect("a report that keeps the finished records");

    assert_eq!(
        backend.trashed.borrow().clone(),
        vec!["/Users/t/Library/Caches/com.example.app".to_string()]
    );
    assert_eq!(report.records.len(), 1);
    assert_eq!(report.records[0].path, "/Users/t/Library/Caches/com.example.app");
    assert_eq!(report.records[0].result, Ok(()));
    assert_eq!(
        report.safety_failure,
        Some(UninstallExecutionError::MissingPath("/Applications/Example.app".to_string()))
    );
    assert!(!report.cancelled);
}

#[test]
fn moved_and_deleted_bytes_add_up_to_the_successes() {
    let record = |action: CleanupAction, bytes: u64, ok: bool| ExecutionRecord {
        path: format!("/tmp/root/{bytes}"),
        category: CleanupCategory::UserCache,
        action,
        bytes,
        result: if ok { Ok(()) } else { Err(ExecutionFailure::Backend("busy".to_string())) },
    };
    let report = ExecutionReport {
        records: vec![
            record(CleanupAction::MoveToTrash, 3, true),
            record(CleanupAction::PermanentDelete, 4, true),
            record(CleanupAction::MoveToTrash, 5, false),
        ],
        cancelled: false,
    };
    assert_eq!(report.moved_bytes(), 3);
    assert_eq!(report.permanently_deleted_bytes(), 4);
    assert_eq!(report.moved_bytes() + report.permanently_deleted_bytes(), 7);
}

#[test]
fn a_trash_only_run_deletes_nothing_outright() {
    let disk = Disk::with(&[
        ("/tmp/root", EntryKind::Directory),
        ("/tmp/root/cache.bin", EntryKind::File),
    ]);
    let plan = CleanupPlan {
        items: vec![CleanupPlanItem {
            item: ScanItem {
                path: "/tmp/root/cache.bin".to_string(),
                category: CleanupCategory::UserCache,
                bytes: 9,
                is_symlink: false,
            },
            selected: true,
        }],
    };
    let policy = ExecutionPolicy::enabled(vec![AllowedRoot::pinned_to(
        CleanupCategory::UserCache,
        "/tmp/root".to_string(),
        Some("/tmp/root".to_string()),
    )]);
    let backend = RecordingBackend::new(&disk);
    let report = CleanupExecutor::execute(
        &plan,
        &policy,
        &CategoryActionPolicy::trash_only(),
        &CancellationToken::new(),
        &backend,
        |p: &str| disk.observe(p),
    )
    .expect("a report");
    assert_eq!(report.permanently_deleted_bytes(), 0);
    assert_eq!(report.moved_bytes(), 9);
}

#[test]
fn uninstall_stops_when_an_execution_root_became_a_symlink() {
    let disk = Disk::with(&[
        ("/Applications/Example.app", EntryKind::Directory),
        ("/Users/t/Library/Caches", EntryKind::Directory),
        ("/Users/t/Library/Caches/com.example.app", EntryKind::Directory),
    ]);
    let plan = uninstall_plan();
    let policy = pin_on_disk(&plan, &disk);
    disk.entries
        .borrow_mut()
        .insert("/Users/t/Library/Caches".to_string(), EntryKind::Symlink);
    let backend = RecordingBackend::new(&disk);

    let report = UninstallExecutor::execute(
        &plan,
        &policy,
        &app("/Applications/Example.app", "com.example.app"),
        &CancellationToken::new(),
        &backend,
        |p: &str| disk.observe(p),
    )
    .expect("a report that names the failed check");

    assert_eq!(
        report.safety_failure,
        Some(UninstallExecutionError::ExecutionRootChanged(
            "/Users/t/Library/Caches".to_string()
        ))
    );
    assert!(report.records.is_empty());
    assert!(backend.trashed.borrow().is_empty());
}
