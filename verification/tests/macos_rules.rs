use dxtr_cleaner::app_inventory::{ApplicationLocation, ApplicationMetadata, InstalledApplication};
use dxtr_cleaner::app_metadata::{non_empty_utf8, parse_team_identifier};
use dxtr_cleaner::bundle_identifier::is_safe_bundle_identifier;
use dxtr_cleaner::cli_args::{interval_arg, required_path_arg};
use dxtr_cleaner::action_policy::CleanupAction;
use dxtr_cleaner::executor::{ExecutionFailure, ExecutionOutcome, ExecutionRecord};
use dxtr_cleaner::model::CleanupCategory;
use dxtr_cleaner::launch_agent::{
    format_bootstrap_error, render_launch_agent_plist, xml_escape, LaunchAgentConfig,
    MIN_START_INTERVAL_SECONDS,
};
use dxtr_cleaner::listing::{DirectoryEntry, DirectoryListing, EntryType, ListedEntry};
use dxtr_cleaner::mac_inventory::{is_app_bundle, InventoryWalk};
use dxtr_cleaner::mac_orphan::{find_orphans_for_home, orphan_search_roots, ExpectedEntryKind, NameRule};
use dxtr_cleaner::mac_platform::{
    finder_failure_message, full_disk_access_probe_paths, probe_full_disk_access, trash_preflight,
    PermissionStatus, ProbeResult,
};
use dxtr_cleaner::mac_related::{execution_roots, RelatedFileSearch};
use dxtr_cleaner::planner::EntryKind;
use dxtr_cleaner::related_files::{MatchConfidence, MatchEvidence, RelatedFileKind};

#[test]
fn parses_team_identifier_from_codesign_diagnostics() {
    let diagnostics = "Executable=/Applications/Example.app/Contents/MacOS/Example\nIdentifier=com.example.app\nTeamIdentifier=ABCDE12345\n";
    assert_eq!(
        parse_team_identifier(diagnostics).as_deref(),
        Some("ABCDE12345")
    );
}

#[test]
fn treats_missing_team_identifier_as_unknown() {
    assert_eq!(parse_team_identifier("TeamIdentifier=not set\n"), None);
    assert_eq!(parse_team_identifier("Identifier=com.example.app\n"), None);
}

#[test]
fn team_identifier_is_trimmed_and_first_line_wins() {
    assert_eq!(
        parse_team_identifier("TeamIdentifier=  XYZ987 \r\nTeamIdentifier=OTHER\n").as_deref(),
        Some("XYZ987")
    );
    assert_eq!(
        parse_team_identifier("  TeamIdentifier=INDENTED\nTeamIdentifier=PLAIN\n").as_deref(),
        Some("PLAIN")
    );
    assert_eq!(parse_team_identifier("TeamIdentifier=   \n"), None);
    assert_eq!(non_empty_utf8(b"  codesign says hi\n").as_deref(), Some("codesign says hi"));
    assert_eq!(non_empty_utf8(b" \n\t"), None);
    assert_eq!(non_empty_utf8(&[0xff, 0xfe]), None);
}

fn args(values: &[&str]) -> Vec<String> {
    values.iter().map(|value| value.to_string()).collect()
}

#[test]
fn interval_defaults_to_one_day() {
    assert_eq!(interval_arg(&args(&["install"])).unwrap(), 86_400);
}

#[test]
fn interval_rejects_non_integer_input() {
    let args = args(&["install", "--interval", "hourly"]);
    assert_eq!(
        interval_arg(&args).unwrap_err(),
        "--interval must be an integer number of seconds"
    );
}

#[test]
fn executable_argument_requires_a_following_path() {
    let args = args(&["install", "--executable"]);
    assert_eq!(
        required_path_arg(&args, "--executable").unwrap_err(),
        "--executable requires a path"
    );
}

#[test]
fn interval_and_executable_are_read_after_their_flags() {
    let args = args(&["install", "--interval", "3600", "--executable", "/usr/local/bin/x"]);
    assert_eq!(interval_arg(&args), Ok(3600));
    assert_eq!(required_path_arg(&args, "--executable"), Ok("/usr/local/bin/x".to_string()));
    assert_eq!(
        interval_arg(&self::args(&["--interval"])).unwrap_err(),
        "--interval requires seconds"
    );
}

#[test]
fn unsupported_platform_is_unknown() {
    let report = probe_full_disk_access(Some("/tmp"), false, &Vec::new());
    assert_eq!(report.status, PermissionStatus::Unknown);
    assert!(report.probe_path.is_none());
}

#[test]
fn missing_home_is_unknown() {
    let report = probe_full_disk_access(None, true, &Vec::new());
    assert_eq!(report.status, PermissionStatus::Unknown);
    assert!(report.probe_path.is_none());
}

#[test]
fn first_present_probe_decides_full_disk_access() {
    let probes = full_disk_access_probe_paths("/Users/tester");
    assert_eq!(
        probes,
        vec![
            "/Users/tester/Library/Mail".to_string(),
            "/Users/tester/Library/Messages".to_string(),
            "/Users/tester/Library/Safari".to_string(),
        ]
    );

    let granted = probe_full_disk_access(
        Some("/Users/tester"),
        true,
        &vec![ProbeResult::Missing, ProbeResult::Granted, ProbeResult::Denied],
    );
    assert_eq!(granted.status, PermissionStatus::Granted);
    assert_eq!(granted.probe_path.as_deref(), Some("/Users/tester/Library/Messages"));

    let denied = probe_full_disk_access(
        Some("/Users/tester"),
        true,
        &vec![ProbeResult::Denied, ProbeResult::Granted, ProbeResult::Granted],
    );
    assert_eq!(denied.status, PermissionStatus::Denied);
    assert_eq!(denied.probe_path.as_deref(), Some("/Users/tester/Library/Mail"));

    let absent = probe_full_disk_access(
        Some("/Users/tester"),
        true,
        &vec![ProbeResult::Missing, ProbeResult::Missing, ProbeResult::Missing],
    );
    assert_eq!(absent.status, PermissionStatus::Unknown);
    assert!(absent.probe_path.is_none());

    let odd = probe_full_disk_access(
        Some("/Users/tester"),
        true,
        &vec![ProbeResult::Inconclusive("I/O error".to_string()), ProbeResult::Granted, ProbeResult::Granted],
    );
    assert_eq!(odd.status, PermissionStatus::Unknown);
    assert_eq!(odd.detail, "Full Disk Access probe was inconclusive: I/O error");
}

fn backend_outcome_of(message: &str) -> ExecutionOutcome {
    ExecutionRecord {
        path: "/tmp/x".to_string(),
        category: CleanupCategory::UserCache,
        action: CleanupAction::MoveToTrash,
        bytes: 1,
        result: Err(ExecutionFailure::Backend(message.to_string())),
    }
    .outcome()
}

#[test]
fn trash_verdicts_for_vanished_paths_read_as_missing() {
    let preflight = trash_preflight(EntryKind::Missing, "").unwrap_err();
    assert_eq!(backend_outcome_of(&preflight), ExecutionOutcome::Missing);
    let raced = finder_failure_message(true, "1", "");
    assert_eq!(backend_outcome_of(&raced), ExecutionOutcome::Missing);
    assert_eq!(
        finder_failure_message(false, "1", "  boom \n"),
        "move to Trash failed with status 1: boom"
    );
    assert_eq!(finder_failure_message(false, "2", " \n"), "move to Trash failed with status 2");
    assert_eq!(
        trash_preflight(EntryKind::Symlink, ""),
        Err("move to Trash rejected: path is a symlink".to_string())
    );
    assert_eq!(trash_preflight(EntryKind::File, ""), Ok(()));
}

#[test]
fn smart_scan_uses_user_launch_agent_and_log_locations() {
    let home = "/Users/example";
    let config = LaunchAgentConfig::smart_scan(
        home,
        "/Applications/Dxtr Cleaner.app/Contents/MacOS/dxtr-cleaner".to_string(),
        3600,
    );

    assert_eq!(
        config.plist_path(home),
        "/Users/example/Library/LaunchAgents/com.cnxdev.dxtr-cleaner.smart-scan.plist"
    );
    assert_eq!(
        config.stdout_path,
        "/Users/example/Library/Logs/DxtrCleaner/scheduled-scan.log"
    );
}

#[test]
fn rejects_relative_executable_and_too_frequent_schedule() {
    let home = "/Users/example";
    let relative = LaunchAgentConfig::smart_scan(home, "dxtr-cleaner".to_string(), 3600);
    assert_eq!(
        relative.validate().unwrap_err(),
        "scheduled cleaner executable path must be absolute"
    );

    let frequent = LaunchAgentConfig::smart_scan(
        home,
        "/usr/local/bin/dxtr-cleaner".to_string(),
        MIN_START_INTERVAL_SECONDS - 1,
    );
    assert!(frequent.validate().unwrap_err().contains("at least"));
}

#[test]
fn rendered_plist_is_read_only_scan_and_xml_escapes_paths() {
    let home = "/Users/example";
    let config = LaunchAgentConfig::smart_scan(
        home,
        "/Applications/Dxtr & Cleaner.app/Contents/MacOS/dxtr-cleaner".to_string(),
        3600,
    );
    let plist = render_launch_agent_plist(&config).expect("valid config must render");

    assert!(plist.contains("<string>scan</string>"));
    assert!(plist.contains("<string>--category</string>"));
    assert!(plist.contains("<string>user</string>"));
    assert!(!plist.contains("trash"));
    assert!(!plist.contains("delete"));
    assert!(plist.contains("Dxtr &amp; Cleaner.app"));
    assert!(plist.contains("<integer>3600</integer>"));
}

#[test]
fn xml_escape_replaces_every_markup_character() {
    assert_eq!(xml_escape(r#"a<b>&"c"'d'"#), "a&lt;b&gt;&amp;&quot;c&quot;&apos;d&apos;");
    assert_eq!(xml_escape("plain"), "plain");
}

#[test]
fn bootstrap_error_mentions_a_failed_rollback() {
    assert_eq!(format_bootstrap_error("boom".to_string(), Ok(())), "boom");
    assert_eq!(
        format_bootstrap_error("boom".to_string(), Err("stuck".to_string())),
        "boom; additionally failed to roll back plist: stuck"
    );
}

#[test]
fn rejects_unsafe_bundle_identifiers_before_joining_paths() {
    for identifier in [
        "..",
        "/",
        "com/example/app",
        "com..example",
        ".com.example",
        "com.example.",
    ] {
        assert!(!is_safe_bundle_identifier(identifier), "{identifier}");
    }
    assert!(is_safe_bundle_identifier("com.example.app"));
    assert!(is_safe_bundle_identifier("com.example-app_2"));
}

fn application(bundle_identifier: Option<&str>) -> InstalledApplication {
    let mut metadata = ApplicationMetadata::default();
    metadata.bundle_identifier = bundle_identifier.map(String::from);
    InstalledApplication::new(
        "/Applications/Example.app".to_string(),
        "Example".to_string(),
        ApplicationLocation::Local,
    )
    .with_metadata(metadata)
}

fn entry(path: &str, name: &str, entry_type: EntryType) -> ListedEntry {
    ListedEntry::Entry(DirectoryEntry {
        path: path.to_string(),
        name: Some(name.to_string()),
        entry_type,
    })
}

#[test]
fn exact_bundle_paths_are_high_confidence_and_name_paths_are_low() {
    let search = RelatedFileSearch::plan(&application(Some("com.example.app")), "/tmp/tiers");
    let probes = search.probe_paths();
    assert_eq!(search.exact_count(), 6);
    assert_eq!(probes.len(), 8);
    let seen: Vec<EntryKind> = probes
        .iter()
        .map(|path| match path.as_str() {
            "/tmp/tiers/Library/Caches/com.example.app" => EntryKind::Directory,
            "/tmp/tiers/Library/Application Support/Example" => EntryKind::Directory,
            _ => EntryKind::Missing,
        })
        .collect();
    let report = search.finish(&seen, DirectoryListing::Missing("absent".to_string()));
    assert_eq!(report.candidates.len(), 2);
    let cache = report
        .candidates
        .iter()
        .find(|c| c.path == "/tmp/tiers/Library/Caches/com.example.app")
        .expect("bundle cache is found");
    assert_eq!(cache.confidence, MatchConfidence::High);
    assert_eq!(cache.kind, RelatedFileKind::Cache);
    let support = report
        .candidates
        .iter()
        .find(|c| c.path == "/tmp/tiers/Library/Application Support/Example")
        .expect("name support is found");
    assert_eq!(support.confidence, MatchConfidence::Low);
    assert_eq!(support.evidence, MatchEvidence::ExactDisplayName("Example".to_string()));
}

#[test]
fn unsafe_bundle_identifier_never_creates_high_confidence_candidate() {
    let search = RelatedFileSearch::plan(&application(Some("../..")), "/tmp/unsafe");
    assert_eq!(search.exact_count(), 0);
    assert!(search.by_host_directory().is_none());
    let seen = vec![EntryKind::Directory; search.probe_paths().len()];
    let report = search.finish(&seen, DirectoryListing::Missing("absent".to_string()));
    assert!(report
        .candidates
        .iter()
        .all(|c| c.confidence != MatchConfidence::High));
}

#[test]
fn byhost_bundle_prefix_is_medium_confidence() {
    let search = RelatedFileSearch::plan(&application(Some("com.example.app")), "/tmp/byhost");
    assert_eq!(
        search.by_host_directory(),
        Some("/tmp/byhost/Library/Preferences/ByHost")
    );
    let seen = vec![EntryKind::Missing; search.probe_paths().len()];
    let listing = DirectoryListing::Listed(vec![
        entry(
            "/tmp/byhost/Library/Preferences/ByHost/com.example.app.ABC.plist",
            "com.example.app.ABC.plist",
            EntryType::File,
        ),
        entry(
            "/tmp/byhost/Library/Preferences/ByHost/com.example.application.ABC.plist",
            "com.example.application.ABC.plist",
            EntryType::File,
        ),
    ]);
    let report = search.finish(&seen, listing);
    assert_eq!(report.candidates.len(), 1);
    assert_eq!(report.candidates[0].confidence, MatchConfidence::Medium);
    assert_eq!(report.candidates[0].kind, RelatedFileKind::Preference);
}

#[test]
fn orphan_roots_cover_the_library() {
    let roots = orphan_search_roots("/Users/tester");
    assert_eq!(roots.len(), 6);
    assert_eq!(roots[1].path, "/Users/tester/Library/Caches");
    assert_eq!(roots[4].expected, ExpectedEntryKind::File);
    assert_eq!(roots[4].rule, NameRule::Suffix(".plist".to_string()));
}

fn missing_listing() -> DirectoryListing {
    DirectoryListing::Missing("No such file or directory".to_string())
}

#[test]
fn reports_bundle_shaped_entries_missing_from_live_app_set() {
    let installed = vec![application(Some("com.example.live"))];
    let caches = DirectoryListing::Listed(vec![
        entry("/h/Library/Caches/com.example.removed", "com.example.removed", EntryType::Directory),
        entry("/h/Library/Caches/com.example.live", "com.example.live", EntryType::Directory),
        entry("/h/Library/Caches/Adobe", "Adobe", EntryType::Directory),
        entry("/h/Library/Caches/com.apple.Safari", "com.apple.Safari", EntryType::Directory),
        entry("/h/Library/Caches/com.example.file", "com.example.file", EntryType::File),
        entry("/h/Library/Caches/com.example.link", "com.example.link", EntryType::Symlink),
    ]);
    let preferences = DirectoryListing::Listed(vec![
        entry("/h/Library/Preferences/com.example.pref.plist", "com.example.pref.plist", EntryType::File),
        entry("/h/Library/Preferences/com.example.dir.plist", "com.example.dir.plist", EntryType::Directory),
    ]);
    let listings = vec![
        missing_listing(),
        caches,
        missing_listing(),
        missing_listing(),
        preferences,
        missing_listing(),
    ];
    let report = find_orphans_for_home(&installed, "/h", listings);
    let identifiers: Vec<&str> = report
        .candidates
        .iter()
        .map(|c| c.bundle_identifier.as_str())
        .collect();
    assert_eq!(identifiers, vec!["com.example.removed", "com.example.pref"]);
    assert_eq!(report.candidates[0].confidence, MatchConfidence::High);
    assert!(report.issues.is_empty());
}

#[test]
fn inventory_finds_app_bundles_in_nested_application_folders() {
    let mut walk = InventoryWalk::new(vec![(ApplicationLocation::Local, "/A".to_string())]);
    assert_eq!(walk.next_directory(), Some("/A".to_string()));
    walk.visit(DirectoryListing::Listed(vec![
        entry("/A/Direct.app", "Direct.app", EntryType::Directory),
        entry("/A/Utilities", "Utilities", EntryType::Directory),
        entry("/A/Linked", "Linked", EntryType::Symlink),
        entry("/A/notes.txt", "notes.txt", EntryType::File),
    ]));
    assert_eq!(walk.next_directory(), Some("/A/Utilities".to_string()));
    walk.visit(DirectoryListing::Listed(vec![entry(
        "/A/Utilities/Tool.app",
        "Tool.app",
        EntryType::Directory,
    )]));
    assert_eq!(walk.next_directory(), None);
    assert_eq!(walk.applications().len(), 2);
    let mut metadata = ApplicationMetadata::default();
    metadata.bundle_identifier = Some("com.example.tool".to_string());
    let tool = walk
        .applications()
        .iter()
        .position(|a| a.name == "Tool")
        .expect("tool is found");
    walk.set_metadata(tool, metadata);
    let report = walk.finish();
    let names: Vec<&str> = report.applications.iter().map(|a| a.name.as_str()).collect();
    assert_eq!(names, vec!["Direct", "Tool"]);
    assert_eq!(
        report.applications[1].metadata.bundle_identifier.as_deref(),
        Some("com.example.tool")
    );
    assert!(report.issues.is_empty());
}

#[test]
fn inventory_rejects_symlinked_roots() {
    let mut walk = InventoryWalk::new(vec![
        (ApplicationLocation::User, "/missing".to_string()),
        (ApplicationLocation::Local, "/linked".to_string()),
    ]);
    assert_eq!(walk.next_directory(), Some("/missing".to_string()));
    walk.visit(missing_listing());
    assert_eq!(walk.next_directory(), Some("/linked".to_string()));
    walk.visit(DirectoryListing::Symlink);
    let report = walk.finish();
    assert!(report.applications.is_empty());
    assert_eq!(report.issues.len(), 1);
    assert_eq!(report.issues[0].path, "/linked");
}

#[test]
fn app_bundles_are_recognised_by_extension() {
    assert!(is_app_bundle("/Applications/Example.app"));
    assert!(!is_app_bundle("/Applications/Example.apps"));
    assert!(!is_app_bundle("/Applications/app"));
}

#[test]
fn orphan_search_fails_closed_when_a_root_cannot_be_examined() {
    let installed = vec![application(Some("com.example.live"))];
    let caches = DirectoryListing::Listed(vec![entry(
        "/h/Library/Caches/com.example.removed",
        "com.example.removed",
        EntryType::Directory,
    )]);
    let listings = vec![
        DirectoryListing::Unlistable("Operation not permitted".to_string()),
        caches,
        missing_listing(),
        missing_listing(),
        missing_listing(),
        DirectoryListing::Symlink,
    ];
    let report = find_orphans_for_home(&installed, "/h", listings);
    assert!(report.candidates.is_empty());
    assert_eq!(report.issues.len(), 2);
}

#[test]
fn readable_protected_probe_reports_granted() {
    let report = probe_full_disk_access(
        Some("/tmp/granted"),
        true,
        &vec![ProbeResult::Granted, ProbeResult::Missing, ProbeResult::Missing],
    );
    assert_eq!(report.status, PermissionStatus::Granted);
    assert_eq!(report.probe_path.as_deref(), Some("/tmp/granted/Library/Mail"));
}

#[test]
fn absent_probe_directories_are_unknown() {
    let report = probe_full_disk_access(
        Some("/tmp/missing"),
        true,
        &vec![ProbeResult::Missing, ProbeResult::Missing, ProbeResult::Missing],
    );
    assert_eq!(report.status, PermissionStatus::Unknown);
    assert!(report.probe_path.is_none());
}

#[test]
fn inventory_does_not_follow_symlinked_directories() {
    let mut walk = InventoryWalk::new(vec![(ApplicationLocation::Local, "/A".to_string())]);
    assert_eq!(walk.next_directory(), Some("/A".to_string()));
    walk.visit(DirectoryListing::Listed(vec![entry(
        "/A/Linked",
        "Linked",
        EntryType::Symlink,
    )]));
    assert_eq!(walk.next_directory(), None);
    let report = walk.finish();
    assert!(report.applications.is_empty());
    assert!(report.issues.is_empty());
}

fn orphans_in(listings: Vec<DirectoryListing>) -> Vec<String> {
    find_orphans_for_home(&[], "/h", listings)
        .candidates
        .into_iter()
        .map(|c| c.bundle_identifier)
        .collect()
}

#[test]
fn skips_generic_directories_and_apple_namespace() {
    let caches = DirectoryListing::Listed(vec![
        entry("/h/Library/Caches/Adobe", "Adobe", EntryType::Directory),
        entry("/h/Library/Caches/com.apple.Safari", "com.apple.Safari", EntryType::Directory),
        entry("/h/Library/Caches/com.example.orphan", "com.example.orphan", EntryType::Directory),
    ]);
    let listings = vec![
        missing_listing(),
        caches,
        missing_listing(),
        missing_listing(),
        missing_listing(),
        missing_listing(),
    ];
    assert_eq!(orphans_in(listings), vec!["com.example.orphan".to_string()]);
}

#[test]
fn recognizes_preference_and_saved_state_suffixes() {
    let preferences = DirectoryListing::Listed(vec![entry(
        "/h/Library/Preferences/com.example.pref.plist",
        "com.example.pref.plist",
        EntryType::File,
    )]);
    let saved_state = DirectoryListing::Listed(vec![entry(
        "/h/Library/Saved Application State/com.example.state.savedState",
        "com.example.state.savedState",
        EntryType::Directory,
    )]);
    let listings = vec![
        missing_listing(),
        missing_listing(),
        missing_listing(),
        missing_listing(),
        preferences,
        saved_state,
    ];
    let report = find_orphans_for_home(&[], "/h", listings);
    assert_eq!(report.candidates.len(), 2);
    assert!(report.candidates.iter().any(|candidate| {
        candidate.bundle_identifier == "com.example.pref"
            && candidate.kind == RelatedFileKind::Preference
    }));
    assert!(report.candidates.iter().any(|candidate| {
        candidate.bundle_identifier == "com.example.state"
            && candidate.kind == RelatedFileKind::SavedState
    }));
}

#[test]
fn requires_expected_filesystem_entry_kind() {
    let preferences = DirectoryListing::Listed(vec![entry(
        "/h/Library/Preferences/com.example.not-a-file.plist",
        "com.example.not-a-file.plist",
        EntryType::Directory,
    )]);
    let caches = DirectoryListing::Listed(vec![entry(
        "/h/Library/Caches/com.example.not-a-directory",
        "com.example.not-a-directory",
        EntryType::File,
    )]);
    let listings = vec![
        missing_listing(),
        caches,
        missing_listing(),
        missing_listing(),
        preferences,
        missing_listing(),
    ];
    assert!(orphans_in(listings).is_empty());
}

#[test]
fn never_returns_symlink_candidates() {
    let caches = DirectoryListing::Listed(vec![entry(
        "/h/Library/Caches/com.example.orphan",
        "com.example.orphan",
        EntryType::Symlink,
    )]);
    let listings = vec![
        missing_listing(),
        caches,
        missing_listing(),
        missing_listing(),
        missing_listing(),
        missing_listing(),
    ];
    assert!(orphans_in(listings).is_empty());
}

#[test]
fn matcher_never_returns_symlink_candidates() {
    let search = RelatedFileSearch::plan(&application(Some("com.example.app")), "/tmp/symlink");
    let seen = vec![EntryKind::Symlink; search.probe_paths().len()];
    let report = search.finish(
        &seen,
        DirectoryListing::Listed(vec![entry(
            "/tmp/symlink/Library/Preferences/ByHost/com.example.app.ABC.plist",
            "com.example.app.ABC.plist",
            EntryType::Symlink,
        )]),
    );
    assert!(report.candidates.is_empty());
}

#[test]
fn execution_roots_name_one_library_folder_per_kind() {
    let roots: Vec<(RelatedFileKind, String)> = execution_roots("/Users/t")
        .into_iter()
        .map(|root| (root.kind, root.path))
        .collect();
    assert_eq!(
        roots,
        vec![
            (RelatedFileKind::ApplicationSupport, "/Users/t/Library/Application Support".to_string()),
            (RelatedFileKind::Cache, "/Users/t/Library/Caches".to_string()),
            (RelatedFileKind::Container, "/Users/t/Library/Containers".to_string()),
            (RelatedFileKind::HttpStorage, "/Users/t/Library/HTTPStorages".to_string()),
            (RelatedFileKind::Preference, "/Users/t/Library/Preferences".to_string()),
            (RelatedFileKind::SavedState, "/Users/t/Library/Saved Application State".to_string()),
        ]
    );
}
