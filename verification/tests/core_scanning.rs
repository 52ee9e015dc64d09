use std::collections::BTreeMap;

use dxtr_cleaner::cancellation::CancellationToken;
use dxtr_cleaner::model::{CleanupCategory, ScanItem, ScanSummary};
use dxtr_cleaner::path::PathStyle;
use dxtr_cleaner::scanner::{
    handle_error_class, handle_optional_path_error, is_excluded, is_excluded_in, FileSystemScanner,
    IoErrorClass,
    PathVisit, ScanEvent, ScanPhase, ScanRequest, ScanSession, ScanStep,
};
use dxtr_cleaner::scan_delta::{ScanBatcher, ScanDelta, ScanTotals, EVENT_BATCH_SIZE};
use dxtr_cleaner::target::{CategoryScanTarget, HomebrewScan, NodeScan, UserCacheScan, XcodeScan};

/// An in-memory file system: what a visit of each path reports.
enum Node {
    File(u64),
    Dir(Vec<&'static str>),
    Link,
    Denied,
}

fn tree(entries: Vec<(&'static str, Node)>) -> BTreeMap<String, Node> {
    entries
        .into_iter()
        .map(|(path, node)| (path.to_string(), node))
        .collect()
}

fn visit_of(fs: &BTreeMap<String, Node>, path: &str) -> PathVisit {
    match fs.get(path) {
        None => PathVisit::Unreadable(IoErrorClass::NotFound),
        Some(Node::File(bytes)) => PathVisit::File(*bytes),
        Some(Node::Link) => PathVisit::Symlink,
        Some(Node::Denied) => PathVisit::UnlistableDirectory(IoErrorClass::PermissionDenied),
        Some(Node::Dir(children)) => PathVisit::Directory(
            children
                .iter()
                .map(|child| Ok(format!("{path}/{child}")))
                .collect(),
        ),
    }
}

fn run(mut session: ScanSession, fs: &BTreeMap<String, Node>, token: &CancellationToken) -> ScanSession {
    loop {
        match session.step(token.is_cancelled()) {
            ScanStep::Observe(path) => session.visit(visit_of(fs, &path)),
            ScanStep::Continue => {}
            ScanStep::Done => return session,
        }
    }
}

fn request(roots: Vec<&str>, excluded: Vec<&str>) -> ScanRequest {
    ScanRequest {
        category: CleanupCategory::UserCache,
        roots: roots.into_iter().map(String::from).collect(),
        excluded_roots: excluded.into_iter().map(String::from).collect(),
    }
}

fn start(request: ScanRequest) -> ScanSession {
    let resolved = vec![None; request.roots.len()];
    FileSystemScanner
        .start(request, &resolved)
        .expect("scan starts")
}

#[test]
fn scans_regular_files_and_emits_events() {
    let fs = tree(vec![
        ("/tmp/events", Node::Dir(vec!["cache.bin"])),
        ("/tmp/events/cache.bin", Node::File(4)),
    ]);
    let session = run(start(request(vec!["/tmp/events"], vec![])), &fs, &CancellationToken::new());

    assert_eq!(session.phase(), ScanPhase::Finished);
    let events = session.events().to_vec();
    let items = session.into_items();
    assert_eq!(items.len(), 1);
    assert_eq!(items[0].bytes, 4);
    assert!(matches!(events.first(), Some(ScanEvent::Started { .. })));
    assert!(events
        .iter()
        .any(|event| matches!(event, ScanEvent::ItemFound { .. })));
    assert!(matches!(events.last(), Some(ScanEvent::Finished { .. })));
}

#[test]
fn ignores_missing_optional_roots() {
    let fs = tree(vec![]);
    let session = run(start(request(vec!["/tmp/missing"], vec![])), &fs, &CancellationToken::new());
    assert_eq!(session.phase(), ScanPhase::Finished);
    let events = session.events().to_vec();

    assert!(session.items().is_empty());
    assert!(matches!(events.first(), Some(ScanEvent::Started { .. })));
    assert!(matches!(events.last(), Some(ScanEvent::Finished { .. })));
    assert!(!events
        .iter()
        .any(|event| matches!(event, ScanEvent::PermissionDenied { .. })));
}

#[test]
fn skips_excluded_roots() {
    let fs = tree(vec![
        ("/tmp/excluded", Node::Dir(vec!["keep", "excluded"])),
        ("/tmp/excluded/keep", Node::Dir(vec!["keep.bin"])),
        ("/tmp/excluded/keep/keep.bin", Node::File(1)),
        ("/tmp/excluded/excluded", Node::Dir(vec!["skip.bin"])),
        ("/tmp/excluded/excluded/skip.bin", Node::File(1)),
    ]);
    let session = run(
        start(request(vec!["/tmp/excluded"], vec!["/tmp/excluded/excluded"])),
        &fs,
        &CancellationToken::new(),
    );
    let items = session.into_items();

    assert_eq!(items.len(), 1);
    assert_eq!(items[0].path, "/tmp/excluded/keep/keep.bin");
}

#[test]
fn rejects_protected_broad_scan_root() {
    let request = request(vec!["/System"], vec![]);
    let error = FileSystemScanner
        .start(request, &vec![None])
        .err()
        .expect("protected broad root must be rejected");

    assert_eq!(error, "/System");
}

#[test]
fn reports_permission_denied_from_error_seam() {
    let path = "/fixture/denied";
    let mut events = Vec::new();

    let handled = handle_optional_path_error(
        path,
        std::io::Error::from(std::io::ErrorKind::PermissionDenied),
        &mut events,
    )
    .expect("permission denied is handled");

    assert!(handled);
    assert_eq!(
        events,
        vec![ScanEvent::PermissionDenied {
            path: path.to_string()
        }]
    );
}

#[test]
fn error_seam_skips_missing_and_hands_back_other_errors() {
    let mut events = Vec::new();
    let missing = handle_optional_path_error(
        "/fixture/gone",
        std::io::Error::from(std::io::ErrorKind::NotFound),
        &mut events,
    )
    .expect("a missing path is skipped");
    assert!(missing);
    assert!(events.is_empty());

    let other = handle_optional_path_error(
        "/fixture/broken",
        std::io::Error::from(std::io::ErrorKind::InvalidData),
        &mut events,
    );
    assert_eq!(other.expect_err("other errors end the scan").kind(), std::io::ErrorKind::InvalidData);
    assert!(events.is_empty());
    assert!(!handle_error_class("/fixture/x", IoErrorClass::Other, &mut events));
}

#[test]
fn honours_pre_cancelled_token() {
    let fs = tree(vec![
        ("/tmp/cancelled", Node::Dir(vec!["cache.bin"])),
        ("/tmp/cancelled/cache.bin", Node::File(1)),
    ]);
    let token = CancellationToken::new();
    token.cancel();
    let session = run(start(request(vec!["/tmp/cancelled"], vec![])), &fs, &token);

    assert_eq!(session.phase(), ScanPhase::Cancelled);
    assert!(session.items().is_empty());
    assert!(matches!(
        session.events().last(),
        Some(ScanEvent::Cancelled { .. })
    ));
}

#[test]
fn reports_symlink_without_traversing_it() {
    let fs = tree(vec![
        ("/tmp/symlink", Node::Dir(vec!["link"])),
        ("/tmp/symlink/link", Node::Link),
        ("/tmp/symlink/link/inside.bin", Node::File(9)),
    ]);
    let items = run(start(request(vec!["/tmp/symlink"], vec![])), &fs, &CancellationToken::new())
        .into_items();

    assert_eq!(items.len(), 1);
    assert!(items[0].is_symlink);
    assert_eq!(items[0].bytes, 0);
}

#[test]
fn denied_directories_are_reported_and_the_walk_goes_on() {
    let fs = tree(vec![
        ("/tmp/mixed", Node::Dir(vec!["a.bin", "locked", "b.bin"])),
        ("/tmp/mixed/a.bin", Node::File(3)),
        ("/tmp/mixed/locked", Node::Denied),
        ("/tmp/mixed/b.bin", Node::File(5)),
    ]);
    let session = run(start(request(vec!["/tmp/mixed"], vec![])), &fs, &CancellationToken::new());
    assert_eq!(session.phase(), ScanPhase::Finished);
    let events = session.events().to_vec();
    assert!(events.contains(&ScanEvent::PermissionDenied {
        path: "/tmp/mixed/locked".to_string()
    }));
    assert_eq!(
        events.last(),
        Some(&ScanEvent::Finished {
            summary: ScanSummary {
                item_count: 2,
                total_bytes: 8
            }
        })
    );
    let paths: Vec<String> = session.into_items().into_iter().map(|i| i.path).collect();
    assert_eq!(paths, vec!["/tmp/mixed/a.bin", "/tmp/mixed/b.bin"]);
}

#[test]
fn other_listing_errors_fail_the_scan() {
    let mut session = start(request(vec!["/tmp/broken"], vec![]));
    assert_eq!(session.step(false), ScanStep::Observe("/tmp/broken".to_string()));
    session.visit(PathVisit::UnlistableDirectory(IoErrorClass::Other));
    assert_eq!(session.phase(), ScanPhase::Failed);
}

#[test]
fn scan_items_carry_the_request_category() {
    let fs = tree(vec![("/tmp/node", Node::Dir(vec!["x"])), ("/tmp/node/x", Node::File(2))]);
    let mut req = request(vec!["/tmp/node"], vec![]);
    req.category = CleanupCategory::Node;
    let items = run(start(req), &fs, &CancellationToken::new()).into_items();
    assert_eq!(
        items,
        vec![ScanItem {
            path: "/tmp/node/x".to_string(),
            category: CleanupCategory::Node,
            bytes: 2,
            is_symlink: false
        }]
    );
}

#[test]
fn exclusion_is_by_path_component() {
    let excluded = vec!["/tmp/cache/Homebrew".to_string()];
    assert!(is_excluded("/tmp/cache/Homebrew", &excluded));
    assert!(is_excluded("/tmp/cache/Homebrew/x", &excluded));
    assert!(!is_excluded("/tmp/cache/HomebrewX", &excluded));
    assert!(!is_excluded("/tmp/cache", &excluded));
}

#[test]
fn cancellation_token_is_shared_by_clones() {
    let token = CancellationToken::default();
    let clone = token.clone();
    assert!(!token.is_cancelled());
    clone.cancel();
    assert!(token.is_cancelled());
}

#[test]
fn typed_targets_build_expected_requests() {
    let home = "/Users/tester".to_string();

    let user = UserCacheScan::new(home.clone()).request();
    assert_eq!(user.category, CleanupCategory::UserCache);
    assert_eq!(user.roots, vec!["/Users/tester/Library/Caches".to_string()]);
    assert_eq!(
        user.excluded_roots,
        vec!["/Users/tester/Library/Caches/Homebrew".to_string()]
    );

    let xcode = XcodeScan::new(home.clone()).request();
    assert_eq!(xcode.category, CleanupCategory::Xcode);
    assert_eq!(
        xcode.roots,
        vec!["/Users/tester/Library/Developer/Xcode/DerivedData".to_string()]
    );
}

#[test]
fn homebrew_and_node_targets_use_their_own_roots() {
    let home = "/Users/tester".to_string();
    let brew = HomebrewScan::new(home.clone()).request();
    assert_eq!(brew.category, CleanupCategory::Homebrew);
    assert_eq!(brew.roots, vec!["/Users/tester/Library/Caches/Homebrew".to_string()]);
    assert!(brew.excluded_roots.is_empty());

    let node = NodeScan::new(home).request();
    assert_eq!(node.category, CleanupCategory::Node);
    assert_eq!(
        node.roots,
        vec![
            "/Users/tester/.npm".to_string(),
            "/Users/tester/Library/pnpm/store".to_string()
        ]
    );
}

fn found(bytes: u64) -> ScanEvent {
    ScanEvent::ItemFound {
        item: ScanItem {
            path: "/tmp/a".to_string(),
            category: CleanupCategory::UserCache,
            bytes,
            is_symlink: false,
        },
    }
}

#[test]
fn scan_events_are_handed_over_in_full_batches() {
    let mut batcher = ScanBatcher::new();
    assert_eq!(
        batcher.fold(&ScanEvent::Started { category: CleanupCategory::UserCache, root_count: 1 }),
        None
    );
    assert_eq!(batcher.fold(&ScanEvent::PermissionDenied { path: "/tmp/x".to_string() }), None);
    for _ in 1..EVENT_BATCH_SIZE - 1 {
        assert_eq!(batcher.fold(&found(2)), None);
    }
    let delta = batcher.fold(&found(u64::MAX)).expect("a full batch");
    assert_eq!(
        delta,
        ScanDelta { items: EVENT_BATCH_SIZE - 1, bytes: u64::MAX, permission_denied: 1 }
    );
    assert_eq!(batcher.fold(&found(7)), None);
    assert_eq!(
        batcher.finish(),
        Some(ScanDelta { items: 1, bytes: 7, permission_denied: 0 })
    );
    assert_eq!(ScanBatcher::new().finish(), None);
}

#[test]
fn scan_totals_add_deltas_saturating() {
    let mut totals = ScanTotals::default();
    totals.apply(&ScanDelta { items: 2, bytes: 10, permission_denied: 1 });
    totals.apply(&ScanDelta { items: 3, bytes: u64::MAX, permission_denied: 0 });
    assert_eq!(totals, ScanTotals { items: 5, bytes: u64::MAX, permission_denied: 1 });
    assert!(ScanDelta::default().is_empty());
    assert!(!ScanDelta { items: 0, bytes: 1, permission_denied: 0 }.is_empty());
}

#[test]
fn rejects_protected_broad_scan_roots_on_windows() {
    for root in [r"C:\Windows", r"C:\", r"c:\program files (x86)\", r"D:/Users", r"\\server\share\"] {
        let error = FileSystemScanner
            .start_for(PathStyle::Windows, request(vec![root], vec![]), &vec![None])
            .err()
            .expect("protected Windows root must be rejected");
        assert_eq!(error, root);
    }
    let resolved_elsewhere = FileSystemScanner.start_for(
        PathStyle::Windows,
        request(vec![r"C:\Users\tester\link"], vec![]),
        &vec![Some(r"C:\Windows".to_string())],
    );
    assert_eq!(resolved_elsewhere.err(), Some(r"C:\Users\tester\link".to_string()));
    assert!(FileSystemScanner
        .start_for(
            PathStyle::Windows,
            request(vec![r"C:\Users\tester\AppData\Local\Temp"], vec![]),
            &vec![None]
        )
        .is_ok());
    assert!(request(vec![r"C:\Windows\Temp"], vec![])
        .validate_for(PathStyle::Windows, &vec![None])
        .is_ok());
}

#[test]
fn unix_scans_keep_the_unix_protected_list() {
    assert_eq!(
        request(vec!["/tmp/a", "/usr"], vec![]).validate(&vec![None, None]),
        Err("/usr".to_string())
    );
    assert!(request(vec![r"C:\Windows"], vec![]).validate(&vec![None]).is_ok());
}

#[test]
fn windows_excluded_roots_compare_by_components() {
    let excluded = vec![r"c:\cache\Homebrew".to_string()];
    assert!(is_excluded_in(PathStyle::Windows, r"C:\cache\Homebrew", &excluded));
    assert!(is_excluded_in(PathStyle::Windows, r"C:/cache/Homebrew/x", &excluded));
    assert!(!is_excluded_in(PathStyle::Windows, r"C:\cache\HomebrewX", &excluded));
    assert!(!is_excluded_in(PathStyle::Windows, r"D:\cache\Homebrew\x", &excluded));
    assert!(!is_excluded(r"C:\cache\Homebrew\x", &excluded));
}
