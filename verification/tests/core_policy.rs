use dxtr_cleaner::action_policy::{
    supports_permanent_delete, ActionPolicyError, CategoryActionPolicy, CleanupAction,
};
use dxtr_cleaner::app_inventory::{
    ApplicationInventoryIssue, ApplicationInventoryReport, ApplicationLocation,
    ApplicationMetadata, InstalledApplication,
};
use dxtr_cleaner::app_protection::{
    ApplicationProtection, ApplicationProtectionPolicy, ApplicationProtectionReason,
};
use dxtr_cleaner::bundle_identifier::{is_apple_bundle_identifier, is_safe_bundle_identifier};
use dxtr_cleaner::model::{CleanupCategory, CleanupPlan, CleanupPlanItem, ScanItem, ScanSummary};

const ALL_CATEGORIES: [CleanupCategory; 7] = [
    CleanupCategory::UserCache,
    CleanupCategory::SystemCache,
    CleanupCategory::Xcode,
    CleanupCategory::Homebrew,
    CleanupCategory::Node,
    CleanupCategory::Docker,
    CleanupCategory::LargeFiles,
];

#[test]
fn trash_is_the_default_for_every_category() {
    let policy = CategoryActionPolicy::trash_only();

    for category in ALL_CATEGORIES {
        assert_eq!(policy.action_for(category), CleanupAction::MoveToTrash);
    }
}

#[test]
fn permanent_delete_requires_an_explicit_safe_category_opt_in() {
    let mut policy = CategoryActionPolicy::trash_only();

    policy
        .enable_permanent_delete(CleanupCategory::Xcode)
        .expect("xcode generated data can opt in");
    assert_eq!(
        policy.action_for(CleanupCategory::Xcode),
        CleanupAction::PermanentDelete
    );
    assert_eq!(
        policy.action_for(CleanupCategory::LargeFiles),
        CleanupAction::MoveToTrash
    );
}

#[test]
fn permanent_delete_is_blocked_for_sensitive_or_ambiguous_categories() {
    let mut policy = CategoryActionPolicy::trash_only();

    for category in [
        CleanupCategory::SystemCache,
        CleanupCategory::Docker,
        CleanupCategory::LargeFiles,
    ] {
        assert_eq!(
            policy.enable_permanent_delete(category),
            Err(ActionPolicyError::PermanentDeleteNotAllowed(category))
        );
    }
}

#[test]
fn opting_in_one_category_leaves_the_others_trashed() {
    let mut policy = CategoryActionPolicy::trash_only();
    policy
        .enable_permanent_delete(CleanupCategory::Node)
        .expect("node caches can opt in");
    policy
        .enable_permanent_delete(CleanupCategory::Node)
        .expect("opting in twice is harmless");
    for category in ALL_CATEGORIES {
        let expected = if category == CleanupCategory::Node {
            CleanupAction::PermanentDelete
        } else {
            CleanupAction::MoveToTrash
        };
        assert_eq!(policy.action_for(category), expected);
    }
}

#[test]
fn permanent_delete_support_matches_generated_data_categories() {
    let supported: Vec<CleanupCategory> = ALL_CATEGORIES
        .iter()
        .copied()
        .filter(|category| supports_permanent_delete(*category))
        .collect();
    assert_eq!(
        supported,
        vec![
            CleanupCategory::UserCache,
            CleanupCategory::Xcode,
            CleanupCategory::Homebrew,
            CleanupCategory::Node,
        ]
    );
}

#[test]
fn category_labels_are_human_readable() {
    assert_eq!(CleanupCategory::UserCache.label(), "User Cache");
    assert_eq!(CleanupCategory::SystemCache.label(), "System Cache");
    assert_eq!(CleanupCategory::LargeFiles.label(), "Large Files");
    assert_eq!(CleanupCategory::Docker.label(), "Docker");
}

#[test]
fn report_sort_is_deterministic() {
    let mut report = ApplicationInventoryReport {
        applications: vec![
            InstalledApplication::new(
                "/Applications/Zeta.app".to_string(),
                "Zeta".to_string(),
                ApplicationLocation::Local,
            ),
            InstalledApplication::new(
                "/Applications/Alpha.app".to_string(),
                "Alpha".to_string(),
                ApplicationLocation::Local,
            ),
        ],
        issues: vec![
            ApplicationInventoryIssue::new("/z".to_string(), "z".to_string()),
            ApplicationInventoryIssue::new("/a".to_string(), "a".to_string()),
        ],
    };

    report.sort_deterministically();

    assert_eq!(report.applications[0].name, "Alpha");
    assert_eq!(report.issues[0].path, "/a");
}

#[test]
fn inventory_sort_keeps_every_entry() {
    let mut report = ApplicationInventoryReport {
        applications: vec![
            InstalledApplication::new(
                "/Applications/B.app".to_string(),
                "B".to_string(),
                ApplicationLocation::User,
            ),
            InstalledApplication::new(
                "/Applications/B.app".to_string(),
                "B".to_string(),
                ApplicationLocation::Local,
            ),
            InstalledApplication::new(
                "/Applications/A.app".to_string(),
                "A".to_string(),
                ApplicationLocation::System,
            ),
        ],
        issues: vec![],
    };
    report.sort_deterministically();
    assert_eq!(report.applications.len(), 3);
    assert_eq!(report.applications[0].path, "/Applications/A.app");
    assert_eq!(report.applications[1].path, "/Applications/B.app");
    assert_eq!(report.applications[2].path, "/Applications/B.app");
}

fn application(path: &str, location: ApplicationLocation) -> InstalledApplication {
    InstalledApplication::new(path.to_string(), "Example".to_string(), location)
}

fn with_bundle_identifier(app: InstalledApplication, identifier: &str) -> InstalledApplication {
    let mut metadata = ApplicationMetadata::default();
    metadata.bundle_identifier = Some(identifier.to_string());
    app.with_metadata(metadata)
}

#[test]
fn protects_system_location_even_outside_known_roots() {
    let app = application("/Applications/Fixture.app", ApplicationLocation::System);
    let protection = ApplicationProtectionPolicy.evaluate(&app);

    assert!(protection.is_protected());
    assert!(protection
        .reasons()
        .contains(&ApplicationProtectionReason::SystemLocation));
}

#[test]
fn protects_known_system_application_roots_defensively() {
    let app = application(
        "/System/Applications/Utilities/Terminal.app",
        ApplicationLocation::Local,
    );
    let protection = ApplicationProtectionPolicy.evaluate(&app);

    assert!(protection.is_protected());
    assert!(protection.reasons().iter().any(|reason| matches!(
        reason,
        ApplicationProtectionReason::SystemPath(root) if root == "/System/Applications"
    )));
}

#[test]
fn protects_apple_bundle_identifier_even_in_local_applications() {
    let app = with_bundle_identifier(
        application("/Applications/Safari.app", ApplicationLocation::Local),
        "com.apple.Safari",
    );
    let protection = ApplicationProtectionPolicy.evaluate(&app);

    assert!(protection.is_protected());
    assert!(protection.reasons().iter().any(|reason| matches!(
        reason,
        ApplicationProtectionReason::AppleBundleIdentifier(identifier)
            if identifier == "com.apple.Safari"
    )));
}

#[test]
fn does_not_treat_lookalike_bundle_prefix_as_apple() {
    let app = with_bundle_identifier(
        application("/Applications/Fake.app", ApplicationLocation::Local),
        "com.appleish.fake",
    );

    assert_eq!(
        ApplicationProtectionPolicy.evaluate(&app),
        ApplicationProtection::Unprotected
    );
}

#[test]
fn ordinary_local_application_remains_unprotected() {
    let app = with_bundle_identifier(
        application("/Applications/Example.app", ApplicationLocation::Local),
        "com.example.app",
    );

    assert_eq!(
        ApplicationProtectionPolicy.evaluate(&app),
        ApplicationProtection::Unprotected
    );
}

#[test]
fn protection_collects_every_reason_in_order() {
    let app = with_bundle_identifier(
        application("/System/Applications/Mail.app", ApplicationLocation::System),
        "com.apple.mail",
    );
    let protection = ApplicationProtectionPolicy.evaluate(&app);
    assert_eq!(
        protection.reasons(),
        &[
            ApplicationProtectionReason::SystemLocation,
            ApplicationProtectionReason::SystemPath("/System/Applications".to_string()),
            ApplicationProtectionReason::AppleBundleIdentifier("com.apple.mail".to_string()),
        ][..]
    );
    assert!(ApplicationProtection::Unprotected.reasons().is_empty());
}

#[test]
fn safe_bundle_identifier_rejects_path_escape_shapes() {
    for identifier in [
        "",
        "..",
        "/",
        "com/example/app",
        "com..example",
        ".com.example",
        "com.example.",
    ] {
        assert!(!is_safe_bundle_identifier(identifier), "{identifier}");
    }

    assert!(is_safe_bundle_identifier("com.example.app"));
    assert!(is_safe_bundle_identifier("com.example-app_2"));
}

#[test]
fn apple_namespace_requires_exact_component_boundary() {
    assert!(is_apple_bundle_identifier("com.apple"));
    assert!(is_apple_bundle_identifier("com.apple.Safari"));
    assert!(!is_apple_bundle_identifier("com.appleish.fake"));
}

#[test]
fn bundle_identifier_rejects_non_ascii_and_spaces() {
    assert!(!is_safe_bundle_identifier("com.exämple.app"));
    assert!(!is_safe_bundle_identifier("com.example app"));
    assert!(!is_apple_bundle_identifier("com.apple/../x"));
    assert!(!is_apple_bundle_identifier("org.apple.x"));
}

fn item(path: &str, category: CleanupCategory, bytes: u64, is_symlink: bool) -> ScanItem {
    ScanItem {
        path: path.to_string(),
        category,
        bytes,
        is_symlink,
    }
}

#[test]
fn plan_review_helpers_keep_symlinks_unselected() {
    let mut plan = CleanupPlan {
        items: vec![
            CleanupPlanItem {
                item: item("/tmp/cache", CleanupCategory::UserCache, 10, false),
                selected: false,
            },
            CleanupPlanItem {
                item: item("/tmp/link", CleanupCategory::UserCache, 20, true),
                selected: false,
            },
        ],
    };

    plan.set_all_selected(true);

    assert!(plan.items[0].selected);
    assert!(!plan.items[1].selected);
    assert_eq!(plan.selected_count(), 1);
    assert_eq!(plan.selected_bytes(), 10);
}

#[test]
fn bulk_selection_normalizes_preselected_symlinks() {
    let mut plan = CleanupPlan {
        items: vec![
            CleanupPlanItem {
                item: item("/tmp/cache", CleanupCategory::UserCache, 10, false),
                selected: true,
            },
            CleanupPlanItem {
                item: item("/tmp/link", CleanupCategory::UserCache, 20, true),
                selected: true,
            },
        ],
    };

    plan.set_all_selected(false);
    assert!(!plan.items[0].selected);
    assert!(!plan.items[1].selected);

    plan.items[1].selected = true;
    plan.set_category_selected(CleanupCategory::UserCache, true);
    assert!(plan.items[0].selected);
    assert!(!plan.items[1].selected);
}

#[test]
fn category_and_path_selection_are_frontend_neutral() {
    let mut plan = CleanupPlan {
        items: vec![
            CleanupPlanItem {
                item: item("/tmp/a", CleanupCategory::UserCache, 10, false),
                selected: true,
            },
            CleanupPlanItem {
                item: item("/tmp/b", CleanupCategory::Node, 20, false),
                selected: true,
            },
        ],
    };

    plan.set_category_selected(CleanupCategory::Node, false);
    assert!(plan.items[0].selected);
    assert!(!plan.items[1].selected);

    assert!(plan.toggle_path("/tmp/a"));
    assert!(!plan.items[0].selected);
    assert!(!plan.toggle_path("/tmp/missing"));
}

#[test]
fn toggling_a_symlink_never_selects_it() {
    let mut plan = CleanupPlan {
        items: vec![CleanupPlanItem {
            item: item("/tmp/link", CleanupCategory::UserCache, 20, true),
            selected: false,
        }],
    };
    assert!(!plan.toggle_path("/tmp/link"));
    assert!(!plan.items[0].selected);
    assert_eq!(plan.selected_count(), 0);
}

#[test]
fn summary_counts_items_and_sums_bytes() {
    let items = vec![
        item("/tmp/a", CleanupCategory::UserCache, 10, false),
        item("/tmp/b", CleanupCategory::Node, 32, false),
        item("/tmp/c", CleanupCategory::Node, 0, true),
    ];
    let summary = ScanSummary::from_items(&items);
    assert_eq!(summary.item_count, 3);
    assert_eq!(summary.total_bytes, 42);
    assert_eq!(ScanSummary::from_items(&[]), ScanSummary::default());
}

#[test]
fn inventory_sort_is_stable_and_a_second_sort_changes_nothing() {
    let entry = |bundle: &str| {
        let mut metadata = ApplicationMetadata::default();
        metadata.bundle_identifier = Some(bundle.to_string());
        InstalledApplication::new(
            "/Applications/Same.app".to_string(),
            "Same".to_string(),
            ApplicationLocation::Local,
        )
        .with_metadata(metadata)
    };
    let mut report = ApplicationInventoryReport {
        applications: vec![
            entry("com.example.second"),
            InstalledApplication::new(
                "/Applications/Alpha.app".to_string(),
                "Alpha".to_string(),
                ApplicationLocation::Local,
            ),
            entry("com.example.first"),
        ],
        issues: vec![
            ApplicationInventoryIssue::new("/same".to_string(), "later".to_string()),
            ApplicationInventoryIssue::new("/same".to_string(), "early".to_string()),
        ],
    };

    report.sort_deterministically();
    let once = report.clone();
    report.sort_deterministically();

    assert_eq!(report, once);
    let bundles: Vec<Option<String>> = report
        .applications
        .iter()
        .map(|a| a.metadata.bundle_identifier.clone())
        .collect();
    assert_eq!(
        bundles,
        vec![
            None,
            Some("com.example.second".to_string()),
            Some("com.example.first".to_string()),
        ]
    );
    assert_eq!(report.issues[0].message, "early");
}

#[test]
fn selected_bytes_never_exceed_the_scan_total_and_drop_to_zero_when_all_deselected() {
    let items = vec![
        item("/Users/t/Library/Caches/a", CleanupCategory::UserCache, 10, false),
        item("/Users/t/Library/Caches/b", CleanupCategory::UserCache, 20, false),
        item("/Users/t/Library/Caches/link", CleanupCategory::UserCache, 5, true),
    ];
    let summary = ScanSummary::from_items(&items);
    let mut plan = CleanupPlan {
        items: items
            .iter()
            .map(|i| CleanupPlanItem { item: i.clone(), selected: false })
            .collect(),
    };
    plan.set_all_selected(true);
    assert_eq!(plan.selected_bytes(), 30);
    assert!(plan.selected_bytes() <= summary.total_bytes);
    assert_eq!(summary.total_bytes, 35);
    plan.set_all_selected(false);
    assert_eq!(plan.selected_bytes(), 0);
    assert_eq!(plan.selected_count(), 0);
}
