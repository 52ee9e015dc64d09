//! From scan items to a reviewable plan, and the safety rules an item must pass
//! right before it is acted on.
use vstd::prelude::*;

use crate::model::{CleanupCategory, CleanupPlan, CleanupPlanItem, ScanItem, no_selected_symlink};
use crate::path::{
    PathStyle, path_starts_with_in, paths_equal_in, same_path_in, starts_with_path_in,
};
use crate::safety::{
    is_protected_broad_root_in, is_protected_resolved_in, is_protected_resolved_path_in, opt_view,
    spec_is_protected_broad_root_in,
};

verus! {

/// What the file system reported for a path without following a final symlink
/// (`fs::symlink_metadata`).
#[derive(Debug, Clone, Copy, PartialEq, Eq, Structural)]
pub enum EntryKind {
    Missing,
    PermissionDenied,
    Unreadable,
    Symlink,
    File,
    Directory,
    Other,
}

impl EntryKind {
    /// Whether the metadata was read at all.
    pub open spec fn was_read(self) -> bool {
        match self {
            EntryKind::Missing | EntryKind::PermissionDenied | EntryKind::Unreadable => false,
            _ => true,
        }
    }
}

/// What the file system reported for one path at one moment: its entry kind, and
/// what it resolves to (`fs::canonicalize`), if it resolves.
#[derive(Debug, Clone, PartialEq, Eq)]
pub struct PathObservation {
    pub entry: EntryKind,
    pub canonical: Option<String>,
}

/// The view of an optional string.
pub open spec fn opt_string_view(o: Option<String>) -> Option<Seq<char>> {
    match o {
        Some(s) => Some(s@),
        None => None,
    }
}

/// A directory under which a category may be cleaned, pinned to what it resolved
/// to when the policy was made.
#[derive(Debug, Clone, PartialEq, Eq)]
pub struct AllowedRoot {
    pub category: CleanupCategory,
    pub path: String,
    pub canonical_path: Option<String>,
}

impl AllowedRoot {
    /// What the root resolved to when it was pinned.
    pub open spec fn pinned(&self) -> Option<Seq<char>> {
        opt_string_view(self.canonical_path)
    }

    /// A root pinned to `canonical_path`, the resolution of `path` at pinning time
    /// (`None` where it did not resolve: such a root allows nothing).
    pub fn pinned_to(category: CleanupCategory, path: String, canonical_path: Option<String>) -> (root: Self)
        ensures
            root.category == category,
            root.path == path,
            root.pinned() == opt_string_view(canonical_path),
    {
        AllowedRoot { category, path, canonical_path }
    }

    /// What the root resolved to when it was pinned.
    pub fn pinned_path(&self) -> (r: Option<&str>)
        ensures
            opt_view(r) == self.pinned(),
    {
        match &self.canonical_path {
            Some(p) => Some(p.as_str()),
            None => None,
        }
    }
}

/// Whether destructive actions may run at all, under which roots, and by the
/// path conventions of which platform the items and roots are read.
#[derive(Debug, Clone, PartialEq, Eq)]
pub struct ExecutionPolicy {
    pub destructive_actions_enabled: bool,
    pub allowed_roots: Vec<AllowedRoot>,
    pub path_style: PathStyle,
}

impl ExecutionPolicy {
    /// A policy that allows destructive actions under the given roots, for Unix
    /// paths.
    pub fn enabled(allowed_roots: Vec<AllowedRoot>) -> (policy: Self)
        ensures
            policy.destructive_actions_enabled,
            policy.allowed_roots == allowed_roots,
            policy.path_style == PathStyle::Unix,
    {
        Self::enabled_for(PathStyle::Unix, allowed_roots)
    }

    /// A policy that allows destructive actions under the given roots, for the
    /// paths of a platform with the conventions of `style`.
    pub fn enabled_for(style: PathStyle, allowed_roots: Vec<AllowedRoot>) -> (policy: Self)
        ensures
            policy.destructive_actions_enabled,
            policy.allowed_roots == allowed_roots,
            policy.path_style == style,
    {
        ExecutionPolicy { destructive_actions_enabled: true, allowed_roots, path_style: style }
    }
}

impl Default for ExecutionPolicy {
    /// Destructive actions off, no roots, Unix paths.
    fn default() -> (policy: Self)
        ensures
            !policy.destructive_actions_enabled,
            policy.allowed_roots@.len() == 0,
            policy.path_style == PathStyle::Unix,
    {
        ExecutionPolicy {
            destructive_actions_enabled: false,
            allowed_roots: Vec::new(),
            path_style: PathStyle::Unix,
        }
    }
}

/// Why an item may not be acted on.
#[derive(Debug, Clone, Copy, PartialEq, Eq, Structural)]
pub enum SafetyError {
    DestructiveActionsDisabled,
    SymlinkSelected,
    ProtectedRoot,
    MissingPath,
    PermissionDenied,
    PathRevalidationFailed,
    OutsideAllowedRoots,
}

/// Whether `root`, as observed now, allows an item of `category` that resolves to `target`:
/// same category, pinned, still not a symlink, still resolving to its pinned path,
/// and `target` strictly below it, paths read by the conventions of `style`.
pub open spec fn root_allows(
    style: PathStyle,
    root: AllowedRoot,
    category: CleanupCategory,
    target: Seq<char>,
    now: PathObservation,
) -> bool {
    &&& root.category == category
    &&& root.pinned() is Some
    &&& now.entry.was_read()
    &&& now.entry != EntryKind::Symlink
    &&& now.canonical is Some
    &&& same_path_in(style, now.canonical->0@, root.pinned()->0)
    &&& !same_path_in(style, target, root.pinned()->0)
    &&& path_starts_with_in(style, target, root.pinned()->0)
}

/// Whether some allowed root allows the item.
pub open spec fn some_root_allows(
    style: PathStyle,
    roots: Seq<AllowedRoot>,
    category: CleanupCategory,
    target: Seq<char>,
    now: Seq<PathObservation>,
) -> bool {
    exists|i: int|
        0 <= i < roots.len() && root_allows(style, #[trigger] roots[i], category, target, now[i])
}

/// The outcome of checking one item right before acting on it: the path to act on,
/// or the first rule it breaks, in this order: destructive actions disabled; the
/// item was scanned as a symlink; it resolves to a protected broad root; it is now
/// missing, unreadable or a symlink; it no longer resolves; its resolution is a
/// protected broad root; no allowed root allows it. Paths and protected roots are
/// those of the policy's platform.
pub open spec fn spec_validate_item(
    item: ScanItem,
    policy: ExecutionPolicy,
    now: PathObservation,
    roots_now: Seq<PathObservation>,
) -> Result<Seq<char>, SafetyError> {
    if !policy.destructive_actions_enabled {
        Err(SafetyError::DestructiveActionsDisabled)
    } else if item.is_symlink {
        Err(SafetyError::SymlinkSelected)
    } else if spec_is_protected_broad_root_in(
        policy.path_style,
        item.path@,
        opt_string_view(now.canonical),
    ) {
        Err(SafetyError::ProtectedRoot)
    } else if now.entry == EntryKind::Missing {
        Err(SafetyError::MissingPath)
    } else if now.entry == EntryKind::PermissionDenied {
        Err(SafetyError::PermissionDenied)
    } else if now.entry == EntryKind::Unreadable {
        Err(SafetyError::PathRevalidationFailed)
    } else if now.entry == EntryKind::Symlink {
        Err(SafetyError::SymlinkSelected)
    } else if now.canonical is None {
        Err(SafetyError::PathRevalidationFailed)
    } else if is_protected_resolved_in(policy.path_style, now.canonical->0@) {
        Err(SafetyError::ProtectedRoot)
    } else if !some_root_allows(
        policy.path_style,
        policy.allowed_roots@,
        item.category,
        now.canonical->0@,
        roots_now,
    ) {
        Err(SafetyError::OutsideAllowedRoots)
    } else {
        Ok(now.canonical->0@)
    }
}

/// The view of a validation result.
pub open spec fn result_view(r: Result<String, SafetyError>) -> Result<Seq<char>, SafetyError> {
    match r {
        Ok(p) => Ok(p@),
        Err(e) => Err(e),
    }
}

/// The observations for one plan entry: the entry's own path, and each allowed
/// root of the policy, in the policy's order.
#[derive(Debug, Clone, PartialEq, Eq)]
pub struct ItemObservation {
    pub item: PathObservation,
    pub roots: Vec<PathObservation>,
}

/// Builds plans and checks items before execution.
pub struct Planner;

/// Whether `plan` is what `Planner::build` makes of `items`.
pub open spec fn is_built_from(entries: Seq<CleanupPlanItem>, items: Seq<ScanItem>) -> bool {
    &&& entries.len() == items.len()
    &&& forall|i: int|
        0 <= i < items.len() ==> (#[trigger] entries[i]).item == items[i] && entries[i].selected
            == !items[i].is_symlink
}

/// The index of the first selected entry that fails validation, or the length.
pub open spec fn first_invalid(
    entries: Seq<CleanupPlanItem>,
    policy: ExecutionPolicy,
    observations: Seq<ItemObservation>,
    from: int,
) -> int
    decreases entries.len() - from,
{
    if from >= entries.len() || from < 0 {
        entries.len() as int
    } else if entries[from].selected && spec_validate_item(
        entries[from].item,
        policy,
        observations[from].item,
        observations[from].roots@,
    ) is Err {
        from
    } else {
        first_invalid(entries, policy, observations, from + 1)
    }
}

impl Planner {
    /// A plan of all the items, each selected unless it is a symlink.
    pub fn build(items: Vec<ScanItem>) -> (plan: CleanupPlan)
        ensures
            is_built_from(plan.items@, items@),
            no_selected_symlink(plan.items@),
    {
        let ghost input = items@;
        let mut entries: Vec<CleanupPlanItem> = Vec::new();
        for item in it: items
            invariant
                it.seq() == input,
                entries@.len() == it.index(),
                forall|j: int|
                    0 <= j < it.index() ==> (#[trigger] entries@[j]).item == input[j]
                        && entries@[j].selected == !input[j].is_symlink,
        {
            let selected = !item.is_symlink;
            entries.push(CleanupPlanItem { item, selected });
        }
        CleanupPlan { items: entries }
    }

    /// Checks one item right before acting on it, against what the file system
    /// reports now. On success, the path to act on: the item's resolution.
    #[verifier::loop_isolation(false)]
    pub fn validate_item_for_execution(
        item: &ScanItem,
        policy: &ExecutionPolicy,
        observed: &ItemObservation,
    ) -> (r: Result<String, SafetyError>)
        requires
            observed.roots@.len() == policy.allowed_roots@.len(),
        ensures
            result_view(r) == spec_validate_item(*item, *policy, observed.item, observed.roots@),
    {
        if !policy.destructive_actions_enabled {
            return Err(SafetyError::DestructiveActionsDisabled);
        }
        if item.is_symlink {
            return Err(SafetyError::SymlinkSelected);
        }
        let resolved: Option<&str> = match &observed.item.canonical {
            Some(c) => Some(c.as_str()),
            None => None,
        };
        if is_protected_broad_root_in(policy.path_style, item.path.as_str(), resolved) {
            return Err(SafetyError::ProtectedRoot);
        }
        match observed.item.entry {
            EntryKind::Missing => {
                return Err(SafetyError::MissingPath);
            },
            EntryKind::PermissionDenied => {
                return Err(SafetyError::PermissionDenied);
            },
            EntryKind::Unreadable => {
                return Err(SafetyError::PathRevalidationFailed);
            },
            EntryKind::Symlink => {
                return Err(SafetyError::SymlinkSelected);
            },
            _ => {},
        }
        let canonical = match &observed.item.canonical {
            Some(c) => c,
            None => {
                return Err(SafetyError::PathRevalidationFailed);
            },
        };
        if is_protected_resolved_path_in(policy.path_style, canonical.as_str()) {
            return Err(SafetyError::ProtectedRoot);
        }
        let mut i: usize = 0;
        while i < policy.allowed_roots.len()
            invariant
                i <= policy.allowed_roots@.len(),
                observed.roots@.len() == policy.allowed_roots@.len(),
                forall|j: int|
                    0 <= j < i ==> !root_allows(
                        policy.path_style,
                        #[trigger] policy.allowed_roots@[j],
                        item.category,
                        canonical@,
                        observed.roots@[j],
                    ),
            decreases policy.allowed_roots@.len() - i,
        {
            if Self::root_allows_now(
                policy.path_style,
                &policy.allowed_roots[i],
                item.category,
                canonical.as_str(),
                &observed.roots[i],
            ) {
                assert(root_allows(
                    policy.path_style,
                    policy.allowed_roots@[i as int],
                    item.category,
                    canonical@,
                    observed.roots@[i as int],
                ));
                return Ok(canonical.clone());
            }
            i = i + 1;
        }
        Err(SafetyError::OutsideAllowedRoots)
    }

    fn root_allows_now(
        style: PathStyle,
        root: &AllowedRoot,
        category: CleanupCategory,
        target: &str,
        now: &PathObservation,
    ) -> (r: bool)
        ensures
            r == root_allows(style, *root, category, target@, *now),
    {
        if root.category != category {
            return false;
        }
        let pinned = match root.pinned_path() {
            Some(p) => p,
            None => {
                return false;
            },
        };
        match now.entry {
            EntryKind::Missing | EntryKind::PermissionDenied | EntryKind::Unreadable
            | EntryKind::Symlink => {
                return false;
            },
            _ => {},
        }
        let current = match &now.canonical {
            Some(c) => c,
            None => {
                return false;
            },
        };
        if !paths_equal_in(style, current.as_str(), pinned) {
            return false;
        }
        !paths_equal_in(style, target, pinned) && starts_with_path_in(style, target, pinned)
    }

    /// Checks every selected entry of the plan; the first failure is the answer.
    /// `observations[i]` is what the file system reports now for entry `i`.
    pub fn validate_for_execution(
        plan: &CleanupPlan,
        policy: &ExecutionPolicy,
        observations: &Vec<ItemObservation>,
    ) -> (r: Result<(), SafetyError>)
        requires
            observations@.len() == plan.items@.len(),
            forall|i: int|
                0 <= i < observations@.len() ==> (#[trigger] observations@[i]).roots@.len()
                    == policy.allowed_roots@.len(),
        ensures
            !policy.destructive_actions_enabled ==> r == Err::<(), SafetyError>(
                SafetyError::DestructiveActionsDisabled,
            ),
            policy.destructive_actions_enabled ==> ({
                let k = first_invalid(plan.items@, *policy, observations@, 0);
                &&& k == plan.items@.len() ==> r is Ok
                &&& k < plan.items@.len() ==> r == Err::<(), SafetyError>(
                    spec_validate_item(
                        plan.items@[k].item,
                        *policy,
                        observations@[k].item,
                        observations@[k].roots@,
                    )->Err_0,
                )
            }),
    {
        if !policy.destructive_actions_enabled {
            return Err(SafetyError::DestructiveActionsDisabled);
        }
        let mut i: usize = 0;
        while i < plan.items.len()
            invariant
                i <= plan.items@.len(),
                policy.destructive_actions_enabled,
                observations@.len() == plan.items@.len(),
                forall|j: int|
                    0 <= j < observations@.len() ==> (#[trigger] observations@[j]).roots@.len()
                        == policy.allowed_roots@.len(),
                first_invalid(plan.items@, *policy, observations@, 0) == first_invalid(
                    plan.items@,
                    *policy,
                    observations@,
                    i as int,
                ),
            decreases plan.items@.len() - i,
        {
            if plan.items[i].selected {
                match Self::validate_item_for_execution(&plan.items[i].item, policy, &observations[i]) {
                    Err(e) => {
                        return Err(e);
                    },
                    Ok(_) => {},
                }
            }
            i = i + 1;
        }
        Ok(())
    }
}

} // verus!
