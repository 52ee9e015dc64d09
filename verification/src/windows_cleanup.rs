//! Trash-only cleanup on Windows: the Recycle Bin's checks, the disposable
//! directory flow, and Smart Scan cleanup bound to the file identities seen at
//! review time.
use vstd::prelude::*;

use crate::action_policy::{CategoryActionPolicy, CleanupAction};
use crate::cancellation::CancellationToken;
use crate::executor::{
    CleanupBackend, CleanupExecutor, ExecutionFailure, ExecutionOutcome, ExecutionRecord,
    ExecutionReport, backend_outcome, follows_plan, record_rests_on_check, records_follow,
    run_covers_prefix, verdict_possible,
};
use crate::model::{CleanupCategory, CleanupPlan, CleanupPlanItem, ScanItem, count_selected};
use crate::path::{
    PathStyle, path_starts_with_in, paths_equal, same_path, same_path_in, string_views,
};
use crate::planner::{
    AllowedRoot, ExecutionPolicy, PathObservation, Planner, SafetyError, is_built_from,
    opt_string_view, root_allows, some_root_allows, spec_validate_item,
};
use crate::scanner::ScanRequest;
use crate::text::{ascii_lowercase, concat_str, has_infix};
use crate::windows::{WindowsScanSet, is_windows_absolute};

verus! {

#[verifier::external_type_specification]
#[verifier::external_body]
pub struct ExHandle(same_file::Handle);

/// The Windows Recycle Bin.
#[derive(Debug, Default, Clone, Copy)]
pub struct WindowsTrashBackend;

/// What the Recycle Bin says before moving a path: only on Windows, only an
/// absolute path, only one that exists.
pub open spec fn spec_recycle_preflight(on_windows: bool, path: Seq<char>, exists: bool) -> Result<
    (),
    Seq<char>,
> {
    if !on_windows {
        Err("Windows Recycle Bin backend is unavailable on this platform"@)
    } else if !is_windows_absolute(path) {
        Err("Recycle Bin path must be absolute"@)
    } else if !exists {
        Err("Recycle Bin path does not exist: "@ + path)
    } else {
        Ok(())
    }
}

impl WindowsTrashBackend {
    /// Permanent deletion stays locked on Windows.
    pub fn permanent_delete(&self, path: &str) -> (r: Result<(), String>)
        ensures
            crate::launch_agent::text_result_view(r) == Err::<(), Seq<char>>(
                "permanent delete remains safety-locked on Windows"@,
            ),
    {
        Err("permanent delete remains safety-locked on Windows".to_owned())
    }

    /// The checks before moving `path` to the Recycle Bin. `on_windows` is whether
    /// this runs on Windows; `exists` whether the path exists now.
    pub fn recycle_preflight(&self, on_windows: bool, path: &str, exists: bool) -> (r: Result<(), String>)
        ensures
            crate::launch_agent::text_result_view(r) == spec_recycle_preflight(on_windows, path@, exists),
    {
        if !on_windows {
            return Err("Windows Recycle Bin backend is unavailable on this platform".to_owned());
        }
        if !crate::windows::is_windows_absolute_path(path) {
            return Err("Recycle Bin path must be absolute".to_owned());
        }
        if !exists {
            return Err(concat_str("Recycle Bin path does not exist: ", path));
        }
        Ok(())
    }
}

/// A path the Recycle Bin found gone is reported as skipped, not as a failure.
pub proof fn recycle_bin_missing_path_is_reported_missing(path: Seq<char>)
    requires
        is_windows_absolute(path),
    ensures
        backend_outcome(spec_recycle_preflight(true, path, false)->Err_0) == ExecutionOutcome::Missing,
{
    reveal_strlit("Recycle Bin path does not exist: ");
    reveal_strlit("does not exist");
    let m = "Recycle Bin path does not exist: "@ + path;
    let absent = "does not exist"@;
    let lower = ascii_lowercase(m);
    assert(lower.subrange(17int, 17int + absent.len()) =~= absent);
    assert(has_infix(lower, absent));
}

/// Whether `records` belong to selected entries of `entries`, one each, in order,
/// each resting on a check of its entry under `ep`, and every one of them went
/// (or was to go) to the Trash.
pub open spec fn trash_records_follow(
    records: Seq<ExecutionRecord>,
    entries: Seq<CleanupPlanItem>,
    ep: ExecutionPolicy,
) -> bool {
    &&& exists|ap: CategoryActionPolicy| follows_plan(records, entries, ap, ep)
    &&& forall|k: int| 0 <= k < records.len() ==> (#[trigger] records[k]).action == CleanupAction::MoveToTrash
}

/// A run under a trash-only action policy moves every item to the Trash.
proof fn lemma_trash_only_run(
    records: Seq<ExecutionRecord>,
    entries: Seq<CleanupPlanItem>,
    ap: CategoryActionPolicy,
    ep: ExecutionPolicy,
)
    requires
        follows_plan(records, entries, ap, ep),
        ap.permanent_categories() == Set::<CleanupCategory>::empty(),
    ensures
        trash_records_follow(records, entries, ep),
{
    let sources = choose|sources: Seq<int>| #[trigger] records_follow(records, entries, ap, ep, sources);
    assert forall|k: int| 0 <= k < records.len() implies (#[trigger] records[k]).action
        == CleanupAction::MoveToTrash by {
        let s = sources[k];
    }
}

/// Whether `path` lies strictly below the disposable root as it was resolved
/// (`canonical_root`), both read as Windows paths; nothing does when the root did
/// not resolve.
pub open spec fn inside_disposable_root(path: Seq<char>, canonical_root: Option<String>) -> bool {
    match canonical_root {
        Some(c) => path_starts_with_in(PathStyle::Windows, path, c@) && !same_path_in(
            PathStyle::Windows,
            path,
            c@,
        ),
        None => false,
    }
}

/// Whether `records` are what a trash-only run under `ep` made of the selected
/// entries before some entry `n` (all of them when `complete`), each checked
/// against what `observe` reported right before acting and, where the check
/// passed, holding what `backend` answered (`run_covers_prefix`).
pub open spec fn trash_run_covers<B: CleanupBackend, F: Fn(&str) -> PathObservation>(
    records: Seq<ExecutionRecord>,
    entries: Seq<CleanupPlanItem>,
    ep: ExecutionPolicy,
    observe: F,
    backend: &B,
    complete: bool,
) -> bool {
    exists|ap: CategoryActionPolicy, n: int|
        {
            &&& ap.permanent_categories() == Set::<CleanupCategory>::empty()
            &&& #[trigger] run_covers_prefix(records, entries, ap, ep, observe, backend, n)
            &&& complete ==> n == entries.len()
        }
}

/// Whether `ep` is the policy of a disposable cleanup of `root`: destructive
/// actions enabled, Windows paths, and one allowed root, `root` itself, for user
/// caches, pinned to `canonical_root`.
pub open spec fn is_disposable_policy(ep: ExecutionPolicy, root: String, canonical_root: Option<String>) -> bool {
    &&& ep.destructive_actions_enabled
    &&& ep.path_style == PathStyle::Windows
    &&& ep.allowed_roots@.len() == 1
    &&& ep.allowed_roots@[0].category == CleanupCategory::UserCache
    &&& ep.allowed_roots@[0].path == root
    &&& ep.allowed_roots@[0].pinned() == opt_string_view(canonical_root)
}

/// Trash-only cleanup of a disposable directory that was scanned by hand.
pub struct WindowsDisposableCleanup;

impl WindowsDisposableCleanup {
    /// Runs the trash-only cleanup of `plan` under the disposable root alone
    /// (`policies`), checking each selected entry against what `observe` reports
    /// and moving it with `backend` (`CleanupExecutor::execute`). Only a path
    /// strictly below the resolved root is acted on: any other entry is recorded
    /// as refused by the check.
    pub fn execute_with_backend<B: CleanupBackend, F: Fn(&str) -> PathObservation>(
        plan: &CleanupPlan,
        root: String,
        canonical_root: Option<String>,
        cancellation: &CancellationToken,
        backend: &B,
        observe: F,
    ) -> (r: Result<ExecutionReport, SafetyError>)
        requires
            forall|p: &str| call_requires(observe, (p,)),
        ensures
            r is Ok,
            exists|ep: ExecutionPolicy|
                {
                    &&& is_disposable_policy(ep, root, canonical_root)
                    &&& #[trigger] trash_records_follow(r->Ok_0.records@, plan.items@, ep)
                    &&& trash_run_covers(
                        r->Ok_0.records@,
                        plan.items@,
                        ep,
                        observe,
                        backend,
                        !r->Ok_0.cancelled,
                    )
                },
            !r->Ok_0.cancelled ==> r->Ok_0.records@.len() == count_selected(plan.items@),
            forall|k: int|
                0 <= k < r->Ok_0.records@.len() && !((#[trigger] r->Ok_0.records@[k]).result matches Err(
                    ExecutionFailure::Safety(_),
                )) ==> inside_disposable_root(r->Ok_0.records@[k].path@, canonical_root),
    {
        let ghost root_view = root;
        let ghost canonical_view = canonical_root;
        let (policy, actions) = Self::policies(root, canonical_root);
        let r = CleanupExecutor::execute(plan, &policy, &actions, cancellation, backend, observe);
        proof {
            lemma_trash_only_run(r->Ok_0.records@, plan.items@, actions, policy);
            let records = r->Ok_0.records@;
            if r->Ok_0.cancelled {
                let n = choose|n: int|
                    run_covers_prefix(records, plan.items@, actions, policy, observe, backend, n);
                assert(run_covers_prefix(records, plan.items@, actions, policy, observe, backend, n));
            } else {
                assert(run_covers_prefix(
                    records,
                    plan.items@,
                    actions,
                    policy,
                    observe,
                    backend,
                    plan.items@.len() as int,
                ));
            }
            assert(trash_run_covers(records, plan.items@, policy, observe, backend, !r->Ok_0.cancelled));
            assert(is_disposable_policy(policy, root_view, canonical_view));
            let sources = choose|sources: Seq<int>| #[trigger] records_follow(
                records,
                plan.items@,
                actions,
                policy,
                sources,
            );
            assert forall|k: int|
                0 <= k < records.len() && !((#[trigger] records[k]).result matches Err(
                    ExecutionFailure::Safety(_),
                )) implies inside_disposable_root(records[k].path@, canonical_view) by {
                let item = plan.items@[sources[k]].item;
                assert(record_rests_on_check(records[k], item, policy));
                assert(verdict_possible(item, policy, Ok(records[k].path@)));
                let (now, roots_now) = choose|now: PathObservation, roots_now: Seq<PathObservation>|
                    roots_now.len() == policy.allowed_roots@.len() && #[trigger] spec_validate_item(
                        item,
                        policy,
                        now,
                        roots_now,
                    ) == Ok::<Seq<char>, SafetyError>(records[k].path@);
                assert(some_root_allows(
                    policy.path_style,
                    policy.allowed_roots@,
                    item.category,
                    records[k].path@,
                    roots_now,
                ));
                let i = choose|i: int| 0 <= i < policy.allowed_roots@.len() && root_allows(
                    policy.path_style,
                    #[trigger] policy.allowed_roots@[i],
                    item.category,
                    records[k].path@,
                    roots_now[i],
                );
                assert(i == 0);
            }
        }
        r
    }

    /// The plan of the scanned items (`Planner::build`).
    pub fn build_plan(items: Vec<ScanItem>) -> (plan: CleanupPlan)
        ensures
            is_built_from(plan.items@, items@),
            crate::model::no_selected_symlink(plan.items@),
    {
        Planner::build(items)
    }

    /// The policies of the cleanup: destructive actions enabled under the
    /// disposable root alone (as user cache, pinned to `canonical_root`, what it
    /// resolves to), and every category moved to the Trash.
    pub fn policies(root: String, canonical_root: Option<String>) -> (r: (
        ExecutionPolicy,
        CategoryActionPolicy,
    ))
        ensures
            is_disposable_policy(r.0, root, canonical_root),
            r.1.permanent_categories() == Set::<CleanupCategory>::empty(),
    {
        let allowed = AllowedRoot::pinned_to(CleanupCategory::UserCache, root, canonical_root);
        (
            ExecutionPolicy::enabled_for(PathStyle::Windows, vec![allowed]),
            CategoryActionPolicy::trash_only(),
        )
    }
}

/// Whether two handles refer to the same file (`same_file::Handle`'s `==`).
#[verifier::external_body]
fn same_handle(a: &same_file::Handle, b: &same_file::Handle) -> (r: bool) {
    a == b
}

/// The roots of a scan set, with their categories, in order.
pub open spec fn scan_set_roots(requests: Seq<ScanRequest>) -> Seq<(CleanupCategory, Seq<char>)>
    decreases requests.len(),
{
    if requests.len() == 0 {
        Seq::empty()
    } else {
        let r = requests.last();
        scan_set_roots(requests.drop_last()) + string_views(r.roots@).map_values(
            |p: Seq<char>| (r.category, p),
        )
    }
}

/// The model of an allowed root: category, path and pinned resolution.
pub open spec fn allowed_root_view(r: AllowedRoot) -> (CleanupCategory, Seq<char>, Option<Seq<char>>) {
    (r.category, r.path@, r.pinned())
}

/// The roots of a list of scan requests, with their categories, in order.
pub fn request_roots(requests: &[ScanRequest]) -> (r: Vec<(CleanupCategory, String)>)
    ensures
        r@.map_values(|e: (CleanupCategory, String)| (e.0, e.1@)) == scan_set_roots(requests@),
{
    let mut r: Vec<(CleanupCategory, String)> = Vec::new();
    let mut i: usize = 0;
    while i < requests.len()
        invariant
            i <= requests@.len(),
            r@.map_values(|e: (CleanupCategory, String)| (e.0, e.1@)) == scan_set_roots(
                requests@.take(i as int),
            ),
        decreases requests@.len() - i,
    {
        let request = &requests[i];
        assert(requests@.take(i + 1).drop_last() =~= requests@.take(i as int));
        let ghost base = r@.map_values(|e: (CleanupCategory, String)| (e.0, e.1@));
        let ghost added = string_views(request.roots@).map_values(
            |p: Seq<char>| (request.category, p),
        );
        let mut j: usize = 0;
        while j < request.roots.len()
            invariant
                j <= request.roots@.len(),
                added == string_views(request.roots@).map_values(
                    |p: Seq<char>| (request.category, p),
                ),
                r@.map_values(|e: (CleanupCategory, String)| (e.0, e.1@)) == base + added.take(
                    j as int,
                ),
            decreases request.roots@.len() - j,
        {
            let ghost before = r@.map_values(|e: (CleanupCategory, String)| (e.0, e.1@));
            r.push((request.category, request.roots[j].clone()));
            assert(r@.map_values(|e: (CleanupCategory, String)| (e.0, e.1@)) =~= before.push(
                (request.category, request.roots@[j as int]@),
            ));
            assert(base + added.take(j + 1) =~= before.push(
                (request.category, request.roots@[j as int]@),
            ));
            j = j + 1;
        }
        assert(added.take(request.roots@.len() as int) =~= added);
        i = i + 1;
    }
    assert(requests@.take(requests@.len() as int) =~= requests@);
    r
}

/// Allowed roots for `roots`, with their categories, each pinned to what it
/// resolves to (`canonical`, one per root, in order).
pub fn pin_allowed_roots(roots: Vec<(CleanupCategory, String)>, canonical: Vec<Option<String>>) -> (r:
    Vec<AllowedRoot>)
    requires
        canonical@.len() == roots@.len(),
    ensures
        r@.len() == roots@.len(),
        forall|i: int|
            0 <= i < roots@.len() ==> allowed_root_view(#[trigger] r@[i]) == (
                roots@[i].0,
                roots@[i].1@,
                opt_string_view(canonical@[i]),
            ),
{
    let ghost rv = roots@;
    let ghost cv = canonical@;
    let mut allowed: Vec<AllowedRoot> = Vec::new();
    let mut rest_roots = roots;
    let mut rest_canonical = canonical;
    let mut pending: Vec<AllowedRoot> = Vec::new();
    while rest_roots.len() > 0
        invariant
            rest_roots@.len() == rest_canonical@.len(),
            rv.len() == cv.len(),
            rest_roots@ == rv.take(rest_roots@.len() as int),
            rest_canonical@ == cv.take(rest_canonical@.len() as int),
            rest_roots@.len() <= rv.len(),
            pending@.len() == rv.len() - rest_roots@.len(),
            forall|k: int|
                0 <= k < pending@.len() ==> allowed_root_view(#[trigger] pending@[k]) == (
                    rv[rv.len() - 1 - k].0,
                    rv[rv.len() - 1 - k].1@,
                    opt_string_view(cv[cv.len() - 1 - k]),
                ),
        decreases rest_roots@.len(),
    {
        let ghost m = rest_roots@.len();
        let (category, path) = rest_roots.pop().unwrap();
        let c = rest_canonical.pop().unwrap();
        assert(rest_roots@ =~= rv.take(m - 1));
        assert(rest_canonical@ =~= cv.take(m - 1));
        pending.push(AllowedRoot::pinned_to(category, path, c));
    }
    let n = pending.len();
    while pending.len() > 0
        invariant
            n == rv.len(),
            pending@.len() + allowed@.len() == n,
            forall|k: int|
                0 <= k < pending@.len() ==> allowed_root_view(#[trigger] pending@[k]) == (
                    rv[n - 1 - k].0,
                    rv[n - 1 - k].1@,
                    opt_string_view(cv[n - 1 - k]),
                ),
            forall|k: int|
                0 <= k < allowed@.len() ==> allowed_root_view(#[trigger] allowed@[k]) == (
                    rv[k].0,
                    rv[k].1@,
                    opt_string_view(cv[k]),
                ),
        decreases pending@.len(),
    {
        let ghost m = pending@.len();
        let root = pending.pop().unwrap();
        assert(allowed_root_view(root) == (
            rv[n - 1 - (m - 1)].0,
            rv[n - 1 - (m - 1)].1@,
            opt_string_view(cv[n - 1 - (m - 1)]),
        ));
        allowed.push(root);
    }
    allowed
}

/// Trash-only cleanup of a reviewed Smart Scan, under the roots of its scan set.
pub struct WindowsSmartCleanup {
    execution_policy: ExecutionPolicy,
}

/// A reviewed Smart Scan plan, with the identity of each reviewed file.
pub struct WindowsSmartCleanupPlan {
    plan: CleanupPlan,
    reviewed_identities: Vec<(String, same_file::Handle)>,
}

impl WindowsSmartCleanupPlan {
    pub closed spec fn spec_plan(&self) -> CleanupPlan {
        self.plan
    }

    /// The paths whose identity was taken at review time, in order.
    pub closed spec fn reviewed_paths(&self) -> Seq<Seq<char>> {
        self.reviewed_identities@.map_values(|e: (String, same_file::Handle)| e.0@)
    }

    /// The plan.
    pub fn plan(&self) -> (r: &CleanupPlan)
        ensures
            *r == self.spec_plan(),
    {
        &self.plan
    }
}

/// The paths of the items that are not symlinks, in order.
pub open spec fn identity_paths_of(items: Seq<ScanItem>) -> Seq<Seq<char>>
    decreases items.len(),
{
    if items.len() == 0 {
        Seq::empty()
    } else {
        let rest = identity_paths_of(items.drop_last());
        if !items.last().is_symlink {
            rest.push(items.last().path@)
        } else {
            rest
        }
    }
}

/// The paths whose identity was taken: those with a handle, in order.
pub open spec fn paths_with_handles(paths: Seq<Seq<char>>, opened: Seq<bool>) -> Seq<Seq<char>>
    decreases paths.len(),
{
    if paths.len() == 0 {
        Seq::empty()
    } else {
        let k = paths.len() - 1;
        let rest = paths_with_handles(paths.drop_last(), opened);
        if opened[k] {
            rest.push(paths[k])
        } else {
            rest
        }
    }
}

/// The selected entries of a plan, in order.
pub open spec fn selected_entries(entries: Seq<CleanupPlanItem>) -> Seq<CleanupPlanItem>
    decreases entries.len(),
{
    if entries.len() == 0 {
        Seq::empty()
    } else {
        let rest = selected_entries(entries.drop_last());
        if entries.last().selected {
            rest.push(entries.last())
        } else {
            rest
        }
    }
}

/// The entries that kept their identity, in order.
pub open spec fn kept_entries(entries: Seq<CleanupPlanItem>, matches: Seq<bool>) -> Seq<CleanupPlanItem>
    decreases entries.len(),
{
    if entries.len() == 0 {
        Seq::empty()
    } else {
        let k = entries.len() - 1;
        let rest = kept_entries(entries.drop_last(), matches);
        if matches[k] {
            rest.push(entries[k])
        } else {
            rest
        }
    }
}

/// The refusal recorded for an entry whose identity changed since review.
pub open spec fn changed_record(entry: CleanupPlanItem) -> ExecutionRecord {
    ExecutionRecord {
        path: entry.item.path,
        category: entry.item.category,
        action: CleanupAction::MoveToTrash,
        bytes: entry.item.bytes,
        result: Err(ExecutionFailure::Safety(SafetyError::PathRevalidationFailed)),
    }
}

/// The refusals for the entries that lost their identity, in order.
pub open spec fn changed_records(entries: Seq<CleanupPlanItem>, matches: Seq<bool>) -> Seq<
    ExecutionRecord,
>
    decreases entries.len(),
{
    if entries.len() == 0 {
        Seq::empty()
    } else {
        let k = entries.len() - 1;
        let rest = changed_records(entries.drop_last(), matches);
        if !matches[k] {
            rest.push(changed_record(entries[k]))
        } else {
            rest
        }
    }
}

impl WindowsSmartCleanup {
    /// Runs the trash-only cleanup of a reviewed plan. `current` holds the identity
    /// taken again for each path of `recheck_paths`, where it could be opened. The
    /// entries that lost their identity are refused as changed since review; the
    /// others are checked against what `observe` reports and moved with `backend`
    /// under the pinned provider roots (`CleanupExecutor::execute`); the report
    /// holds the refusals, then the run's records.
    pub fn execute_with_backend<B: CleanupBackend, F: Fn(&str) -> PathObservation>(
        &self,
        reviewed: &WindowsSmartCleanupPlan,
        current: &Vec<Option<same_file::Handle>>,
        cancellation: &CancellationToken,
        backend: &B,
        observe: F,
    ) -> (r: Result<ExecutionReport, SafetyError>)
        requires
            current@.len() == selected_entries(reviewed.spec_plan().items@).len(),
            forall|p: &str| call_requires(observe, (p,)),
        ensures
            !self.spec_policy().destructive_actions_enabled ==> r == Err::<ExecutionReport, SafetyError>(
                SafetyError::DestructiveActionsDisabled,
            ),
            self.spec_policy().destructive_actions_enabled ==> r is Ok && ({
                let selected = selected_entries(reviewed.spec_plan().items@);
                exists|matches: Seq<bool>, executed: Seq<ExecutionRecord>|
                    {
                        &&& matches.len() == selected.len()
                        &&& forall|k: int|
                            0 <= k < matches.len() && #[trigger] matches[k] ==> current@[k] is Some
                        &&& r->Ok_0.records@ == changed_records(selected, matches) + executed
                        &&& trash_records_follow(
                            executed,
                            kept_entries(selected, matches),
                            self.spec_policy(),
                        )
                        &&& trash_run_covers(
                            executed,
                            kept_entries(selected, matches),
                            self.spec_policy(),
                            observe,
                            backend,
                            !r->Ok_0.cancelled,
                        )
                        &&& !r->Ok_0.cancelled ==> executed.len() == count_selected(
                            kept_entries(selected, matches),
                        )
                    }
            }),
    {
        let matches = Self::identity_matches(reviewed, current);
        let (kept, refused) = Self::split_reviewed(reviewed, &matches);
        let actions = CategoryActionPolicy::trash_only();
        let executed = match CleanupExecutor::execute(
            &kept,
            &self.execution_policy,
            &actions,
            cancellation,
            backend,
            observe,
        ) {
            Err(e) => {
                return Err(e);
            },
            Ok(report) => report,
        };
        proof {
            lemma_trash_only_run(executed.records@, kept.items@, actions, self.execution_policy);
            let records = executed.records@;
            let ep = self.execution_policy;
            if executed.cancelled {
                let n = choose|n: int|
                    run_covers_prefix(records, kept.items@, actions, ep, observe, backend, n);
                assert(run_covers_prefix(records, kept.items@, actions, ep, observe, backend, n));
            } else {
                assert(run_covers_prefix(
                    records,
                    kept.items@,
                    actions,
                    ep,
                    observe,
                    backend,
                    kept.items@.len() as int,
                ));
            }
            assert(trash_run_covers(records, kept.items@, ep, observe, backend, !executed.cancelled));
        }
        let merged = Self::merge_reports(refused, executed);
        proof {
            let selected = selected_entries(reviewed.spec_plan().items@);
            assert({
                &&& matches@.len() == selected.len()
                &&& forall|k: int|
                    0 <= k < matches@.len() && #[trigger] matches@[k] ==> current@[k] is Some
                &&& merged.records@ == changed_records(selected, matches@) + executed.records@
                &&& trash_records_follow(
                    executed.records@,
                    kept_entries(selected, matches@),
                    self.spec_policy(),
                )
                &&& trash_run_covers(
                    executed.records@,
                    kept_entries(selected, matches@),
                    self.spec_policy(),
                    observe,
                    backend,
                    !merged.cancelled,
                )
                &&& !merged.cancelled ==> executed.records@.len() == count_selected(
                    kept_entries(selected, matches@),
                )
            });
        }
        Ok(merged)
    }

    /// The cleanup's execution policy.
    pub closed spec fn spec_policy(&self) -> ExecutionPolicy {
        self.execution_policy
    }

    /// The roots of `scan_set` to pin, with their categories, in order.
    pub fn root_paths(scan_set: &WindowsScanSet) -> (r: Vec<(CleanupCategory, String)>)
        ensures
            r@.map_values(|e: (CleanupCategory, String)| (e.0, e.1@)) == scan_set_roots(
                scan_set.spec_requests(),
            ),
    {
        request_roots(scan_set.requests())
    }

    /// The cleanup for a scan set: destructive actions enabled under each root of
    /// `root_paths`, with its category, pinned to what it resolves to
    /// (`canonical`, one per root, in order).
    pub fn from_scan_set(roots: Vec<(CleanupCategory, String)>, canonical: Vec<Option<String>>) -> (s:
        Self)
        requires
            canonical@.len() == roots@.len(),
        ensures
            s.spec_policy().destructive_actions_enabled,
            s.spec_policy().path_style == PathStyle::Windows,
            s.spec_policy().allowed_roots@.len() == roots@.len(),
            forall|i: int|
                0 <= i < roots@.len() ==> allowed_root_view(
                    #[trigger] s.spec_policy().allowed_roots@[i],
                ) == (roots@[i].0, roots@[i].1@, opt_string_view(canonical@[i])),
    {
        WindowsSmartCleanup {
            execution_policy: ExecutionPolicy::enabled_for(
                PathStyle::Windows,
                pin_allowed_roots(roots, canonical),
            ),
        }
    }

    /// The execution policy, for running the cleanup.
    pub fn execution_policy(&self) -> (r: &ExecutionPolicy)
        ensures
            *r == self.spec_policy(),
    {
        &self.execution_policy
    }

    /// The paths whose file identity to take at review time: the items that are
    /// not symlinks, in order.
    pub fn identity_paths(items: &Vec<ScanItem>) -> (r: Vec<String>)
        ensures
            string_views(r@) == identity_paths_of(items@),
    {
        let mut r: Vec<String> = Vec::new();
        let mut i: usize = 0;
        while i < items.len()
            invariant
                i <= items@.len(),
                string_views(r@) == identity_paths_of(items@.take(i as int)),
            decreases items@.len() - i,
        {
            assert(items@.take(i + 1).drop_last() =~= items@.take(i as int));
            if !items[i].is_symlink {
                let ghost before = string_views(r@);
                r.push(items[i].path.clone());
                assert(string_views(r@) =~= before.push(items@[i as int].path@));
            }
            i = i + 1;
        }
        assert(items@.take(items@.len() as int) =~= items@);
        r
    }

    /// The reviewed plan: the plan of the items (`Planner::build`), and the
    /// identity of each path of `identity_paths` that could be opened
    /// (`handles`, one per path, in order).
    pub fn build_plan(items: Vec<ScanItem>, handles: Vec<Option<same_file::Handle>>) -> (r:
        WindowsSmartCleanupPlan)
        requires
            handles@.len() == identity_paths_of(items@).len(),
        ensures
            is_built_from(r.spec_plan().items@, items@),
            crate::model::no_selected_symlink(r.spec_plan().items@),
            r.reviewed_paths() == paths_with_handles(
                identity_paths_of(items@),
                handles@.map_values(|h: Option<same_file::Handle>| h is Some),
            ),
    {
        let paths = Self::identity_paths(&items);
        let ghost pv = string_views(paths@);
        let ghost opened = handles@.map_values(|h: Option<same_file::Handle>| h is Some);
        let mut reviewed: Vec<(String, same_file::Handle)> = Vec::new();
        let mut k: usize = 0;
        let n = paths.len();
        assert(pv.take(0) =~= Seq::<Seq<char>>::empty());
        for h in it: handles
            invariant
                it.seq().len() == n,
                opened == it.seq().map_values(|h: Option<same_file::Handle>| h is Some),
                k == it.index(),
                k <= n,
                n == paths@.len(),
                pv == string_views(paths@),
                reviewed@.map_values(|e: (String, same_file::Handle)| e.0@) == paths_with_handles(
                    pv.take(k as int),
                    opened,
                ),
        {
            assert(pv.take(k + 1).drop_last() =~= pv.take(k as int));
            assert(opened[k as int] == (h is Some));
            match h {
                Some(handle) => {
                    let ghost before = reviewed@.map_values(|e: (String, same_file::Handle)| e.0@);
                    reviewed.push((paths[k].clone(), handle));
                    assert(reviewed@.map_values(|e: (String, same_file::Handle)| e.0@) =~= before.push(
                        paths@[k as int]@,
                    ));
                },
                None => {},
            }
            k = k + 1;
        }
        assert(pv.take(n as int) =~= pv);
        WindowsSmartCleanupPlan { plan: Planner::build(items), reviewed_identities: reviewed }
    }

    /// The paths whose identity to take again right before cleanup: the
    /// selected entries of the plan, in order.
    pub fn recheck_paths(reviewed: &WindowsSmartCleanupPlan) -> (r: Vec<String>)
        ensures
            string_views(r@) == selected_entries(reviewed.spec_plan().items@).map_values(
                |e: CleanupPlanItem| e.item.path@,
            ),
    {
        let entries = &reviewed.plan.items;
        let mut r: Vec<String> = Vec::new();
        let mut i: usize = 0;
        while i < entries.len()
            invariant
                i <= entries@.len(),
                *entries == reviewed.plan.items,
                string_views(r@) == selected_entries(entries@.take(i as int)).map_values(
                    |e: CleanupPlanItem| e.item.path@,
                ),
            decreases entries@.len() - i,
        {
            assert(entries@.take(i + 1).drop_last() =~= entries@.take(i as int));
            if entries[i].selected {
                let ghost before = string_views(r@);
                r.push(entries[i].item.path.clone());
                assert(string_views(r@) =~= before.push(entries@[i as int].item.path@));
                assert(selected_entries(entries@.take(i + 1)).map_values(
                    |e: CleanupPlanItem| e.item.path@,
                ) =~= before.push(entries@[i as int].item.path@));
            }
            i = i + 1;
        }
        assert(entries@.take(entries@.len() as int) =~= entries@);
        r
    }

    /// Whether each selected entry still has the identity it was reviewed with:
    /// `current` holds the identity taken again for each path of `recheck_paths`,
    /// where it could be opened. An entry without a reviewed identity, or that
    /// could not be opened again, has lost it; otherwise the handles decide.
    pub fn identity_matches(
        reviewed: &WindowsSmartCleanupPlan,
        current: &Vec<Option<same_file::Handle>>,
    ) -> (r: Vec<bool>)
        requires
            current@.len() == selected_entries(reviewed.spec_plan().items@).len(),
        ensures
            r@.len() == current@.len(),
            forall|k: int|
                0 <= k < r@.len() && (#[trigger] r@[k]) ==> current@[k] is Some && exists|j: int|
                    0 <= j < reviewed.reviewed_paths().len() && same_path(
                        reviewed.reviewed_paths()[j],
                        selected_entries(reviewed.spec_plan().items@)[k].item.path@,
                    ),
    {
        let paths = Self::recheck_paths(reviewed);
        let ghost sel = selected_entries(reviewed.spec_plan().items@);
        assert(string_views(paths@).len() == paths@.len());
        let ghost rp = reviewed.reviewed_paths();
        let mut r: Vec<bool> = Vec::new();
        let mut k: usize = 0;
        while k < current.len()
            invariant
                k <= current@.len(),
                paths@.len() == current@.len(),
                sel.len() == current@.len(),
                string_views(paths@) == sel.map_values(|e: CleanupPlanItem| e.item.path@),
                rp == reviewed.reviewed_identities@.map_values(
                    |e: (String, same_file::Handle)| e.0@,
                ),
                r@.len() == k,
                forall|j: int|
                    0 <= j < k && (#[trigger] r@[j]) ==> current@[j] is Some && exists|i: int|
                        0 <= i < rp.len() && same_path(rp[i], sel[j].item.path@),
            decreases current@.len() - k,
        {
            let mut found = false;
            match &current[k] {
                Some(now) => {
                    let mut i: usize = reviewed.reviewed_identities.len();
                    let mut pinned: Option<usize> = None;
                    while i > 0
                        invariant
                            i <= reviewed.reviewed_identities@.len(),
                            k < current@.len(),
                            paths@.len() == current@.len(),
                            rp == reviewed.reviewed_identities@.map_values(
                                |e: (String, same_file::Handle)| e.0@,
                            ),
                            match pinned {
                                Some(j) => j < rp.len() && same_path(rp[j as int], paths@[k as int]@),
                                None => true,
                            },
                        decreases i,
                    {
                        if pinned.is_none() && paths_equal(
                            reviewed.reviewed_identities[i - 1].0.as_str(),
                            paths[k].as_str(),
                        ) {
                            pinned = Some(i - 1);
                        }
                        i = i - 1;
                    }
                    match pinned {
                        Some(j) => {
                            found = same_handle(now, &reviewed.reviewed_identities[j].1);
                            assert(string_views(paths@)[k as int] == paths@[k as int]@);
                            assert(paths@[k as int]@ == sel[k as int].item.path@);
                            assert(same_path(rp[j as int], sel[k as int].item.path@));
                        },
                        None => {},
                    }
                },
                None => {},
            }
            r.push(found);
            k = k + 1;
        }
        r
    }
}

/// The plan of the entries that kept their identity, and the refusals of those
/// that lost it.
impl WindowsSmartCleanup {
    /// Splits the selected entries of the reviewed plan by `matches` (one per
    /// selected entry, in order, from `identity_matches`): those that kept their
    /// identity form the plan to run, each selected; each of the others is
    /// refused as changed since review, to the Trash.
    pub fn split_reviewed(reviewed: &WindowsSmartCleanupPlan, matches: &Vec<bool>) -> (r: (
        CleanupPlan,
        ExecutionReport,
    ))
        requires
            matches@.len() == selected_entries(reviewed.spec_plan().items@).len(),
        ensures
            r.0.items@ == kept_entries(selected_entries(reviewed.spec_plan().items@), matches@),
            r.1.records@ == changed_records(selected_entries(reviewed.spec_plan().items@), matches@),
            !r.1.cancelled,
    {
        let entries = &reviewed.plan.items;
        let ghost sel_all = selected_entries(entries@);
        let mut kept: Vec<CleanupPlanItem> = Vec::new();
        let mut refused: Vec<ExecutionRecord> = Vec::new();
        let mut k: usize = 0;
        let mut i: usize = 0;
        let mlen = matches.len();
        assert(sel_all.take(0) =~= Seq::<CleanupPlanItem>::empty());
        while i < entries.len()
            invariant
                i <= entries@.len(),
                mlen == matches@.len(),
                *entries == reviewed.plan.items,
                sel_all == selected_entries(entries@),
                matches@.len() == sel_all.len(),
                selected_entries(entries@.take(i as int)) == sel_all.take(k as int),
                k <= sel_all.len(),
                kept@ == kept_entries(sel_all.take(k as int), matches@),
                refused@ == changed_records(sel_all.take(k as int), matches@),
            decreases entries@.len() - i,
        {
            assert(entries@.take(i + 1).drop_last() =~= entries@.take(i as int));
            proof {
                lemma_selected_prefix(entries@, i as int);
                lemma_selected_take_is_prefix(entries@, i + 1);
            }
            if entries[i].selected {
                let ghost p = selected_entries(entries@.take(i + 1));
                assert(p == sel_all.take(k as int).push(entries@[i as int]));
                assert(p.is_prefix_of(sel_all));
                assert(p.len() == k + 1);
                assert(p[k as int] == entries@[i as int]);
                assert(sel_all[k as int] == p[k as int]);
                assert(sel_all.take(k + 1).drop_last() =~= sel_all.take(k as int));
                let entry = CleanupPlanItem { item: entries[i].item.duplicate(), selected: true };
                if matches[k] {
                    kept.push(entry);
                } else {
                    refused.push(
                        ExecutionRecord {
                            path: entries[i].item.path.clone(),
                            category: entries[i].item.category,
                            action: CleanupAction::MoveToTrash,
                            bytes: entries[i].item.bytes,
                            result: Err(ExecutionFailure::Safety(SafetyError::PathRevalidationFailed)),
                        },
                    );
                }
                assert(selected_entries(entries@.take(i + 1)) =~= sel_all.take(k + 1));
                k = k + 1;
            }
            i = i + 1;
        }
        assert(entries@.take(entries@.len() as int) =~= entries@);
        assert(sel_all.take(k as int) =~= sel_all);
        (CleanupPlan { items: kept }, ExecutionReport { records: refused, cancelled: false })
    }

    /// The report of the whole cleanup: the refusals of the entries that lost
    /// their identity, then the records of the run, cancelled as the run was.
    pub fn merge_reports(refused: ExecutionReport, executed: ExecutionReport) -> (r: ExecutionReport)
        ensures
            r.records@ == refused.records@ + executed.records@,
            r.cancelled == executed.cancelled,
    {
        let mut records = refused.records;
        let mut more = executed.records;
        records.append(&mut more);
        ExecutionReport { records, cancelled: executed.cancelled }
    }
}

proof fn lemma_selected_take_is_prefix(entries: Seq<CleanupPlanItem>, n: int)
    requires
        0 <= n <= entries.len(),
    ensures
        selected_entries(entries.take(n)).is_prefix_of(selected_entries(entries)),
    decreases entries.len(),
{
    if n < entries.len() {
        lemma_selected_take_is_prefix(entries.drop_last(), n);
        assert(entries.drop_last().take(n) =~= entries.take(n));
    } else {
        assert(entries.take(n) =~= entries);
    }
}

proof fn lemma_selected_prefix(entries: Seq<CleanupPlanItem>, i: int)
    requires
        0 <= i < entries.len(),
    ensures
        selected_entries(entries.take(i + 1)) == if entries[i].selected {
            selected_entries(entries.take(i)).push(entries[i])
        } else {
            selected_entries(entries.take(i))
        },
{
    assert(entries.take(i + 1).drop_last() =~= entries.take(i));
}

} // verus!
