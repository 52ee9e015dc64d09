//! The state of the desktop interface and how each user action and each worker
//! message changes it. Drawing the state and running the workers are the
//! caller's part.
use vstd::prelude::*;

use crate::app_inventory::{ApplicationInventoryReport, InstalledApplication};
use crate::cancellation::CancellationToken;
use crate::executor::{ExecutionReport, count_outcome, count_raced_away, ExecutionOutcome};
use crate::model::{CleanupCategory, CleanupPlan, ScanItem, count_selected, no_selected_symlink};
use crate::path::{paths_equal, same_path};
use crate::planner::{ExecutionPolicy, Planner, is_built_from, opt_string_view};
use crate::scanner::{ScanEvent, ScanRequest};
use crate::target::{CategoryScanTarget, HomebrewScan, NodeScan, UserCacheScan, XcodeScan};
use crate::text::{concat_str, str_eq};
use crate::uninstall_execution::{UninstallExecutionReport, count_uninstall_results};
use crate::uninstall_plan::{UninstallPlan, count_selected_items, first_item_index};
use crate::windows_cleanup::{pin_allowed_roots, request_roots, scan_set_roots, allowed_root_view};

verus! {

/// The page shown.
#[derive(Debug, Clone, Copy, PartialEq, Eq, Structural)]
pub enum ViewMode {
    SmartCare,
    Uninstaller,
}

/// Where the Smart Scan stands.
#[derive(Debug, Clone, Copy, PartialEq, Eq, Structural)]
pub enum ScanState {
    Idle,
    Scanning,
    Cancelling,
    Completed,
    Cancelled,
    Failed,
}

impl ScanState {
    pub open spec fn spec_label(self) -> Seq<char> {
        match self {
            ScanState::Idle => "Ready"@,
            ScanState::Scanning => "Scanning…"@,
            ScanState::Cancelling => "Cancelling…"@,
            ScanState::Completed => "Review ready"@,
            ScanState::Cancelled => "Cancelled"@,
            ScanState::Failed => "Failed"@,
        }
    }

    pub fn label(self) -> (r: &'static str)
        ensures
            r@ == self.spec_label(),
    {
        match self {
            ScanState::Idle => "Ready",
            ScanState::Scanning => "Scanning…",
            ScanState::Cancelling => "Cancelling…",
            ScanState::Completed => "Review ready",
            ScanState::Cancelled => "Cancelled",
            ScanState::Failed => "Failed",
        }
    }
}

/// Where the cleanup stands.
#[derive(Debug, Clone, Copy, PartialEq, Eq, Structural)]
pub enum ExecutionState {
    Idle,
    Executing,
    Cancelling,
    Completed,
    Cancelled,
    Failed,
}

impl ExecutionState {
    pub open spec fn spec_label(self) -> Seq<char> {
        match self {
            ExecutionState::Idle => "Not started"@,
            ExecutionState::Executing => "Moving selected items to Trash…"@,
            ExecutionState::Cancelling => "Cancelling cleanup…"@,
            ExecutionState::Completed => "Cleanup complete"@,
            ExecutionState::Cancelled => "Cleanup cancelled"@,
            ExecutionState::Failed => "Cleanup failed"@,
        }
    }

    pub fn label(self) -> (r: &'static str)
        ensures
            r@ == self.spec_label(),
    {
        match self {
            ExecutionState::Idle => "Not started",
            ExecutionState::Executing => "Moving selected items to Trash…",
            ExecutionState::Cancelling => "Cancelling cleanup…",
            ExecutionState::Completed => "Cleanup complete",
            ExecutionState::Cancelled => "Cleanup cancelled",
            ExecutionState::Failed => "Cleanup failed",
        }
    }
}

/// Where the uninstaller stands.
#[derive(Debug, Clone, Copy, PartialEq, Eq, Structural)]
pub enum UninstallState {
    Idle,
    Loading,
    Review,
    Executing,
    Cancelling,
    Completed,
    Failed,
}

impl UninstallState {
    pub open spec fn spec_label(self) -> Seq<char> {
        match self {
            UninstallState::Idle => "Ready"@,
            UninstallState::Loading => "Loading…"@,
            UninstallState::Review => "Review before uninstall"@,
            UninstallState::Executing => "Moving reviewed items to Trash…"@,
            UninstallState::Cancelling => "Cancelling uninstall…"@,
            UninstallState::Completed => "Uninstall attempt complete"@,
            UninstallState::Failed => "Uninstall blocked or incomplete"@,
        }
    }

    pub fn label(self) -> (r: &'static str)
        ensures
            r@ == self.spec_label(),
    {
        match self {
            UninstallState::Idle => "Ready",
            UninstallState::Loading => "Loading…",
            UninstallState::Review => "Review before uninstall",
            UninstallState::Executing => "Moving reviewed items to Trash…",
            UninstallState::Cancelling => "Cancelling uninstall…",
            UninstallState::Completed => "Uninstall attempt complete",
            UninstallState::Failed => "Uninstall blocked or incomplete",
        }
    }
}

/// What a category's scan found so far: items and bytes.
#[derive(Debug, Default, Clone, Copy, PartialEq, Eq, Structural)]
pub struct Metric {
    pub items: usize,
    pub bytes: u64,
}

/// A metric with one more item of `bytes` bytes, the byte count saturating.
pub open spec fn bumped(m: Metric, bytes: u64) -> Metric {
    Metric {
        items: (m.items + 1) as usize,
        bytes: if m.bytes + bytes > u64::MAX {
            u64::MAX
        } else {
            (m.bytes + bytes) as u64
        },
    }
}

/// What the scan worker reports.
#[derive(Debug, Clone, PartialEq, Eq)]
pub enum UiMessage {
    Event(ScanEvent),
    /// The scan finished, with what each allowed root resolves to now (one per
    /// root of the scan requests, in order).
    Completed(Vec<Option<String>>),
    Cancelled,
    Failed(String),
}

/// What the cleanup worker reports.
#[derive(Debug, Clone, PartialEq, Eq)]
pub enum ExecutionMessage {
    Completed(ExecutionReport),
    Failed(String),
    /// The worker went away without reporting.
    Disconnected,
}

/// What the inventory worker reports.
#[derive(Debug, Clone, PartialEq, Eq)]
pub enum InventoryMessage {
    Loaded(Vec<InstalledApplication>),
    Failed(String),
    Disconnected,
}

/// What the planning worker reports.
#[derive(Debug, Clone, PartialEq, Eq)]
pub enum PlanMessage {
    Ready(UninstallPlan),
    Failed(String),
    Disconnected,
}

/// What the uninstall worker reports.
#[derive(Debug, Clone, PartialEq, Eq)]
pub enum UninstallMessage {
    Completed(UninstallExecutionReport),
    Failed(String),
    Disconnected,
}

/// The execution policy of a Smart Scan: destructive actions enabled under each
/// root of its requests, with its category, pinned to what it resolves to
/// (`canonical`, one per root of `request_roots(requests)`, in order).
pub fn policy_from_requests(requests: &[ScanRequest], canonical: Vec<Option<String>>) -> (policy:
    ExecutionPolicy)
    requires
        canonical@.len() == scan_set_roots(requests@).len(),
    ensures
        policy.destructive_actions_enabled,
        policy.allowed_roots@.len() == scan_set_roots(requests@).len(),
        forall|i: int|
            0 <= i < policy.allowed_roots@.len() ==> allowed_root_view(
                #[trigger] policy.allowed_roots@[i],
            ) == (scan_set_roots(requests@)[i].0, scan_set_roots(requests@)[i].1, opt_string_view(
                canonical@[i],
            )),
{
    let roots = request_roots(requests);
    let ghost rv = roots@.map_values(|e: (CleanupCategory, String)| (e.0, e.1@));
    assert(rv.len() == roots@.len());
    let allowed = pin_allowed_roots(roots, canonical);
    assert forall|i: int| 0 <= i < allowed@.len() implies allowed_root_view(#[trigger] allowed@[i]) == (
        scan_set_roots(requests@)[i].0,
        scan_set_roots(requests@)[i].1,
        opt_string_view(canonical@[i]),
    ) by {
        assert(rv[i] == scan_set_roots(requests@)[i]);
    }
    ExecutionPolicy::enabled(allowed)
}

/// Whether `after` is `before` with the selection of the first item at `path`
/// flipped, where `toggled` says whether the plan let it be: it must be there,
/// selectable and not required. Every other item, and the application and its
/// protection, stay as they were.
pub open spec fn plan_toggled(before: UninstallPlan, after: UninstallPlan, path: Seq<char>, toggled: bool) -> bool {
    let items = before.spec_items();
    let k = first_item_index(items, path);
    &&& after.spec_application() == before.spec_application()
    &&& after.spec_protection() == before.spec_protection()
    &&& after.spec_items().len() == items.len()
    &&& toggled == (k < items.len() && items[k].spec_selectable() && !items[k].spec_required())
    &&& forall|i: int|
        0 <= i < items.len() && (i != k || !toggled) ==> after.spec_items()[i] == items[i]
    &&& toggled ==> {
        let a = after.spec_items()[k];
        &&& a.spec_selected() == !items[k].spec_selected()
        &&& a.spec_path() == items[k].spec_path()
        &&& a.spec_kind() == items[k].spec_kind()
        &&& a.spec_confidence() == items[k].spec_confidence()
        &&& a.spec_selectable() == items[k].spec_selectable()
        &&& a.spec_required() == items[k].spec_required()
        &&& a.spec_review_only() == items[k].spec_review_only()
    }
}

/// The state of the desktop interface.
pub struct CleanerState {
    pub view: ViewMode,
    pub state: ScanState,
    pub execution_state: ExecutionState,
    pub user_cache: Metric,
    pub system_cache: Metric,
    pub xcode: Metric,
    pub homebrew: Metric,
    pub node: Metric,
    pub permission_denied: usize,
    pub error: Option<String>,
    pub execution_error: Option<String>,
    pub cancellation: Option<CancellationToken>,
    pub execution_cancellation: Option<CancellationToken>,
    pub scanned_items: Vec<ScanItem>,
    pub scan_requests: Vec<ScanRequest>,
    pub cleanup_plan: Option<CleanupPlan>,
    pub execution_policy: Option<ExecutionPolicy>,
    pub execution_report: Option<ExecutionReport>,
    pub uninstall_state: UninstallState,
    pub uninstall_error: Option<String>,
    pub applications: Vec<InstalledApplication>,
    pub uninstall_plan: Option<UninstallPlan>,
    pub uninstall_report: Option<UninstallExecutionReport>,
    pub uninstall_cancellation: Option<CancellationToken>,
}

/// The metric kept for a category, if one is kept.
pub open spec fn metric_of(s: CleanerState, category: CleanupCategory) -> Option<Metric> {
    match category {
        CleanupCategory::UserCache => Some(s.user_cache),
        CleanupCategory::SystemCache => Some(s.system_cache),
        CleanupCategory::Xcode => Some(s.xcode),
        CleanupCategory::Homebrew => Some(s.homebrew),
        CleanupCategory::Node => Some(s.node),
        _ => None,
    }
}

/// Whether the scan side of two states is the same.
pub open spec fn same_scan(a: CleanerState, b: CleanerState) -> bool {
    &&& a.state == b.state
    &&& a.user_cache == b.user_cache
    &&& a.system_cache == b.system_cache
    &&& a.xcode == b.xcode
    &&& a.homebrew == b.homebrew
    &&& a.node == b.node
    &&& a.permission_denied == b.permission_denied
    &&& a.error == b.error
    &&& a.cancellation == b.cancellation
    &&& a.scanned_items == b.scanned_items
    &&& a.scan_requests == b.scan_requests
}

/// Whether the cleanup side of two states is the same.
pub open spec fn same_cleanup(a: CleanerState, b: CleanerState) -> bool {
    &&& a.execution_state == b.execution_state
    &&& a.execution_error == b.execution_error
    &&& a.execution_cancellation == b.execution_cancellation
    &&& a.cleanup_plan == b.cleanup_plan
    &&& a.execution_policy == b.execution_policy
    &&& a.execution_report == b.execution_report
}

/// Whether the uninstall side of two states is the same.
pub open spec fn same_uninstall(a: CleanerState, b: CleanerState) -> bool {
    &&& a.uninstall_state == b.uninstall_state
    &&& a.uninstall_error == b.uninstall_error
    &&& a.applications == b.applications
    &&& a.uninstall_plan == b.uninstall_plan
    &&& a.uninstall_report == b.uninstall_report
    &&& a.uninstall_cancellation == b.uninstall_cancellation
}

/// Whether the reviewed uninstall may start: reviewing an unprotected plan with
/// something selected.
pub open spec fn can_uninstall(s: CleanerState) -> bool {
    &&& s.uninstall_state == UninstallState::Review
    &&& s.uninstall_plan matches Some(plan)
    &&& !plan.spec_protection().spec_is_protected()
    &&& count_selected_items(plan.spec_items()) > 0
}

/// Whether the metrics and findings of a state are cleared.
pub open spec fn metrics_cleared(s: CleanerState) -> bool {
    &&& s.user_cache == Metric { items: 0, bytes: 0 }
    &&& s.system_cache == Metric { items: 0, bytes: 0 }
    &&& s.xcode == Metric { items: 0, bytes: 0 }
    &&& s.homebrew == Metric { items: 0, bytes: 0 }
    &&& s.node == Metric { items: 0, bytes: 0 }
    &&& s.permission_denied == 0
    &&& s.error is None
    &&& s.execution_error is None
    &&& s.scanned_items@.len() == 0
    &&& s.scan_requests@.len() == 0
    &&& s.cleanup_plan is None
    &&& s.execution_policy is None
    &&& s.execution_report is None
    &&& s.execution_state == ExecutionState::Idle
    &&& s.execution_cancellation is None
}

fn zero_metric() -> (m: Metric)
    ensures
        m == (Metric { items: 0, bytes: 0 }),
{
    Metric { items: 0, bytes: 0 }
}

fn bump_metric(m: &mut Metric, bytes: u64)
    requires
        old(m).items < usize::MAX,
    ensures
        *final(m) == bumped(*old(m), bytes),
{
    m.items = m.items + 1;
    m.bytes = m.bytes.saturating_add(bytes);
}

impl CleanerState {
    /// The starting state: Smart Care shown, nothing scanned, nothing loaded.
    pub fn new() -> (s: Self)
        ensures
            s.view == ViewMode::SmartCare,
            s.state == ScanState::Idle,
            s.uninstall_state == UninstallState::Idle,
            metrics_cleared(s),
            s.cancellation is None,
            s.uninstall_error is None,
            s.applications@.len() == 0,
            s.uninstall_plan is None,
            s.uninstall_report is None,
            s.uninstall_cancellation is None,
    {
        CleanerState {
            view: ViewMode::SmartCare,
            state: ScanState::Idle,
            execution_state: ExecutionState::Idle,
            user_cache: zero_metric(),
            system_cache: zero_metric(),
            xcode: zero_metric(),
            homebrew: zero_metric(),
            node: zero_metric(),
            permission_denied: 0,
            error: None,
            execution_error: None,
            cancellation: None,
            execution_cancellation: None,
            scanned_items: Vec::new(),
            scan_requests: Vec::new(),
            cleanup_plan: None,
            execution_policy: None,
            execution_report: None,
            uninstall_state: UninstallState::Idle,
            uninstall_error: None,
            applications: Vec::new(),
            uninstall_plan: None,
            uninstall_report: None,
            uninstall_cancellation: None,
        }
    }

    /// Clears the metrics, the findings and the cleanup; the scan state, its
    /// token, the view and the uninstaller are kept.
    pub fn reset_metrics(&mut self)
        ensures
            metrics_cleared(*final(self)),
            final(self).view == old(self).view,
            final(self).state == old(self).state,
            final(self).cancellation == old(self).cancellation,
            same_uninstall(*final(self), *old(self)),
    {
        self.user_cache = zero_metric();
        self.system_cache = zero_metric();
        self.xcode = zero_metric();
        self.homebrew = zero_metric();
        self.node = zero_metric();
        self.permission_denied = 0;
        self.error = None;
        self.execution_error = None;
        self.scanned_items = Vec::new();
        self.scan_requests = Vec::new();
        self.cleanup_plan = None;
        self.execution_policy = None;
        self.execution_report = None;
        self.execution_state = ExecutionState::Idle;
        self.execution_cancellation = None;
    }

    /// Counts one found item in its category's metric, if the category has one.
    pub fn add_to_metric(&mut self, category: CleanupCategory, bytes: u64)
        requires
            metric_of(*old(self), category) matches Some(m) ==> m.items < usize::MAX,
        ensures
            forall|c: CleanupCategory|
                #![trigger metric_of(*final(self), c)]
                metric_of(*final(self), c) == if c == category {
                    match metric_of(*old(self), c) {
                        Some(m) => Some(bumped(m, bytes)),
                        None => None,
                    }
                } else {
                    metric_of(*old(self), c)
                },
            final(self).view == old(self).view,
            final(self).state == old(self).state,
            final(self).permission_denied == old(self).permission_denied,
            final(self).error == old(self).error,
            final(self).cancellation == old(self).cancellation,
            final(self).scanned_items == old(self).scanned_items,
            final(self).scan_requests == old(self).scan_requests,
            same_cleanup(*final(self), *old(self)),
            same_uninstall(*final(self), *old(self)),
    {
        match category {
            CleanupCategory::UserCache => bump_metric(&mut self.user_cache, bytes),
            CleanupCategory::SystemCache => bump_metric(&mut self.system_cache, bytes),
            CleanupCategory::Xcode => bump_metric(&mut self.xcode, bytes),
            CleanupCategory::Homebrew => bump_metric(&mut self.homebrew, bytes),
            CleanupCategory::Node => bump_metric(&mut self.node, bytes),
            _ => {},
        }
    }

    /// Applies what the scan worker reported: a found item is counted and kept; a
    /// denied path counted; a finished scan becomes the review plan and its
    /// execution policy; a cancelled or failed scan drops its findings.
    pub fn apply_message(&mut self, message: UiMessage)
        requires
            message matches UiMessage::Event(ScanEvent::ItemFound { item }) ==> (metric_of(
                *old(self),
                item.category,
            ) matches Some(m) ==> m.items < usize::MAX),
            message matches UiMessage::Event(ScanEvent::PermissionDenied { .. })
                ==> old(self).permission_denied < usize::MAX,
            message matches UiMessage::Completed(canonical) ==> canonical@.len() == scan_set_roots(
                old(self).scan_requests@,
            ).len(),
        ensures
            final(self).view == old(self).view,
            same_uninstall(*final(self), *old(self)),
            match message {
                UiMessage::Event(ScanEvent::ItemFound { item }) => {
                    &&& final(self).scanned_items@ == old(self).scanned_items@.push(item)
                    &&& final(self).permission_denied == old(self).permission_denied
                    &&& final(self).state == old(self).state
                    &&& forall|c: CleanupCategory|
                        #![trigger metric_of(*final(self), c)]
                        metric_of(*final(self), c) == if c == item.category {
                            match metric_of(*old(self), c) {
                                Some(m) => Some(bumped(m, item.bytes)),
                                None => None,
                            }
                        } else {
                            metric_of(*old(self), c)
                        }
                    &&& same_cleanup(*final(self), *old(self))
                },
                UiMessage::Event(ScanEvent::PermissionDenied { .. }) => {
                    &&& final(self).permission_denied == old(self).permission_denied + 1
                    &&& final(self).scanned_items == old(self).scanned_items
                    &&& final(self).state == old(self).state
                    &&& same_cleanup(*final(self), *old(self))
                },
                UiMessage::Event(_) => same_scan(*final(self), *old(self)) && same_cleanup(
                    *final(self),
                    *old(self),
                ),
                UiMessage::Completed(canonical) => {
                    &&& final(self).state == ScanState::Completed
                    &&& final(self).cancellation is None
                    &&& final(self).scanned_items@.len() == 0
                    &&& final(self).cleanup_plan matches Some(plan) && is_built_from(
                        plan.items@,
                        old(self).scanned_items@,
                    )
                    &&& final(self).execution_policy matches Some(policy) && policy.destructive_actions_enabled
                        && policy.allowed_roots@.len() == canonical@.len()
                },
                UiMessage::Cancelled => {
                    &&& final(self).state == ScanState::Cancelled
                    &&& final(self).cancellation is None
                    &&& final(self).scanned_items@.len() == 0
                    &&& final(self).execution_policy is None
                },
                UiMessage::Failed(e) => {
                    &&& final(self).state == ScanState::Failed
                    &&& final(self).error == Some(e)
                    &&& final(self).cancellation is None
                    &&& final(self).scanned_items@.len() == 0
                    &&& final(self).execution_policy is None
                },
            },
    {
        match message {
            UiMessage::Event(ScanEvent::ItemFound { item }) => {
                self.add_to_metric(item.category, item.bytes);
                let ghost mid = *self;
                self.scanned_items.push(item);
                assert forall|c: CleanupCategory| #[trigger] metric_of(*self, c) == metric_of(mid, c) by {}
            },
            UiMessage::Event(ScanEvent::PermissionDenied { .. }) => {
                self.permission_denied = self.permission_denied + 1;
            },
            UiMessage::Event(_) => {},
            UiMessage::Completed(canonical) => {
                self.state = ScanState::Completed;
                self.cancellation = None;
                let mut items: Vec<ScanItem> = Vec::new();
                std::mem::swap(&mut items, &mut self.scanned_items);
                self.cleanup_plan = Some(Planner::build(items));
                self.execution_policy = Some(
                    policy_from_requests(self.scan_requests.as_slice(), canonical),
                );
            },
            UiMessage::Cancelled => {
                self.state = ScanState::Cancelled;
                self.cancellation = None;
                self.scanned_items = Vec::new();
                self.execution_policy = None;
            },
            UiMessage::Failed(error) => {
                self.state = ScanState::Failed;
                self.error = Some(error);
                self.cancellation = None;
                self.scanned_items = Vec::new();
                self.execution_policy = None;
            },
        }
    }

    /// Starts a Smart Scan: refused while a scan or a cleanup runs; fails when the
    /// home directory is unknown; otherwise clears the previous results and hands
    /// back the requests to scan (user caches, Xcode, Homebrew, Node), which it
    /// keeps for the execution policy.
    pub fn begin_scan(&mut self, home: Option<String>, token: CancellationToken) -> (r: Option<
        Vec<ScanRequest>,
    >)
        ensures
            final(self).view == old(self).view,
            same_uninstall(*final(self), *old(self)),
            ({
                let busy = old(self).state == ScanState::Scanning || old(self).state
                    == ScanState::Cancelling || old(self).execution_state
                    == ExecutionState::Executing || old(self).execution_state
                    == ExecutionState::Cancelling;
                if busy {
                    r is None && same_scan(*final(self), *old(self)) && same_cleanup(
                        *final(self),
                        *old(self),
                    )
                } else {
                    match home {
                        None => {
                            &&& r is None
                            &&& final(self).state == ScanState::Failed
                            &&& final(self).error matches Some(e) && e@ == "HOME is not set"@
                            &&& same_cleanup(*final(self), *old(self))
                        },
                        Some(h) => {
                            &&& r matches Some(requests) && crate::windows::request_views(requests@)
                                == crate::windows::request_views(final(self).scan_requests@)
                                && crate::windows::request_views(requests@) == seq![
                                crate::target::user_cache_request(h@),
                                crate::target::xcode_request(h@),
                                crate::target::homebrew_request(h@),
                                crate::target::node_request(h@),
                            ]
                            &&& final(self).state == ScanState::Scanning
                            &&& final(self).cancellation == Some(token)
                            &&& final(self).user_cache == (Metric { items: 0, bytes: 0 })
                            &&& final(self).system_cache == (Metric { items: 0, bytes: 0 })
                            &&& final(self).xcode == (Metric { items: 0, bytes: 0 })
                            &&& final(self).homebrew == (Metric { items: 0, bytes: 0 })
                            &&& final(self).node == (Metric { items: 0, bytes: 0 })
                            &&& final(self).permission_denied == 0
                            &&& final(self).error is None
                            &&& final(self).execution_error is None
                            &&& final(self).execution_cancellation is None
                            &&& final(self).scanned_items@.len() == 0
                            &&& final(self).cleanup_plan is None
                            &&& final(self).execution_policy is None
                            &&& final(self).execution_report is None
                            &&& final(self).execution_state == ExecutionState::Idle
                        },
                    }
                }
            }),
    {
        let busy = match self.state {
            ScanState::Scanning | ScanState::Cancelling => true,
            _ => false,
        } || match self.execution_state {
            ExecutionState::Executing | ExecutionState::Cancelling => true,
            _ => false,
        };
        if busy {
            return None;
        }
        let home = match home {
            None => {
                self.state = ScanState::Failed;
                self.error = Some("HOME is not set".to_owned());
                return None;
            },
            Some(h) => h,
        };
        self.reset_metrics();
        self.state = ScanState::Scanning;
        self.cancellation = Some(token);
        let user = UserCacheScan::new(home.clone());
        let xcode = XcodeScan::new(home.clone());
        let homebrew = HomebrewScan::new(home.clone());
        let node = NodeScan::new(home);
        let requests = vec![user.request(), xcode.request(), homebrew.request(), node.request()];
        let kept = vec![user.request(), xcode.request(), homebrew.request(), node.request()];
        assert(crate::windows::request_views(requests@) =~= crate::windows::request_views(kept@));
        assert(crate::windows::request_views(requests@) =~= seq![
            crate::target::user_cache_request(home@),
            crate::target::xcode_request(home@),
            crate::target::homebrew_request(home@),
            crate::target::node_request(home@),
        ]);
        self.scan_requests = kept;
        Some(requests)
    }

    /// Requests cancellation of the running scan, if any.
    pub fn cancel_scan(&mut self) -> (r: bool)
        ensures
            r == old(self).cancellation is Some,
            r ==> final(self).state == ScanState::Cancelling,
            !r ==> final(self).state == old(self).state,
            final(self).cancellation == old(self).cancellation,
            final(self).scanned_items == old(self).scanned_items,
            same_cleanup(*final(self), *old(self)),
            same_uninstall(*final(self), *old(self)),
    {
        match &self.cancellation {
            Some(token) => {
                token.cancel();
                self.state = ScanState::Cancelling;
                true
            },
            None => false,
        }
    }

    /// Starts the cleanup of the reviewed plan: refused while one runs, without a
    /// plan, or with nothing selected; fails without an execution policy;
    /// otherwise marks it running, with `token` to cancel it.
    pub fn begin_cleanup(&mut self, token: CancellationToken) -> (r: bool)
        ensures
            final(self).view == old(self).view,
            same_scan(*final(self), *old(self)),
            same_uninstall(*final(self), *old(self)),
            final(self).cleanup_plan == old(self).cleanup_plan,
            final(self).execution_policy == old(self).execution_policy,
            ({
                let busy = old(self).execution_state == ExecutionState::Executing || old(
                    self,
                ).execution_state == ExecutionState::Cancelling;
                let nothing = match old(self).cleanup_plan {
                    None => true,
                    Some(plan) => count_selected(plan.items@) == 0,
                };
                if busy || nothing {
                    !r && same_cleanup(*final(self), *old(self))
                } else if old(self).execution_policy is None {
                    &&& !r
                    &&& final(self).execution_state == ExecutionState::Failed
                    &&& final(self).execution_error matches Some(e) && e@
                        == "execution policy is unavailable"@
                } else {
                    &&& r
                    &&& final(self).execution_state == ExecutionState::Executing
                    &&& final(self).execution_error is None
                    &&& final(self).execution_report is None
                    &&& final(self).execution_cancellation == Some(token)
                }
            }),
    {
        let busy = match self.execution_state {
            ExecutionState::Executing | ExecutionState::Cancelling => true,
            _ => false,
        };
        if busy {
            return false;
        }
        match &self.cleanup_plan {
            None => {
                return false;
            },
            Some(plan) => {
                if plan.selected_count() == 0 {
                    return false;
                }
            },
        }
        if self.execution_policy.is_none() {
            self.execution_state = ExecutionState::Failed;
            self.execution_error = Some("execution policy is unavailable".to_owned());
            return false;
        }
        self.execution_state = ExecutionState::Executing;
        self.execution_error = None;
        self.execution_report = None;
        self.execution_cancellation = Some(token);
        true
    }

    /// Applies what the cleanup worker reported: a report ends the cleanup as
    /// cancelled, failed (when an item neither moved nor was already gone) or complete;
    /// an error or a vanished worker fails it. The plan is dropped either way.
    pub fn finish_cleanup(&mut self, message: ExecutionMessage)
        ensures
            final(self).view == old(self).view,
            same_scan(*final(self), *old(self)),
            same_uninstall(*final(self), *old(self)),
            final(self).execution_policy == old(self).execution_policy,
            final(self).execution_cancellation is None,
            final(self).cleanup_plan is None,
            match message {
                ExecutionMessage::Completed(report) => {
                    &&& final(self).execution_state == if report.cancelled {
                        ExecutionState::Cancelled
                    } else if report.records@.len() - count_outcome(
                        report.records@,
                        ExecutionOutcome::Executed,
                    ) - count_raced_away(report.records@) > 0 {
                        ExecutionState::Failed
                    } else {
                        ExecutionState::Completed
                    }
                    &&& final(self).execution_report == Some(report)
                    &&& final(self).execution_error == old(self).execution_error
                },
                ExecutionMessage::Failed(e) => {
                    &&& final(self).execution_state == ExecutionState::Failed
                    &&& final(self).execution_error == Some(e)
                    &&& final(self).execution_report == old(self).execution_report
                },
                ExecutionMessage::Disconnected => {
                    &&& final(self).execution_state == ExecutionState::Failed
                    &&& final(self).execution_error matches Some(e) && e@
                        == "cleanup worker disconnected"@
                    &&& final(self).execution_report == old(self).execution_report
                },
            },
    {
        match message {
            ExecutionMessage::Completed(report) => {
                self.execution_state = if report.cancelled {
                    ExecutionState::Cancelled
                } else if report.failed_count() > 0 {
                    ExecutionState::Failed
                } else {
                    ExecutionState::Completed
                };
                self.execution_report = Some(report);
            },
            ExecutionMessage::Failed(error) => {
                self.execution_state = ExecutionState::Failed;
                self.execution_error = Some(error);
            },
            ExecutionMessage::Disconnected => {
                self.execution_state = ExecutionState::Failed;
                self.execution_error = Some("cleanup worker disconnected".to_owned());
            },
        }
        self.execution_cancellation = None;
        self.cleanup_plan = None;
    }

    /// Requests cancellation of the running cleanup, if any.
    pub fn cancel_execution(&mut self) -> (r: bool)
        ensures
            r == old(self).execution_cancellation is Some,
            r ==> final(self).execution_state == ExecutionState::Cancelling,
            !r ==> final(self).execution_state == old(self).execution_state,
            final(self).execution_cancellation == old(self).execution_cancellation,
            final(self).cleanup_plan == old(self).cleanup_plan,
            same_scan(*final(self), *old(self)),
            same_uninstall(*final(self), *old(self)),
    {
        match &self.execution_cancellation {
            Some(token) => {
                token.cancel();
                self.execution_state = ExecutionState::Cancelling;
                true
            },
            None => false,
        }
    }

    /// Selects or deselects every item of the review plan, if there is one.
    pub fn set_all_review_items(&mut self, selected: bool)
        ensures
            same_scan(*final(self), *old(self)),
            same_uninstall(*final(self), *old(self)),
            final(self).execution_state == old(self).execution_state,
            match old(self).cleanup_plan {
                None => final(self).cleanup_plan is None,
                Some(plan) => final(self).cleanup_plan matches Some(after) && after.items@.len()
                    == plan.items@.len() && forall|i: int|
                    0 <= i < plan.items@.len() ==> (#[trigger] after.items@[i]).item
                        == plan.items@[i].item && after.items@[i].selected == (selected
                        && !plan.items@[i].item.is_symlink),
            },
    {
        match &mut self.cleanup_plan {
            Some(plan) => plan.set_all_selected(selected),
            None => {},
        }
    }

    /// Shows Smart Care.
    pub fn open_smart_care(&mut self)
        ensures
            final(self).view == ViewMode::SmartCare,
            same_scan(*final(self), *old(self)),
            same_cleanup(*final(self), *old(self)),
            same_uninstall(*final(self), *old(self)),
    {
        self.view = ViewMode::SmartCare;
    }

    /// Starts loading the installed applications: refused while the uninstaller is
    /// busy; otherwise clears its plan, report and error.
    pub fn begin_load_applications(&mut self) -> (r: bool)
        ensures
            final(self).view == old(self).view,
            same_scan(*final(self), *old(self)),
            same_cleanup(*final(self), *old(self)),
            final(self).applications == old(self).applications,
            final(self).uninstall_cancellation == old(self).uninstall_cancellation,
            r == !(old(self).uninstall_state == UninstallState::Loading || old(self).uninstall_state
                == UninstallState::Executing || old(self).uninstall_state
                == UninstallState::Cancelling),
            !r ==> same_uninstall(*final(self), *old(self)),
            r ==> final(self).uninstall_state == UninstallState::Loading
                && final(self).uninstall_error is None && final(self).uninstall_plan is None
                && final(self).uninstall_report is None,
    {
        let busy = match self.uninstall_state {
            UninstallState::Loading | UninstallState::Executing | UninstallState::Cancelling => true,
            _ => false,
        };
        if busy {
            return false;
        }
        self.uninstall_state = UninstallState::Loading;
        self.uninstall_error = None;
        self.uninstall_plan = None;
        self.uninstall_report = None;
        true
    }

    /// Shows the uninstaller, and starts loading the applications when none is
    /// loaded and none is loading (`true` when loading starts).
    pub fn open_uninstaller(&mut self) -> (r: bool)
        ensures
            final(self).view == ViewMode::Uninstaller,
            same_scan(*final(self), *old(self)),
            same_cleanup(*final(self), *old(self)),
            final(self).applications == old(self).applications,
            r ==> final(self).uninstall_state == UninstallState::Loading,
            !r ==> same_uninstall(*final(self), *old(self)),
            r ==> old(self).applications@.len() == 0,
    {
        self.view = ViewMode::Uninstaller;
        let loading = match self.uninstall_state {
            UninstallState::Loading => true,
            _ => false,
        };
        if self.applications.len() == 0 && !loading {
            self.begin_load_applications()
        } else {
            false
        }
    }

    /// Applies what the inventory worker reported.
    pub fn finish_load(&mut self, message: InventoryMessage)
        ensures
            final(self).view == old(self).view,
            same_scan(*final(self), *old(self)),
            same_cleanup(*final(self), *old(self)),
            final(self).uninstall_plan == old(self).uninstall_plan,
            final(self).uninstall_report == old(self).uninstall_report,
            final(self).uninstall_cancellation == old(self).uninstall_cancellation,
            match message {
                InventoryMessage::Loaded(apps) => final(self).applications == apps
                    && final(self).uninstall_state == UninstallState::Idle
                    && final(self).uninstall_error == old(self).uninstall_error,
                InventoryMessage::Failed(e) => final(self).applications@.len() == 0
                    && final(self).uninstall_state == UninstallState::Failed
                    && final(self).uninstall_error == Some(e),
                InventoryMessage::Disconnected => {
                    &&& final(self).applications == old(self).applications
                    &&& final(self).uninstall_state == UninstallState::Failed
                    &&& final(self).uninstall_error matches Some(e) && e@ == "inventory worker disconnected"@
                },
            },
    {
        match message {
            InventoryMessage::Loaded(apps) => {
                self.applications = apps;
                self.uninstall_state = UninstallState::Idle;
            },
            InventoryMessage::Failed(error) => {
                self.applications = Vec::new();
                self.uninstall_state = UninstallState::Failed;
                self.uninstall_error = Some(error);
            },
            InventoryMessage::Disconnected => {
                self.uninstall_state = UninstallState::Failed;
                self.uninstall_error = Some("inventory worker disconnected".to_owned());
            },
        }
    }

    /// Starts planning the uninstall of the application at `index`: refused while
    /// the uninstaller is busy or when there is no such application.
    pub fn begin_prepare_uninstall(&mut self, index: usize) -> (r: bool)
        ensures
            final(self).view == old(self).view,
            same_scan(*final(self), *old(self)),
            same_cleanup(*final(self), *old(self)),
            final(self).applications == old(self).applications,
            final(self).uninstall_cancellation == old(self).uninstall_cancellation,
            r == (!(old(self).uninstall_state == UninstallState::Loading || old(self).uninstall_state
                == UninstallState::Executing || old(self).uninstall_state
                == UninstallState::Cancelling) && index < old(self).applications@.len()),
            !r ==> same_uninstall(*final(self), *old(self)),
            r ==> final(self).uninstall_state == UninstallState::Loading
                && final(self).uninstall_error is None && final(self).uninstall_plan is None
                && final(self).uninstall_report is None,
    {
        let busy = match self.uninstall_state {
            UninstallState::Loading | UninstallState::Executing | UninstallState::Cancelling => true,
            _ => false,
        };
        if busy || index >= self.applications.len() {
            return false;
        }
        self.uninstall_state = UninstallState::Loading;
        self.uninstall_error = None;
        self.uninstall_report = None;
        self.uninstall_plan = None;
        true
    }

    /// Applies what the planning worker reported.
    pub fn finish_prepare(&mut self, message: PlanMessage)
        ensures
            final(self).view == old(self).view,
            same_scan(*final(self), *old(self)),
            same_cleanup(*final(self), *old(self)),
            final(self).applications == old(self).applications,
            final(self).uninstall_report == old(self).uninstall_report,
            final(self).uninstall_cancellation == old(self).uninstall_cancellation,
            match message {
                PlanMessage::Ready(plan) => final(self).uninstall_state == UninstallState::Review
                    && final(self).uninstall_plan == Some(plan) && final(self).uninstall_error
                    == old(self).uninstall_error,
                PlanMessage::Failed(e) => final(self).uninstall_state == UninstallState::Failed
                    && final(self).uninstall_error == Some(e) && final(self).uninstall_plan
                    == old(self).uninstall_plan,
                PlanMessage::Disconnected => {
                    &&& final(self).uninstall_state == UninstallState::Failed
                    &&& final(self).uninstall_error matches Some(e) && e@ == "plan worker disconnected"@
                    &&& final(self).uninstall_plan == old(self).uninstall_plan
                },
            },
    {
        match message {
            PlanMessage::Ready(plan) => {
                self.uninstall_state = UninstallState::Review;
                self.uninstall_plan = Some(plan);
            },
            PlanMessage::Failed(error) => {
                self.uninstall_state = UninstallState::Failed;
                self.uninstall_error = Some(error);
            },
            PlanMessage::Disconnected => {
                self.uninstall_state = UninstallState::Failed;
                self.uninstall_error = Some("plan worker disconnected".to_owned());
            },
        }
    }

    /// Flips the selection of the first reviewed item with the given path, as far
    /// as the plan allows; only while reviewing.
    pub fn toggle_uninstall_item(&mut self, path: &str) -> (r: bool)
        ensures
            final(self).view == old(self).view,
            same_scan(*final(self), *old(self)),
            same_cleanup(*final(self), *old(self)),
            final(self).uninstall_state == old(self).uninstall_state,
            final(self).applications == old(self).applications,
            old(self).uninstall_state != UninstallState::Review ==> !r && final(self).uninstall_plan
                == old(self).uninstall_plan,
            old(self).uninstall_plan is None ==> !r && final(self).uninstall_plan is None,
            r ==> (old(self).uninstall_plan matches Some(before) && final(self).uninstall_plan matches Some(
                after,
            ) && {
                let k = first_item_index(before.spec_items(), path@);
                &&& k < before.spec_items().len()
                &&& after.spec_items()[k].spec_selected() == !before.spec_items()[k].spec_selected()
            }),
            old(self).uninstall_state == UninstallState::Review ==> match old(self).uninstall_plan {
                None => true,
                Some(before) => final(self).uninstall_plan matches Some(after) && plan_toggled(
                    before,
                    after,
                    path@,
                    r,
                ),
            },
    {
        let reviewing = match self.uninstall_state {
            UninstallState::Review => true,
            _ => false,
        };
        if !reviewing {
            return false;
        }
        match &mut self.uninstall_plan {
            None => false,
            Some(plan) => {
                let items = plan.items();
                let mut i: usize = 0;
                let mut found: Option<bool> = None;
                while i < items.len()
                    invariant
                        i <= items@.len(),
                        items@ == plan.spec_items(),
                        found is None ==> forall|j: int|
                            0 <= j < i ==> !same_path(#[trigger] items@[j].spec_path(), path@),
                        found matches Some(sel) ==> {
                            let k = first_item_index(items@, path@);
                            k < items@.len() && sel == items@[k].spec_selected()
                        },
                    decreases items@.len() - i,
                {
                    if found.is_none() && paths_equal(items[i].path(), path) {
                        proof {
                            crate::uninstall_plan::lemma_first_item_index(items@, path@, i as int);
                        }
                        found = Some(items[i].is_selected());
                    }
                    i = i + 1;
                }
                match found {
                    None => {
                        proof {
                            crate::uninstall_plan::lemma_first_item_index(
                                items@,
                                path@,
                                items@.len() as int,
                            );
                        }
                        false
                    },
                    Some(selected) => plan.set_selected(path, !selected),
                }
            },
        }
    }

    /// Starts the reviewed uninstall: only while reviewing an unprotected plan
    /// with something selected; marks it running, with `token` to cancel it.
    pub fn begin_uninstall(&mut self, token: CancellationToken) -> (r: bool)
        ensures
            final(self).view == old(self).view,
            same_scan(*final(self), *old(self)),
            same_cleanup(*final(self), *old(self)),
            final(self).applications == old(self).applications,
            final(self).uninstall_plan == old(self).uninstall_plan,
            r == can_uninstall(*old(self)),
            !r ==> same_uninstall(*final(self), *old(self)),
            r ==> final(self).uninstall_state == UninstallState::Executing
                && final(self).uninstall_error is None && final(self).uninstall_report is None
                && final(self).uninstall_cancellation == Some(token),
    {
        let reviewing = match self.uninstall_state {
            UninstallState::Review => true,
            _ => false,
        };
        if !reviewing {
            return false;
        }
        match &self.uninstall_plan {
            None => {
                return false;
            },
            Some(plan) => {
                if plan.is_protected() || plan.selected_count() == 0 {
                    return false;
                }
            },
        }
        self.uninstall_state = UninstallState::Executing;
        self.uninstall_error = None;
        self.uninstall_report = None;
        self.uninstall_cancellation = Some(token);
        true
    }

    /// Applies what the uninstall worker reported: a report ends the uninstall as
    /// idle when cancelled, failed when a check stopped it or the Trash refused an
    /// item, or complete; an error or a vanished worker fails it. The plan and the
    /// applications are dropped either way, so that they are loaded again.
    pub fn finish_uninstall(&mut self, message: UninstallMessage)
        ensures
            final(self).view == old(self).view,
            same_scan(*final(self), *old(self)),
            same_cleanup(*final(self), *old(self)),
            final(self).uninstall_cancellation is None,
            final(self).uninstall_plan is None,
            final(self).applications@.len() == 0,
            match message {
                UninstallMessage::Completed(report) => {
                    &&& final(self).uninstall_state == if report.cancelled {
                        UninstallState::Idle
                    } else if report.safety_failure is Some || count_uninstall_results(
                        report.records@,
                        false,
                    ) > 0 {
                        UninstallState::Failed
                    } else {
                        UninstallState::Completed
                    }
                    &&& final(self).uninstall_report == Some(report)
                    &&& final(self).uninstall_error == old(self).uninstall_error
                },
                UninstallMessage::Failed(e) => {
                    &&& final(self).uninstall_state == UninstallState::Failed
                    &&& final(self).uninstall_error == Some(e)
                    &&& final(self).uninstall_report == old(self).uninstall_report
                },
                UninstallMessage::Disconnected => {
                    &&& final(self).uninstall_state == UninstallState::Failed
                    &&& final(self).uninstall_error matches Some(e) && e@
                        == "uninstall worker disconnected"@
                    &&& final(self).uninstall_report == old(self).uninstall_report
                },
            },
    {
        match message {
            UninstallMessage::Completed(report) => {
                self.uninstall_state = if report.cancelled {
                    UninstallState::Idle
                } else if report.safety_failure.is_some() || report.failed_count() > 0 {
                    UninstallState::Failed
                } else {
                    UninstallState::Completed
                };
                self.uninstall_report = Some(report);
            },
            UninstallMessage::Failed(error) => {
                self.uninstall_state = UninstallState::Failed;
                self.uninstall_error = Some(error);
            },
            UninstallMessage::Disconnected => {
                self.uninstall_state = UninstallState::Failed;
                self.uninstall_error = Some("uninstall worker disconnected".to_owned());
            },
        }
        self.uninstall_cancellation = None;
        self.uninstall_plan = None;
        self.applications = Vec::new();
    }

    /// Requests cancellation of the running uninstall, if any.
    pub fn cancel_uninstall(&mut self) -> (r: bool)
        ensures
            r == old(self).uninstall_cancellation is Some,
            r ==> final(self).uninstall_state == UninstallState::Cancelling,
            !r ==> final(self).uninstall_state == old(self).uninstall_state,
            final(self).uninstall_cancellation == old(self).uninstall_cancellation,
            final(self).uninstall_plan == old(self).uninstall_plan,
            final(self).applications == old(self).applications,
            same_scan(*final(self), *old(self)),
            same_cleanup(*final(self), *old(self)),
    {
        match &self.uninstall_cancellation {
            Some(token) => {
                token.cancel();
                self.uninstall_state = UninstallState::Cancelling;
                true
            },
            None => false,
        }
    }
}

/// How one inventory issue is shown: `path: message`.
pub open spec fn issue_line(i: crate::app_inventory::ApplicationInventoryIssue) -> Seq<char> {
    i.path@ + ": "@ + i.message@
}

/// Lines joined with `; `.
pub open spec fn joined(lines: Seq<Seq<char>>) -> Seq<char>
    decreases lines.len(),
{
    if lines.len() == 0 {
        Seq::empty()
    } else if lines.len() == 1 {
        lines[0]
    } else {
        joined(lines.drop_last()) + "; "@ + lines.last()
    }
}

/// Why an inventory cannot be used, if it cannot: it reported issues; the first
/// three are named.
pub open spec fn spec_inventory_failure(issues: Seq<crate::app_inventory::ApplicationInventoryIssue>) -> Option<
    Seq<char>,
> {
    if issues.len() == 0 {
        None
    } else {
        let shown = issues.take(if issues.len() < 3 {
            issues.len() as int
        } else {
            3
        });
        Some(
            "application inventory is incomplete: "@ + joined(
                shown.map_values(|i: crate::app_inventory::ApplicationInventoryIssue| issue_line(i)),
            ),
        )
    }
}

/// Why an inventory cannot be used for uninstalling, if it cannot.
pub fn inventory_failure_message(report: &ApplicationInventoryReport) -> (r: Option<String>)
    ensures
        opt_string_view(r) == spec_inventory_failure(report.issues@),
{
    let n = report.issues.len();
    if n == 0 {
        return None;
    }
    let shown: usize = if n < 3 {
        n
    } else {
        3
    };
    let ghost lines = report.issues@.take(shown as int).map_values(
        |i: crate::app_inventory::ApplicationInventoryIssue| issue_line(i),
    );
    let mut detail = String::new();
    let mut k: usize = 0;
    while k < shown
        invariant
            k <= shown,
            shown <= report.issues@.len(),
            lines == report.issues@.take(shown as int).map_values(
                |i: crate::app_inventory::ApplicationInventoryIssue| issue_line(i),
            ),
            detail@ == joined(lines.take(k as int)),
        decreases shown - k,
    {
        let issue = &report.issues[k];
        let line = concat_str(concat_str(issue.path.as_str(), ": ").as_str(), issue.message.as_str());
        assert(line@ == lines[k as int]);
        assert(lines.take(k + 1).drop_last() =~= lines.take(k as int));
        if k == 0 {
            detail = line;
            assert(lines.take(1) =~= seq![lines[0]]);
        } else {
            let with_sep = concat_str(detail.as_str(), "; ");
            detail = concat_str(with_sep.as_str(), line.as_str());
        }
        k = k + 1;
    }
    assert(lines.take(shown as int) =~= lines);
    Some(concat_str("application inventory is incomplete: ", detail.as_str()))
}

/// Whether `app` is the reviewed application: same path, location and bundle
/// identifier.
pub open spec fn same_application(app: InstalledApplication, reviewed: InstalledApplication) -> bool {
    &&& same_path(app.path@, reviewed.path@)
    &&& app.location == reviewed.location
    &&& opt_string_view(app.metadata.bundle_identifier) == opt_string_view(
        reviewed.metadata.bundle_identifier,
    )
}

/// Finds the reviewed application in a fresh inventory: the index of the first
/// application that is the same one.
pub fn find_current_application(inventory: &[InstalledApplication], reviewed: &InstalledApplication) -> (r:
    Option<usize>)
    ensures
        match r {
            Some(i) => i < inventory@.len() && same_application(inventory@[i as int], *reviewed)
                && forall|j: int| 0 <= j < i ==> !same_application(#[trigger] inventory@[j], *reviewed),
            None => forall|j: int|
                0 <= j < inventory@.len() ==> !same_application(#[trigger] inventory@[j], *reviewed),
        },
{
    let mut i: usize = 0;
    while i < inventory.len()
        invariant
            i <= inventory@.len(),
            forall|j: int| 0 <= j < i ==> !same_application(#[trigger] inventory@[j], *reviewed),
        decreases inventory@.len() - i,
    {
        let app = &inventory[i];
        let same_id = match (&app.metadata.bundle_identifier, &reviewed.metadata.bundle_identifier) {
            (Some(a), Some(b)) => str_eq(a.as_str(), b.as_str()),
            (None, None) => true,
            _ => false,
        };
        if paths_equal(app.path.as_str(), reviewed.path.as_str()) && app.location == reviewed.location
            && same_id {
            return Some(i);
        }
        i = i + 1;
    }
    None
}

} // verus!
