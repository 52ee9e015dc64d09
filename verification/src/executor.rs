//! Carrying out a reviewed cleanup plan, and the report of what happened.
use vstd::prelude::*;

use crate::action_policy::{CategoryActionPolicy, CleanupAction};
use crate::model::{CleanupCategory, CleanupPlan, CleanupPlanItem, ScanItem, count_selected};
use crate::cancellation::CancellationToken;
use crate::planner::{
    ExecutionPolicy, ItemObservation, PathObservation, Planner, SafetyError, result_view,
    spec_validate_item,
};
use crate::text::{ascii_lowercase, chars_has_infix, chars_of, has_infix, to_ascii_lowercase_chars};

verus! {

/// Why one item was not acted on.
#[derive(Debug, Clone, PartialEq, Eq)]
pub enum ExecutionFailure {
    Safety(SafetyError),
    Backend(String),
}

/// What happened to one selected item.
#[derive(Debug, Clone, PartialEq, Eq)]
pub struct ExecutionRecord {
    pub path: String,
    pub category: CleanupCategory,
    pub action: CleanupAction,
    pub bytes: u64,
    pub result: Result<(), ExecutionFailure>,
}

/// The kind of end an item came to, for reporting.
#[derive(Debug, Clone, Copy, PartialEq, Eq, Structural)]
pub enum ExecutionOutcome {
    Executed,
    Missing,
    ChangedSinceScan,
    PermissionDenied,
    Protected,
    Failed,
}

/// How a safety refusal is reported.
pub open spec fn safety_outcome(error: SafetyError) -> ExecutionOutcome {
    match error {
        SafetyError::MissingPath => ExecutionOutcome::Missing,
        SafetyError::PermissionDenied => ExecutionOutcome::PermissionDenied,
        SafetyError::PathRevalidationFailed => ExecutionOutcome::ChangedSinceScan,
        SafetyError::SymlinkSelected => ExecutionOutcome::ChangedSinceScan,
        SafetyError::ProtectedRoot => ExecutionOutcome::Protected,
        SafetyError::OutsideAllowedRoots => ExecutionOutcome::Protected,
        SafetyError::DestructiveActionsDisabled => ExecutionOutcome::Failed,
    }
}

/// How a backend's error message is reported, read ignoring ASCII case: a path that
/// was already gone is missing, a refusal of permission is a permission denial,
/// anything else a failure.
pub open spec fn backend_outcome(message: Seq<char>) -> ExecutionOutcome {
    let m = ascii_lowercase(message);
    if has_infix(m, "path no longer exists"@) || has_infix(m, "path disappeared before finder"@)
        || has_infix(m, "does not exist"@) {
        ExecutionOutcome::Missing
    } else if has_infix(m, "permission denied"@) || has_infix(m, "have permission"@) || has_infix(
        m,
        "not permitted"@,
    ) {
        ExecutionOutcome::PermissionDenied
    } else {
        ExecutionOutcome::Failed
    }
}

/// Whether a record's path was already gone when it was acted on: refused as
/// missing by the safety check, or a backend message, read ignoring ASCII case,
/// saying that the path no longer exists or disappeared before Finder moved it.
pub open spec fn is_raced_away(record: ExecutionRecord) -> bool {
    match record.result {
        Err(ExecutionFailure::Safety(SafetyError::MissingPath)) => true,
        Err(ExecutionFailure::Backend(m)) => {
            let l = ascii_lowercase(m@);
            has_infix(l, "path no longer exists"@) || has_infix(l, "path disappeared before finder"@)
        },
        _ => false,
    }
}

/// The number of records whose path was already gone.
pub open spec fn count_raced_away(records: Seq<ExecutionRecord>) -> nat
    decreases records.len(),
{
    if records.len() == 0 {
        0
    } else {
        count_raced_away(records.drop_last()) + if is_raced_away(records.last()) {
            1nat
        } else {
            0nat
        }
    }
}

fn raced_away(record: &ExecutionRecord) -> (r: bool)
    ensures
        r == is_raced_away(*record),
{
    match &record.result {
        Err(ExecutionFailure::Safety(SafetyError::MissingPath)) => true,
        Err(ExecutionFailure::Backend(message)) => {
            let m = to_ascii_lowercase_chars(message.as_str());
            let gone = chars_of("path no longer exists");
            let raced = chars_of("path disappeared before finder");
            chars_has_infix(m.as_slice(), gone.as_slice()) || chars_has_infix(
                m.as_slice(),
                raced.as_slice(),
            )
        },
        _ => false,
    }
}

/// A record whose path was already gone never counts as a success, and is
/// always reported as missing: the skipped records are among the missing ones.
pub proof fn skipped_records_are_missing_not_successes(records: Seq<ExecutionRecord>)
    ensures
        count_outcome(records, ExecutionOutcome::Executed) + count_raced_away(records)
            <= records.len(),
        count_raced_away(records) <= count_outcome(records, ExecutionOutcome::Missing),
    decreases records.len(),
{
    if records.len() > 0 {
        skipped_records_are_missing_not_successes(records.drop_last());
    }
}

/// How a record is reported.
pub open spec fn spec_outcome(record: ExecutionRecord) -> ExecutionOutcome {
    match record.result {
        Ok(()) => ExecutionOutcome::Executed,
        Err(ExecutionFailure::Safety(e)) => safety_outcome(e),
        Err(ExecutionFailure::Backend(m)) => backend_outcome(m@),
    }
}

fn outcome_of_message(message: &str) -> (o: ExecutionOutcome)
    ensures
        o == backend_outcome(message@),
{
    let m = to_ascii_lowercase_chars(message);
    let gone = chars_of("path no longer exists");
    let raced = chars_of("path disappeared before finder");
    let absent = chars_of("does not exist");
    if chars_has_infix(m.as_slice(), gone.as_slice()) || chars_has_infix(m.as_slice(), raced.as_slice())
        || chars_has_infix(m.as_slice(), absent.as_slice()) {
        return ExecutionOutcome::Missing;
    }
    let denied = chars_of("permission denied");
    let have = chars_of("have permission");
    let permitted = chars_of("not permitted");
    if chars_has_infix(m.as_slice(), denied.as_slice()) || chars_has_infix(m.as_slice(), have.as_slice())
        || chars_has_infix(m.as_slice(), permitted.as_slice()) {
        return ExecutionOutcome::PermissionDenied;
    }
    ExecutionOutcome::Failed
}

impl ExecutionRecord {
    /// How this record is reported.
    pub fn outcome(&self) -> (o: ExecutionOutcome)
        ensures
            o == spec_outcome(*self),
    {
        match &self.result {
            Ok(()) => ExecutionOutcome::Executed,
            Err(ExecutionFailure::Safety(e)) => match e {
                SafetyError::MissingPath => ExecutionOutcome::Missing,
                SafetyError::PermissionDenied => ExecutionOutcome::PermissionDenied,
                SafetyError::PathRevalidationFailed => ExecutionOutcome::ChangedSinceScan,
                SafetyError::SymlinkSelected => ExecutionOutcome::ChangedSinceScan,
                SafetyError::ProtectedRoot => ExecutionOutcome::Protected,
                SafetyError::OutsideAllowedRoots => ExecutionOutcome::Protected,
                SafetyError::DestructiveActionsDisabled => ExecutionOutcome::Failed,
            },
            Err(ExecutionFailure::Backend(m)) => outcome_of_message(m.as_str()),
        }
    }
}

/// The number of records with the given outcome.
pub open spec fn count_outcome(records: Seq<ExecutionRecord>, o: ExecutionOutcome) -> nat
    decreases records.len(),
{
    if records.len() == 0 {
        0
    } else {
        count_outcome(records.drop_last(), o) + if spec_outcome(records.last()) == o {
            1nat
        } else {
            0nat
        }
    }
}

/// Whether a record is a success of the given action.
pub open spec fn succeeded_with(record: ExecutionRecord, action: CleanupAction) -> bool {
    record.result is Ok && record.action == action
}

/// The sum of the sizes of the records that succeeded with the given action.
pub open spec fn bytes_with(records: Seq<ExecutionRecord>, action: CleanupAction) -> int
    decreases records.len(),
{
    if records.len() == 0 {
        0
    } else {
        bytes_with(records.drop_last(), action) + if succeeded_with(records.last(), action) {
            records.last().bytes as int
        } else {
            0
        }
    }
}

/// Sizes of what went to the Trash. The sizes are those the scan measured; what
/// the Trash frees is not known until it is emptied.
#[derive(Debug, Clone, Copy, PartialEq, Eq)]
pub struct TrashAccounting {
    pub moved_scan_estimate_bytes: u64,
    pub reclaimed_bytes: Option<u64>,
}

/// What a cleanup did, item by item.
#[derive(Debug, Clone, PartialEq, Eq, Default)]
pub struct ExecutionReport {
    pub records: Vec<ExecutionRecord>,
    pub cancelled: bool,
}

pub proof fn lemma_count_outcome_bound(records: Seq<ExecutionRecord>, o: ExecutionOutcome)
    ensures
        count_outcome(records, o) <= records.len(),
    decreases records.len(),
{
    if records.len() > 0 {
        lemma_count_outcome_bound(records.drop_last(), o);
    }
}

pub proof fn lemma_bytes_with_prefix(records: Seq<ExecutionRecord>, n: int, action: CleanupAction)
    requires
        0 <= n <= records.len(),
    ensures
        0 <= bytes_with(records.take(n), action) <= bytes_with(records, action),
    decreases records.len() - n,
{
    if n < records.len() {
        lemma_bytes_with_prefix(records, n + 1, action);
        assert(records.take(n + 1).drop_last() =~= records.take(n));
    } else {
        assert(records.take(n) =~= records);
    }
    lemma_bytes_with_nonneg(records.take(n), action);
}

pub proof fn lemma_bytes_with_nonneg(records: Seq<ExecutionRecord>, action: CleanupAction)
    ensures
        bytes_with(records, action) >= 0,
    decreases records.len(),
{
    if records.len() > 0 {
        lemma_bytes_with_nonneg(records.drop_last(), action);
    }
}

/// The sum of the sizes of the records that succeeded, whatever their action.
pub open spec fn succeeded_bytes(records: Seq<ExecutionRecord>) -> int
    decreases records.len(),
{
    if records.len() == 0 {
        0
    } else {
        succeeded_bytes(records.drop_last()) + if records.last().result is Ok {
            records.last().bytes as int
        } else {
            0
        }
    }
}

/// What was moved to the Trash and what was deleted outright together make up
/// the sizes of all the records that succeeded.
pub proof fn moved_and_deleted_bytes_are_the_successes(records: Seq<ExecutionRecord>)
    ensures
        bytes_with(records, CleanupAction::MoveToTrash) + bytes_with(
            records,
            CleanupAction::PermanentDelete,
        ) == succeeded_bytes(records),
    decreases records.len(),
{
    if records.len() > 0 {
        moved_and_deleted_bytes_are_the_successes(records.drop_last());
    }
}

/// Records in which no record carries the given action count no bytes for it.
proof fn lemma_bytes_without_action(records: Seq<ExecutionRecord>, action: CleanupAction)
    requires
        forall|k: int| 0 <= k < records.len() ==> (#[trigger] records[k]).action != action,
    ensures
        bytes_with(records, action) == 0,
    decreases records.len(),
{
    if records.len() > 0 {
        assert forall|k: int| 0 <= k < records.drop_last().len() implies (
        #[trigger] records.drop_last()[k]).action != action by {
            assert(records.drop_last()[k] == records[k]);
        }
        lemma_bytes_without_action(records.drop_last(), action);
        assert(records.last() == records[records.len() - 1]);
    }
}

/// Under a policy that deletes no category outright, a run that follows the plan
/// deletes nothing outright: every byte it accounts for went to the Trash.
pub proof fn trash_only_runs_delete_nothing(
    records: Seq<ExecutionRecord>,
    entries: Seq<CleanupPlanItem>,
    action_policy: CategoryActionPolicy,
    execution_policy: ExecutionPolicy,
)
    requires
        action_policy.permanent_categories() == Set::<CleanupCategory>::empty(),
        follows_plan(records, entries, action_policy, execution_policy),
    ensures
        bytes_with(records, CleanupAction::PermanentDelete) == 0,
        bytes_with(records, CleanupAction::MoveToTrash) == succeeded_bytes(records),
{
    let sources = choose|sources: Seq<int>| #[trigger]
        records_follow(records, entries, action_policy, execution_policy, sources);
    assert forall|k: int| 0 <= k < records.len() implies (
    #[trigger] records[k]).action != CleanupAction::PermanentDelete by {
        let s = sources[k];
        assert(!action_policy.permanent_categories().contains(entries[s].item.category));
    }
    lemma_bytes_without_action(records, CleanupAction::PermanentDelete);
    moved_and_deleted_bytes_are_the_successes(records);
}

/// Every record has exactly one outcome: the counts of the six outcomes add up to
/// the number of records.
pub proof fn outcome_counts_partition_records(records: Seq<ExecutionRecord>)
    ensures
        count_outcome(records, ExecutionOutcome::Executed) + count_outcome(
            records,
            ExecutionOutcome::Missing,
        ) + count_outcome(records, ExecutionOutcome::ChangedSinceScan) + count_outcome(
            records,
            ExecutionOutcome::PermissionDenied,
        ) + count_outcome(records, ExecutionOutcome::Protected) + count_outcome(
            records,
            ExecutionOutcome::Failed,
        ) == records.len(),
    decreases records.len(),
{
    if records.len() > 0 {
        outcome_counts_partition_records(records.drop_last());
    }
}

impl ExecutionReport {
    /// The number of records with the given outcome.
    pub fn outcome_count(&self, outcome: ExecutionOutcome) -> (n: usize)
        ensures
            n == count_outcome(self.records@, outcome),
    {
        let mut n: usize = 0;
        let mut i: usize = 0;
        while i < self.records.len()
            invariant
                i <= self.records@.len(),
                n == count_outcome(self.records@.take(i as int), outcome),
                n <= i,
            decreases self.records@.len() - i,
        {
            assert(self.records@.take(i + 1).drop_last() =~= self.records@.take(i as int));
            if self.records[i].outcome() == outcome {
                n = n + 1;
            }
            i = i + 1;
        }
        assert(self.records@.take(self.records@.len() as int) =~= self.records@);
        n
    }

    /// Records whose action succeeded.
    pub fn succeeded_count(&self) -> (n: usize)
        ensures
            n == count_outcome(self.records@, ExecutionOutcome::Executed),
    {
        self.outcome_count(ExecutionOutcome::Executed)
    }

    /// Records skipped because their path was already gone: refused as missing by
    /// the safety check, or reported by the backend as vanished.
    pub fn skipped_count(&self) -> (n: usize)
        ensures
            n == count_raced_away(self.records@),
    {
        let mut n: usize = 0;
        let mut i: usize = 0;
        while i < self.records.len()
            invariant
                i <= self.records@.len(),
                n == count_raced_away(self.records@.take(i as int)),
                n <= i,
            decreases self.records@.len() - i,
        {
            assert(self.records@.take(i + 1).drop_last() =~= self.records@.take(i as int));
            if raced_away(&self.records[i]) {
                n = n + 1;
            }
            i = i + 1;
        }
        assert(self.records@.take(self.records@.len() as int) =~= self.records@);
        n
    }

    /// Records that failed for any other reason.
    pub fn failed_count(&self) -> (n: usize)
        ensures
            n == self.records@.len() - count_outcome(self.records@, ExecutionOutcome::Executed)
                - count_raced_away(self.records@),
    {
        proof {
            skipped_records_are_missing_not_successes(self.records@);
        }
        let executed = self.outcome_count(ExecutionOutcome::Executed);
        let skipped = self.skipped_count();
        self.records.len() - executed - skipped
    }

    fn bytes_succeeded_with(&self, action: CleanupAction) -> (b: u64)
        requires
            bytes_with(self.records@, action) <= u64::MAX,
        ensures
            b == bytes_with(self.records@, action),
    {
        let mut sum: u64 = 0;
        let mut i: usize = 0;
        while i < self.records.len()
            invariant
                i <= self.records@.len(),
                bytes_with(self.records@, action) <= u64::MAX,
                sum == bytes_with(self.records@.take(i as int), action),
            decreases self.records@.len() - i,
        {
            proof {
                assert(self.records@.take(i + 1).drop_last() =~= self.records@.take(i as int));
                lemma_bytes_with_prefix(self.records@, i + 1, action);
            }
            if self.records[i].result.is_ok() && self.records[i].action == action {
                sum = sum + self.records[i].bytes;
            }
            i = i + 1;
        }
        assert(self.records@.take(self.records@.len() as int) =~= self.records@);
        sum
    }

    /// Scan-time sizes of what was moved to the Trash.
    pub fn moved_bytes(&self) -> (b: u64)
        requires
            bytes_with(self.records@, CleanupAction::MoveToTrash) <= u64::MAX,
        ensures
            b == bytes_with(self.records@, CleanupAction::MoveToTrash),
    {
        self.bytes_succeeded_with(CleanupAction::MoveToTrash)
    }

    /// Scan-time sizes of what was deleted permanently.
    pub fn permanently_deleted_bytes(&self) -> (b: u64)
        requires
            bytes_with(self.records@, CleanupAction::PermanentDelete) <= u64::MAX,
        ensures
            b == bytes_with(self.records@, CleanupAction::PermanentDelete),
    {
        self.bytes_succeeded_with(CleanupAction::PermanentDelete)
    }

    /// Trash sizes: the scan estimate of what moved, and nothing claimed as reclaimed.
    pub fn trash_accounting(&self) -> (a: TrashAccounting)
        requires
            bytes_with(self.records@, CleanupAction::MoveToTrash) <= u64::MAX,
        ensures
            a.moved_scan_estimate_bytes == bytes_with(self.records@, CleanupAction::MoveToTrash),
            a.reclaimed_bytes is None,
    {
        TrashAccounting { moved_scan_estimate_bytes: self.moved_bytes(), reclaimed_bytes: None }
    }
}

/// Moves a path to the Trash (or the Recycle Bin); the error is the backend's
/// message.
pub trait TrashBackend {
    fn move_to_trash(&self, path: &str) -> Result<(), String>;
}

/// Deletes a path outright; the error is the backend's message.
pub trait PermanentDeleteBackend {
    fn permanent_delete(&self, path: &str) -> Result<(), String>;
}

/// A backend that can carry out both cleanup actions.
pub trait CleanupBackend: TrashBackend + PermanentDeleteBackend {

}

impl<T: TrashBackend + PermanentDeleteBackend> CleanupBackend for T {

}

/// Whether some observation of the item and of each allowed root, taken right
/// before acting, makes the check before execution give `verdict`.
pub open spec fn verdict_possible(
    item: ScanItem,
    policy: ExecutionPolicy,
    verdict: Result<Seq<char>, SafetyError>,
) -> bool {
    exists|now: PathObservation, roots_now: Seq<PathObservation>|
        roots_now.len() == policy.allowed_roots@.len() && #[trigger] spec_validate_item(
            item,
            policy,
            now,
            roots_now,
        ) == verdict
}

/// Whether a record rests on a check of its entry under the policy: a refusal is
/// about the entry's own path, with an error that the check gave; any other
/// record is about the path that the check validated.
pub open spec fn record_rests_on_check(
    record: ExecutionRecord,
    item: ScanItem,
    policy: ExecutionPolicy,
) -> bool {
    match record.result {
        Err(ExecutionFailure::Safety(e)) => record.path@ == item.path@ && verdict_possible(
            item,
            policy,
            Err(e),
        ),
        _ => verdict_possible(item, policy, Ok(record.path@)),
    }
}

/// Whether `records` belong to selected entries of the plan, one each, in plan
/// order (`sources[k]` is the entry of record `k`), each with its entry's category
/// and size, the action the policy gives that category, and resting on a check
/// of its entry under the execution policy.
pub open spec fn records_follow(
    records: Seq<ExecutionRecord>,
    entries: Seq<CleanupPlanItem>,
    action_policy: CategoryActionPolicy,
    execution_policy: ExecutionPolicy,
    sources: Seq<int>,
) -> bool {
    &&& sources.len() == records.len()
    &&& forall|k: int, l: int|
        0 <= k < l < records.len() ==> #[trigger] sources[k] < #[trigger] sources[l]
    &&& forall|k: int|
        0 <= k < records.len() ==> {
            let s = #[trigger] sources[k];
            &&& 0 <= s < entries.len()
            &&& entries[s].selected
            &&& records[k].category == entries[s].item.category
            &&& records[k].bytes == entries[s].item.bytes
            &&& records[k].action == action_policy.spec_action_for(entries[s].item.category)
            &&& record_rests_on_check(records[k], entries[s].item, execution_policy)
        }
}

/// Whether `records` belong to selected entries of the plan, one each, in plan
/// order, each resting on a check of its entry.
pub open spec fn follows_plan(
    records: Seq<ExecutionRecord>,
    entries: Seq<CleanupPlanItem>,
    action_policy: CategoryActionPolicy,
    execution_policy: ExecutionPolicy,
) -> bool {
    exists|sources: Seq<int>| #[trigger] records_follow(
        records,
        entries,
        action_policy,
        execution_policy,
        sources,
    )
}

/// Whether `observe`, asked about `path`, may have answered `obs`.
pub open spec fn observed_as<F: Fn(&str) -> PathObservation>(
    observe: F,
    path: Seq<char>,
    obs: PathObservation,
) -> bool {
    exists|p: &str| p@ == path && #[trigger] call_ensures(observe, (p,), obs)
}

/// Whether `backend`, asked to move `path` to the Trash, may have answered `answer`.
pub open spec fn trash_answered<B: TrashBackend>(
    backend: &B,
    path: Seq<char>,
    answer: Result<(), String>,
) -> bool {
    exists|p: &str| p@ == path && #[trigger] call_ensures(B::move_to_trash, (backend, p), answer)
}

/// Whether `backend`, asked to delete `path`, may have answered `answer`.
pub open spec fn delete_answered<B: CleanupBackend>(
    backend: &B,
    path: Seq<char>,
    answer: Result<(), String>,
) -> bool {
    exists|p: &str| p@ == path && #[trigger] call_ensures(B::permanent_delete, (backend, p), answer)
}

/// Whether `backend`, asked to carry out `action` on `path`, may have answered
/// `answer`.
pub open spec fn backend_answered<B: CleanupBackend>(
    backend: &B,
    action: CleanupAction,
    path: Seq<char>,
    answer: Result<(), String>,
) -> bool {
    match action {
        CleanupAction::MoveToTrash => trash_answered(backend, path, answer),
        CleanupAction::PermanentDelete => delete_answered(backend, path, answer),
    }
}

/// The record of a backend answer.
pub open spec fn answer_result(answer: Result<(), String>) -> Result<(), ExecutionFailure> {
    match answer {
        Ok(()) => Ok(()),
        Err(m) => Err(ExecutionFailure::Backend(m)),
    }
}

/// Whether `record` is what a run makes of `item`: checked against what `observe`
/// reported for the item's path and for each allowed root right before acting; a
/// refusal records the check's error on the item's own path; otherwise the action
/// went to `backend` on the validated path, and the record holds its answer.
pub open spec fn record_from_run<B: CleanupBackend, F: Fn(&str) -> PathObservation>(
    record: ExecutionRecord,
    item: ScanItem,
    action_policy: CategoryActionPolicy,
    policy: ExecutionPolicy,
    observe: F,
    backend: &B,
) -> bool {
    exists|now: PathObservation, roots_now: Seq<PathObservation>|
        {
            &&& roots_now.len() == policy.allowed_roots@.len()
            &&& observed_as(observe, item.path@, now)
            &&& forall|i: int|
                0 <= i < roots_now.len() ==> observed_as(
                    observe,
                    policy.allowed_roots@[i].path@,
                    #[trigger] roots_now[i],
                )
            &&& match #[trigger] spec_validate_item(item, policy, now, roots_now) {
                Err(e) => record.path == item.path && record.result == Err::<(), ExecutionFailure>(
                    ExecutionFailure::Safety(e),
                ),
                Ok(p) => record.path@ == p && exists|answer: Result<(), String>|
                    backend_answered(backend, record.action, p, answer) && record.result
                        == answer_result(answer),
            }
        }
}

/// Whether `records` are those of the selected entries among the first `n`
/// entries of the plan, one each, in plan order, each with its entry's category,
/// size and action, and each what the run made of its entry from what `observe`
/// reported and `backend` answered: what a run that stopped before entry `n` has
/// done.
pub open spec fn run_covers_prefix<B: CleanupBackend, F: Fn(&str) -> PathObservation>(
    records: Seq<ExecutionRecord>,
    entries: Seq<CleanupPlanItem>,
    action_policy: CategoryActionPolicy,
    execution_policy: ExecutionPolicy,
    observe: F,
    backend: &B,
    n: int,
) -> bool {
    &&& 0 <= n <= entries.len()
    &&& records.len() == count_selected(entries.take(n))
    &&& exists|sources: Seq<int>|
        {
            &&& #[trigger] records_follow(records, entries, action_policy, execution_policy, sources)
            &&& forall|k: int| 0 <= k < records.len() ==> #[trigger] sources[k] < n
            &&& forall|k: int|
                0 <= k < records.len() ==> record_from_run(
                    #[trigger] records[k],
                    entries[sources[k]].item,
                    action_policy,
                    execution_policy,
                    observe,
                    backend,
                )
        }
}

/// Runs cleanup plans.
pub struct CleanupExecutor;

/// The next selected entry at or after `from`, or the length.
pub open spec fn next_selected(entries: Seq<CleanupPlanItem>, from: int) -> int
    decreases entries.len() - from,
{
    if from >= entries.len() || from < 0 {
        entries.len() as int
    } else if entries[from].selected {
        from
    } else {
        next_selected(entries, from + 1)
    }
}

pub proof fn lemma_next_selected(entries: Seq<CleanupPlanItem>, from: int)
    requires
        0 <= from <= entries.len(),
    ensures
        from <= next_selected(entries, from) <= entries.len(),
        next_selected(entries, from) < entries.len() ==> entries[next_selected(entries, from)].selected,
        forall|j: int| from <= j < next_selected(entries, from) ==> !(#[trigger] entries[j]).selected,
    decreases entries.len() - from,
{
    if from < entries.len() && !entries[from].selected {
        lemma_next_selected(entries, from + 1);
    }
}

/// The record for an entry that failed validation.
pub open spec fn safety_record(entry: CleanupPlanItem, action: CleanupAction, error: SafetyError) -> ExecutionRecord {
    ExecutionRecord {
        path: entry.item.path,
        category: entry.item.category,
        action,
        bytes: entry.item.bytes,
        result: Err(ExecutionFailure::Safety(error)),
    }
}

/// Counting the selected entries of a prefix one entry further.
pub proof fn lemma_count_selected_step(entries: Seq<CleanupPlanItem>, j: int)
    requires
        0 <= j < entries.len(),
    ensures
        count_selected(entries.take(j + 1)) == count_selected(entries.take(j)) + if entries[j].selected {
            1nat
        } else {
            0nat
        },
{
    assert(entries.take(j + 1).drop_last() =~= entries.take(j));
}

/// A run of unselected entries adds nothing to the count of a prefix.
pub proof fn lemma_count_selected_skip(entries: Seq<CleanupPlanItem>, from: int, to: int)
    requires
        0 <= from <= to <= entries.len(),
        forall|j: int| from <= j < to ==> !(#[trigger] entries[j]).selected,
    ensures
        count_selected(entries.take(to)) == count_selected(entries.take(from)),
    decreases to - from,
{
    if from < to {
        lemma_count_selected_skip(entries, from, to - 1);
        lemma_count_selected_step(entries, to - 1);
    }
}

/// One cleanup in progress. The caller checks each selected entry against the file
/// system (`check_next`), performs the action it is handed (`pending_action`), and
/// reports the outcome (`record_backend_result`), until nothing is left to check.
pub struct CleanupExecution<'a> {
    plan: &'a CleanupPlan,
    execution_policy: &'a ExecutionPolicy,
    action_policy: &'a CategoryActionPolicy,
    next: usize,
    pending: Option<(String, CleanupAction)>,
    report: ExecutionReport,
    sources: Ghost<Seq<int>>,
}

impl<'a> CleanupExecution<'a> {
    /// The plan being carried out.
    pub closed spec fn plan(&self) -> CleanupPlan {
        *self.plan
    }

    /// The execution policy in force.
    pub closed spec fn execution_policy(&self) -> ExecutionPolicy {
        *self.execution_policy
    }

    /// The action policy in force.
    pub closed spec fn action_policy(&self) -> CategoryActionPolicy {
        *self.action_policy
    }

    /// The index of the entry to check next (the plan's length once none is left).
    pub closed spec fn next_index(&self) -> int {
        self.next as int
    }

    /// A validated path and the action awaiting the backend, if any.
    pub closed spec fn pending(&self) -> Option<(Seq<char>, CleanupAction)> {
        match self.pending {
            Some((p, a)) => Some((p@, a)),
            None => None,
        }
    }

    /// The report so far.
    pub closed spec fn report(&self) -> ExecutionReport {
        self.report
    }

    /// For each record, the index of the plan entry it is about.
    pub closed spec fn sources(&self) -> Seq<int> {
        self.sources@
    }

    /// Whether nothing is left to check.
    pub open spec fn is_done(&self) -> bool {
        self.pending() is None && (self.report().cancelled || self.next_index()
            >= self.plan().items@.len())
    }

    /// The run's invariant: records are about distinct selected entries, in plan
    /// order, each with its entry's category and size and the policy's action; the
    /// next entry to check is selected; a pending action is for that entry.
    pub open spec fn wf(&self) -> bool {
        let entries = self.plan().items@;
        let records = self.report().records@;
        &&& self.sources().len() == records.len()
        &&& 0 <= self.next_index() <= entries.len()
        &&& records.len() == count_selected(entries.take(self.next_index()))
        &&& self.next_index() < entries.len() ==> entries[self.next_index()].selected
        &&& forall|k: int|
            0 <= k < records.len() ==> {
                let s = #[trigger] self.sources()[k];
                &&& 0 <= s < self.next_index()
                &&& entries[s].selected
                &&& records[k].category == entries[s].item.category
                &&& records[k].bytes == entries[s].item.bytes
                &&& records[k].action == self.action_policy().spec_action_for(
                    entries[s].item.category,
                )
                &&& record_rests_on_check(records[k], entries[s].item, self.execution_policy())
            }
        &&& forall|k: int, l: int|
            0 <= k < l < records.len() ==> #[trigger] self.sources()[k] < #[trigger] self.sources()[l]
        &&& self.pending() is Some ==> {
            &&& self.next_index() < entries.len()
            &&& !self.report().cancelled
            &&& (self.pending()->0).1 == self.action_policy().spec_action_for(
                entries[self.next_index()].item.category,
            )
            &&& verdict_possible(
                entries[self.next_index()].item,
                self.execution_policy(),
                Ok((self.pending()->0).0),
            )
        }
    }

    /// The entry to check next, if any.
    pub fn item_to_check(&self) -> (r: Option<&CleanupPlanItem>)
        requires
            self.wf(),
        ensures
            r is Some <==> (self.pending() is None && !self.report().cancelled && self.next_index()
                < self.plan().items@.len()),
            r is Some ==> *r->0 == self.plan().items@[self.next_index()],
    {
        if self.pending.is_some() || self.report.cancelled || self.next >= self.plan.items.len() {
            None
        } else {
            Some(&self.plan.items[self.next])
        }
    }

    /// The action to perform now, and the path to perform it on, if any.
    pub fn pending_action(&self) -> (r: Option<(CleanupAction, &str)>)
        ensures
            match r {
                Some((a, p)) => self.pending() == Some((p@, a)),
                None => self.pending() is None,
            },
    {
        match &self.pending {
            Some((p, a)) => Some((*a, p.as_str())),
            None => None,
        }
    }

    fn advance(&mut self)
        requires
            old(self).next < old(self).plan.items@.len(),
        ensures
            final(self).next == next_selected(old(self).plan.items@, old(self).next + 1),
            count_selected(old(self).plan.items@.take(final(self).next as int)) == count_selected(
                old(self).plan.items@.take(old(self).next + 1),
            ),
            old(self).next < final(self).next <= old(self).plan.items@.len(),
            final(self).next < old(self).plan.items@.len() ==> old(self).plan.items@[final(self).next as int].selected,
            final(self).plan == old(self).plan,
            final(self).execution_policy == old(self).execution_policy,
            final(self).action_policy == old(self).action_policy,
            final(self).pending == old(self).pending,
            final(self).report == old(self).report,
            final(self).sources == old(self).sources,
    {
        proof {
            lemma_next_selected(self.plan.items@, self.next + 1);
        }
        let n = self.plan.items.len();
        let mut i = self.next + 1;
        while i < self.plan.items.len() && !self.plan.items[i].selected
            invariant
                old(self).next + 1 <= i <= self.plan.items@.len(),
                self.plan == old(self).plan,
                next_selected(self.plan.items@, old(self).next + 1) == next_selected(
                    self.plan.items@,
                    i as int,
                ),
            decreases self.plan.items@.len() - i,
        {
            i = i + 1;
        }
        proof {
            lemma_next_selected(self.plan.items@, old(self).next + 1);
            lemma_count_selected_skip(self.plan.items@, old(self).next + 1, i as int);
        }
        self.next = i;
    }

    /// Stops the run before the next entry: nothing more is checked or acted on.
    pub fn cancel(&mut self)
        requires
            old(self).wf(),
            old(self).pending() is None,
        ensures
            final(self).wf(),
            final(self).plan() == old(self).plan(),
            final(self).execution_policy() == old(self).execution_policy(),
            final(self).action_policy() == old(self).action_policy(),
            final(self).next_index() == old(self).next_index(),
            final(self).pending() is None,
            final(self).sources() == old(self).sources(),
            final(self).report() == (ExecutionReport {
                records: old(self).report().records,
                cancelled: true,
            }),
    {
        self.report.cancelled = true;
    }

    /// Checks the next entry. `cancelled` is whether cancellation was requested;
    /// `observed` is what the file system reports now for the entry and each allowed
    /// root. A cancelled run stops with nothing recorded for the entry; an entry
    /// that fails validation is recorded as refused; otherwise its action waits.
    pub fn check_next(&mut self, cancelled: bool, observed: &ItemObservation)
        requires
            old(self).wf(),
            old(self).pending() is None,
            !old(self).report().cancelled,
            old(self).next_index() < old(self).plan().items@.len(),
            observed.roots@.len() == old(self).execution_policy().allowed_roots@.len(),
        ensures
            final(self).wf(),
            final(self).plan() == old(self).plan(),
            final(self).execution_policy() == old(self).execution_policy(),
            final(self).action_policy() == old(self).action_policy(),
            ({
                let entry = old(self).plan().items@[old(self).next_index()];
                let action = old(self).action_policy().spec_action_for(entry.item.category);
                let verdict = spec_validate_item(
                    entry.item,
                    old(self).execution_policy(),
                    observed.item,
                    observed.roots@,
                );
                final(self).sources() == if !cancelled && verdict is Err {
                    old(self).sources().push(old(self).next_index())
                } else {
                    old(self).sources()
                }
            }),
            ({
                let entry = old(self).plan().items@[old(self).next_index()];
                let action = old(self).action_policy().spec_action_for(entry.item.category);
                let verdict = spec_validate_item(
                    entry.item,
                    old(self).execution_policy(),
                    observed.item,
                    observed.roots@,
                );
                if cancelled {
                    &&& final(self).report() == (ExecutionReport {
                        records: old(self).report().records,
                        cancelled: true,
                    })
                    &&& final(self).pending() is None
                } else {
                    match verdict {
                        Err(e) => {
                            &&& final(self).report().records@ == old(self).report().records@.push(
                                safety_record(entry, action, e),
                            )
                            &&& !final(self).report().cancelled
                            &&& final(self).pending() is None
                            &&& final(self).next_index() == next_selected(
                                old(self).plan().items@,
                                old(self).next_index() + 1,
                            )
                        },
                        Ok(path) => {
                            &&& final(self).report() == old(self).report()
                            &&& final(self).pending() == Some((path, action))
                            &&& final(self).next_index() == old(self).next_index()
                        },
                    }
                }
            }),
    {
        if cancelled {
            self.report.cancelled = true;
            return;
        }
        let entry = &self.plan.items[self.next];
        let action = self.action_policy.action_for(entry.item.category);
        match Planner::validate_item_for_execution(&entry.item, self.execution_policy, observed) {
            Ok(path) => {
                self.pending = Some((path, action));
            },
            Err(error) => {
                let record = ExecutionRecord {
                    path: entry.item.path.clone(),
                    category: entry.item.category,
                    action,
                    bytes: entry.item.bytes,
                    result: Err(ExecutionFailure::Safety(error)),
                };
                let ghost source = self.next as int;
                self.report.records.push(record);
                self.sources = Ghost(self.sources@.push(source));
                proof {
                    lemma_count_selected_step(self.plan.items@, self.next as int);
                }
                self.advance();
            },
        }
    }

    /// Records what the backend answered for the pending action, and moves on.
    pub fn record_backend_result(&mut self, result: Result<(), String>)
        requires
            old(self).wf(),
            old(self).pending() is Some,
        ensures
            final(self).wf(),
            final(self).plan() == old(self).plan(),
            final(self).execution_policy() == old(self).execution_policy(),
            final(self).action_policy() == old(self).action_policy(),
            final(self).pending() is None,
            !final(self).report().cancelled,
            final(self).next_index() == next_selected(old(self).plan().items@, old(self).next_index() + 1),
            final(self).sources() == old(self).sources().push(old(self).next_index()),
            ({
                let entry = old(self).plan().items@[old(self).next_index()];
                let record = final(self).report().records@.last();
                &&& final(self).report().records@.len() == old(self).report().records@.len() + 1
                &&& final(self).report().records@.drop_last() == old(self).report().records@
                &&& record.path@ == (old(self).pending()->0).0
                &&& record.action == (old(self).pending()->0).1
                &&& record.category == entry.item.category
                &&& record.bytes == entry.item.bytes
                &&& match result {
                    Ok(()) => record.result == Ok::<(), ExecutionFailure>(()),
                    Err(m) => record.result == Err::<(), ExecutionFailure>(ExecutionFailure::Backend(m)),
                }
            }),
    {
        let pending = self.pending.take();
        let (path, action) = match pending {
            Some(p) => p,
            None => {
                return;
            },
        };
        let entry = &self.plan.items[self.next];
        let record = ExecutionRecord {
            path,
            category: entry.item.category,
            action,
            bytes: entry.item.bytes,
            result: match result {
                Ok(()) => Ok(()),
                Err(m) => Err(ExecutionFailure::Backend(m)),
            },
        };
        let ghost source = self.next as int;
        let ghost before = self.report.records@;
        self.report.records.push(record);
        assert(self.report.records@.drop_last() =~= before);
        self.sources = Ghost(self.sources@.push(source));
        proof {
            lemma_count_selected_step(self.plan.items@, self.next as int);
        }
        self.advance();
    }

    /// The report; complete once nothing is left to check.
    pub fn into_report(self) -> (report: ExecutionReport)
        ensures
            report == self.report(),
    {
        self.report
    }
}

impl CleanupExecutor {
    /// Carries out `plan`: refused when destructive actions are disabled.
    /// Otherwise each selected entry, in plan order, is checked against what
    /// `observe` reports now for its path and for each allowed root
    /// (`Planner::validate_item_for_execution`), then moved to the Trash or deleted
    /// by `backend` as `action_policy` says, stopping before the next entry once
    /// `cancellation` is raised. Every selected entry gets one record unless the
    /// run was cancelled.
    pub fn execute<B: CleanupBackend, F: Fn(&str) -> PathObservation>(
        plan: &CleanupPlan,
        execution_policy: &ExecutionPolicy,
        action_policy: &CategoryActionPolicy,
        cancellation: &CancellationToken,
        backend: &B,
        observe: F,
    ) -> (r: Result<ExecutionReport, SafetyError>)
        requires
            forall|p: &str| call_requires(observe, (p,)),
        ensures
            !execution_policy.destructive_actions_enabled ==> r == Err::<ExecutionReport, SafetyError>(
                SafetyError::DestructiveActionsDisabled,
            ),
            execution_policy.destructive_actions_enabled ==> r is Ok && follows_plan(
                r->Ok_0.records@,
                plan.items@,
                *action_policy,
                *execution_policy,
            ) && (!r->Ok_0.cancelled ==> r->Ok_0.records@.len() == count_selected(plan.items@))
                && (exists|n: int|
                run_covers_prefix(
                    r->Ok_0.records@,
                    plan.items@,
                    *action_policy,
                    *execution_policy,
                    observe,
                    backend,
                    n,
                )) && (!r->Ok_0.cancelled ==> run_covers_prefix(
                r->Ok_0.records@,
                plan.items@,
                *action_policy,
                *execution_policy,
                observe,
                backend,
                plan.items@.len() as int,
            )),
    {
        let mut run = match Self::start(plan, execution_policy, action_policy) {
            Err(e) => {
                return Err(e);
            },
            Ok(run) => run,
        };
        loop
            invariant
                run.wf(),
                run.plan() == *plan,
                run.execution_policy() == *execution_policy,
                run.action_policy() == *action_policy,
                run.pending() is None,
                forall|p: &str| call_requires(observe, (p,)),
                forall|k: int|
                    0 <= k < run.report().records@.len() ==> record_from_run(
                        #[trigger] run.report().records@[k],
                        plan.items@[run.sources()[k]].item,
                        *action_policy,
                        *execution_policy,
                        observe,
                        backend,
                    ),
            ensures
                run.wf(),
                run.plan() == *plan,
                run.execution_policy() == *execution_policy,
                run.action_policy() == *action_policy,
                run.pending() is None,
                run.report().cancelled || run.next_index() >= plan.items@.len(),
                forall|k: int|
                    0 <= k < run.report().records@.len() ==> record_from_run(
                        #[trigger] run.report().records@[k],
                        plan.items@[run.sources()[k]].item,
                        *action_policy,
                        *execution_policy,
                        observe,
                        backend,
                    ),
            decreases plan.items@.len() - run.next_index(),
        {
            let path = match run.item_to_check() {
                None => {
                    break;
                },
                Some(entry) => entry.item.path.clone(),
            };
            if cancellation.is_cancelled() {
                run.cancel();
                break;
            }
            let ghost before = run.next_index();
            let ghost before_records = run.report().records@;
            let ghost before_sources = run.sources();
            let ghost entry = plan.items@[before];
            let item = observe(path.as_str());
            assert(observed_as(observe, entry.item.path@, item));
            let mut roots: Vec<PathObservation> = Vec::new();
            let mut i: usize = 0;
            while i < execution_policy.allowed_roots.len()
                invariant
                    i <= execution_policy.allowed_roots@.len(),
                    roots@.len() == i,
                    forall|p: &str| call_requires(observe, (p,)),
                    forall|j: int|
                        0 <= j < i ==> observed_as(
                            observe,
                            execution_policy.allowed_roots@[j].path@,
                            #[trigger] roots@[j],
                        ),
                decreases execution_policy.allowed_roots@.len() - i,
            {
                let root_path = execution_policy.allowed_roots[i].path.as_str();
                let seen = observe(root_path);
                assert(observed_as(observe, execution_policy.allowed_roots@[i as int].path@, seen));
                roots.push(seen);
                i = i + 1;
            }
            let ghost obs_item = item;
            let ghost obs_roots = roots@;
            run.check_next(false, &ItemObservation { item, roots });
            let ghost verdict = spec_validate_item(entry.item, *execution_policy, obs_item, obs_roots);
            let pending = match run.pending_action() {
                Some((action, target)) => Some((action, target.to_owned())),
                None => None,
            };
            match pending {
                Some((action, target)) => {
                    let result = match action {
                        CleanupAction::MoveToTrash => {
                            let t = target.as_str();
                            let answer = backend.move_to_trash(t);
                            assert(trash_answered(backend, target@, answer));
                            answer
                        },
                        CleanupAction::PermanentDelete => {
                            let t = target.as_str();
                            let answer = backend.permanent_delete(t);
                            assert(delete_answered(backend, target@, answer));
                            answer
                        },
                    };
                    assert(backend_answered(backend, action, target@, result));
                    run.record_backend_result(result);
                    proof {
                        let records = run.report().records@;
                        let rec = records[records.len() - 1];
                        assert(verdict == Ok::<Seq<char>, SafetyError>(target@));
                        assert(rec.path@ == target@);
                        assert(rec.action == action);
                        assert(rec.result == answer_result(result));
                        assert(backend_answered(backend, rec.action, target@, result));
                        assert(record_from_run(
                            records[records.len() - 1],
                            entry.item,
                            *action_policy,
                            *execution_policy,
                            observe,
                            backend,
                        ));
                    }
                },
                None => {
                    proof {
                        if verdict is Err {
                            let records = run.report().records@;
                            assert(record_from_run(
                                records[records.len() - 1],
                                entry.item,
                                *action_policy,
                                *execution_policy,
                                observe,
                                backend,
                            ));
                        }
                    }
                },
            }
            proof {
                lemma_next_selected(plan.items@, before + 1);
                let records = run.report().records@;
                assert forall|k: int| 0 <= k < records.len() implies record_from_run(
                    #[trigger] records[k],
                    plan.items@[run.sources()[k]].item,
                    *action_policy,
                    *execution_policy,
                    observe,
                    backend,
                ) by {
                    if k < before_records.len() {
                        assert(records[k] == before_records[k]);
                        assert(run.sources()[k] == before_sources[k]);
                    } else {
                        assert(run.sources()[k] == before);
                    }
                }
            }
        }
        let report = run.into_report();
        proof {
            assert(records_follow(
                report.records@,
                plan.items@,
                *action_policy,
                *execution_policy,
                run.sources(),
            ));
            assert(run_covers_prefix(
                report.records@,
                plan.items@,
                *action_policy,
                *execution_policy,
                observe,
                backend,
                run.next_index(),
            ));
            if !report.cancelled {
                assert(plan.items@.take(plan.items@.len() as int) =~= plan.items@);
            }
        }
        Ok(report)
    }

    /// Starts carrying out `plan`. Refused when destructive actions are disabled;
    /// otherwise the run starts at the first selected entry, with an empty report.
    pub fn start<'a>(
        plan: &'a CleanupPlan,
        execution_policy: &'a ExecutionPolicy,
        action_policy: &'a CategoryActionPolicy,
    ) -> (r: Result<CleanupExecution<'a>, SafetyError>)
        ensures
            !execution_policy.destructive_actions_enabled ==> r == Err::<CleanupExecution<'a>, SafetyError>(
                SafetyError::DestructiveActionsDisabled,
            ),
            execution_policy.destructive_actions_enabled ==> r is Ok && ({
                let run = r->Ok_0;
                &&& run.wf()
                &&& run.plan() == *plan
                &&& run.execution_policy() == *execution_policy
                &&& run.action_policy() == *action_policy
                &&& run.report().records@.len() == 0
                &&& !run.report().cancelled
                &&& run.pending() is None
                &&& run.next_index() == next_selected(plan.items@, 0)
            }),
    {
        if !execution_policy.destructive_actions_enabled {
            return Err(SafetyError::DestructiveActionsDisabled);
        }
        proof {
            lemma_next_selected(plan.items@, 0);
        }
        let mut i: usize = 0;
        while i < plan.items.len() && !plan.items[i].selected
            invariant
                i <= plan.items@.len(),
                next_selected(plan.items@, 0) == next_selected(plan.items@, i as int),
            decreases plan.items@.len() - i,
        {
            i = i + 1;
        }
        proof {
            lemma_next_selected(plan.items@, i as int);
            lemma_next_selected(plan.items@, 0);
            lemma_count_selected_skip(plan.items@, 0, i as int);
            assert(plan.items@.take(0) =~= Seq::<CleanupPlanItem>::empty());
        }
        Ok(
            CleanupExecution {
                plan,
                execution_policy,
                action_policy,
                next: i,
                pending: None,
                report: ExecutionReport { records: Vec::new(), cancelled: false },
                sources: Ghost(Seq::empty()),
            },
        )
    }
}

} // verus!
