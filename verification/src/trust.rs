//! What the interface may claim about a scan's coverage and a cleanup's outcome.
use vstd::prelude::*;

use crate::action_policy::CleanupAction;
use crate::executor::{
    ExecutionOutcome, ExecutionReport, bytes_with, count_outcome, outcome_counts_partition_records,
};
use crate::mac_platform::{FullDiskAccessReport, PermissionStatus};

verus! {

/// How much of the disk a scan could see.
#[derive(Debug, Clone, Copy, PartialEq, Eq, Structural)]
pub enum ScanCoverage {
    Full,
    Partial,
    Unknown,
}

impl ScanCoverage {
    pub open spec fn spec_label(self) -> Seq<char> {
        match self {
            ScanCoverage::Full => "Full scan"@,
            ScanCoverage::Partial => "Partial scan"@,
            ScanCoverage::Unknown => "Scan coverage unknown"@,
        }
    }

    pub fn label(self) -> (r: &'static str)
        ensures
            r@ == self.spec_label(),
    {
        match self {
            ScanCoverage::Full => "Full scan",
            ScanCoverage::Partial => "Partial scan",
            ScanCoverage::Unknown => "Scan coverage unknown",
        }
    }
}

/// The coverage of a scan: partial as soon as a path was denied; otherwise full
/// only with Full Disk Access granted, partial with it denied, unknown when it
/// is unknown or was not probed.
pub open spec fn spec_scan_coverage(fda: Option<PermissionStatus>, permission_denied_paths: nat) -> ScanCoverage {
    if permission_denied_paths > 0 {
        ScanCoverage::Partial
    } else {
        match fda {
            Some(PermissionStatus::Granted) => ScanCoverage::Full,
            Some(PermissionStatus::Denied) => ScanCoverage::Partial,
            _ => ScanCoverage::Unknown,
        }
    }
}

/// The coverage of a scan that met `permission_denied_paths` denied paths, with
/// what is known of Full Disk Access.
pub fn scan_coverage(full_disk_access: Option<&FullDiskAccessReport>, permission_denied_paths: usize) -> (r:
    ScanCoverage)
    ensures
        r == spec_scan_coverage(
            match full_disk_access {
                Some(report) => Some(report.status),
                None => None,
            },
            permission_denied_paths as nat,
        ),
{
    if permission_denied_paths > 0 {
        return ScanCoverage::Partial;
    }
    match full_disk_access {
        Some(report) => match report.status {
            PermissionStatus::Granted => ScanCoverage::Full,
            PermissionStatus::Denied => ScanCoverage::Partial,
            PermissionStatus::Unknown => ScanCoverage::Unknown,
        },
        None => ScanCoverage::Unknown,
    }
}

/// A cleanup's outcome as the interface shows it: how many items ended each way,
/// the scan estimate of what moved to the Trash, nothing claimed as reclaimed,
/// and whether it was cancelled.
#[derive(Debug, Clone, Copy, PartialEq, Eq)]
pub struct ExecutionTrustSummary {
    pub executed: usize,
    pub missing: usize,
    pub changed_since_scan: usize,
    pub permission_denied: usize,
    pub protected: usize,
    pub failed: usize,
    pub moved_scan_estimate_bytes: u64,
    pub reclaimed_bytes: Option<u64>,
    pub cancelled: bool,
}

impl ExecutionTrustSummary {
    /// The summary of a report.
    pub fn from_report(report: &ExecutionReport) -> (s: Self)
        requires
            bytes_with(report.records@, CleanupAction::MoveToTrash) <= u64::MAX,
        ensures
            s.executed == count_outcome(report.records@, ExecutionOutcome::Executed),
            s.missing == count_outcome(report.records@, ExecutionOutcome::Missing),
            s.changed_since_scan == count_outcome(report.records@, ExecutionOutcome::ChangedSinceScan),
            s.permission_denied == count_outcome(report.records@, ExecutionOutcome::PermissionDenied),
            s.protected == count_outcome(report.records@, ExecutionOutcome::Protected),
            s.failed == count_outcome(report.records@, ExecutionOutcome::Failed),
            s.moved_scan_estimate_bytes == bytes_with(report.records@, CleanupAction::MoveToTrash),
            s.reclaimed_bytes is None,
            s.cancelled == report.cancelled,
            s.executed + s.missing + s.changed_since_scan + s.permission_denied + s.protected + s.failed
                == report.records@.len(),
    {
        let accounting = report.trash_accounting();
        proof {
            outcome_counts_partition_records(report.records@);
        }
        ExecutionTrustSummary {
            executed: report.outcome_count(ExecutionOutcome::Executed),
            missing: report.outcome_count(ExecutionOutcome::Missing),
            changed_since_scan: report.outcome_count(ExecutionOutcome::ChangedSinceScan),
            permission_denied: report.outcome_count(ExecutionOutcome::PermissionDenied),
            protected: report.outcome_count(ExecutionOutcome::Protected),
            failed: report.outcome_count(ExecutionOutcome::Failed),
            moved_scan_estimate_bytes: accounting.moved_scan_estimate_bytes,
            reclaimed_bytes: accounting.reclaimed_bytes,
            cancelled: report.cancelled,
        }
    }

    /// The number of items that need attention: every item that did not end
    /// moved.
    pub fn attention_count(self) -> (n: usize)
        requires
            self.missing + self.changed_since_scan + self.permission_denied + self.protected
                + self.failed <= usize::MAX,
        ensures
            n == self.missing + self.changed_since_scan + self.permission_denied + self.protected
                + self.failed,
    {
        self.missing + self.changed_since_scan + self.permission_denied + self.protected + self.failed
    }
}

} // verus!
