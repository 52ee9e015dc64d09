//! macOS platform decisions: Full Disk Access from read-only probes, and the
//! Trash's verdicts on paths it is asked to move.
use vstd::prelude::*;

use crate::executor::{ExecutionOutcome, backend_outcome};
use crate::path::{join_path, path_join};
use crate::planner::{EntryKind, opt_string_view};
use crate::text::{ascii_lowercase, concat_str, has_infix, trim_str, trim_ws};

verus! {

/// Whether the app holds a macOS privacy permission.
#[derive(Debug, Clone, Copy, PartialEq, Eq, Structural)]
pub enum PermissionStatus {
    Unknown,
    Granted,
    Denied,
}

/// What was learnt about Full Disk Access, and how.
#[derive(Debug, Clone, PartialEq, Eq)]
pub struct FullDiskAccessReport {
    pub status: PermissionStatus,
    pub probe_path: Option<String>,
    pub detail: String,
}

/// What listing one protected directory gave (`fs::read_dir`).
#[derive(Debug, Clone, PartialEq, Eq)]
pub enum ProbeResult {
    Missing,
    Granted,
    Denied,
    /// Any other error, with its text.
    Inconclusive(String),
}

/// The protected user-data directories probed, in order, under `home`.
pub open spec fn fda_probe_paths(home: Seq<char>) -> Seq<Seq<char>> {
    seq![
        path_join(home, "Library/Mail"@),
        path_join(home, "Library/Messages"@),
        path_join(home, "Library/Safari"@),
    ]
}

/// The protected directories to probe, in order, under `home`.
pub fn full_disk_access_probe_paths(home: &str) -> (r: Vec<String>)
    ensures
        crate::path::string_views(r@) == fda_probe_paths(home@),
{
    let v = vec![
        join_path(home, "Library/Mail"),
        join_path(home, "Library/Messages"),
        join_path(home, "Library/Safari"),
    ];
    assert(crate::path::string_views(v@) =~= fda_probe_paths(home@));
    v
}

/// The index of the first probe that found its directory, or the number of probes.
pub open spec fn first_present_probe(probes: Seq<ProbeResult>) -> int
    decreases probes.len(),
{
    if probes.len() == 0 {
        0
    } else if probes[0] != ProbeResult::Missing {
        0
    } else {
        1 + first_present_probe(probes.drop_first())
    }
}

proof fn lemma_first_present_probe(probes: Seq<ProbeResult>, k: int)
    requires
        0 <= k <= probes.len(),
        k < probes.len() ==> probes[k] != ProbeResult::Missing,
        forall|j: int| 0 <= j < k ==> probes[j] == ProbeResult::Missing,
    ensures
        first_present_probe(probes) == k,
    decreases probes.len(),
{
    if probes.len() > 0 && k > 0 {
        assert forall|j: int| 0 <= j < k - 1 implies probes.drop_first()[j] == ProbeResult::Missing by {
            assert(probes.drop_first()[j] == probes[j + 1]);
        }
        lemma_first_present_probe(probes.drop_first(), k - 1);
    }
}

/// The model of a report: status, probed path, detail.
pub open spec fn fda_view(r: FullDiskAccessReport) -> (PermissionStatus, Option<Seq<char>>, Seq<char>) {
    (r.status, opt_string_view(r.probe_path), r.detail@)
}

/// What the probes say: off macOS, or without a home, nothing is known; otherwise
/// the first probe that found its directory decides (listed: granted; refused:
/// denied; any other error: unknown), and when none found one nothing is known.
pub open spec fn spec_full_disk_access(
    home: Option<Seq<char>>,
    on_macos: bool,
    probes: Seq<ProbeResult>,
) -> (PermissionStatus, Option<Seq<char>>, Seq<char>) {
    if !on_macos {
        (PermissionStatus::Unknown, None, "Full Disk Access is only available on macOS"@)
    } else {
        match home {
            None => (
                PermissionStatus::Unknown,
                None,
                "HOME is not set; Full Disk Access could not be probed"@,
            ),
            Some(h) => {
                let k = first_present_probe(probes);
                if k >= probes.len() {
                    (
                        PermissionStatus::Unknown,
                        None,
                        "no protected probe directory exists for this user; status is unknown"@,
                    )
                } else {
                    let path = fda_probe_paths(h)[k];
                    match probes[k] {
                        ProbeResult::Granted => (
                            PermissionStatus::Granted,
                            Some(path),
                            "read-only probe succeeded for a protected user-data directory"@,
                        ),
                        ProbeResult::Denied => (
                            PermissionStatus::Denied,
                            Some(path),
                            "read-only probe was denied for a protected user-data directory"@,
                        ),
                        ProbeResult::Inconclusive(e) => (
                            PermissionStatus::Unknown,
                            Some(path),
                            "Full Disk Access probe was inconclusive: "@ + e@,
                        ),
                        ProbeResult::Missing => (PermissionStatus::Unknown, None, Seq::empty()),
                    }
                }
            },
        }
    }
}

/// Decides Full Disk Access. `on_macos` is whether this runs on macOS; `home` is
/// the user's home, if known; `probes` holds what listing each directory of
/// `full_disk_access_probe_paths` gave, in order.
pub fn probe_full_disk_access(home: Option<&str>, on_macos: bool, probes: &Vec<ProbeResult>) -> (r:
    FullDiskAccessReport)
    requires
        on_macos && home is Some ==> probes@.len() == 3,
    ensures
        fda_view(r) == spec_full_disk_access(crate::safety::opt_view(home), on_macos, probes@),
{
    if !on_macos {
        return FullDiskAccessReport {
            status: PermissionStatus::Unknown,
            probe_path: None,
            detail: "Full Disk Access is only available on macOS".to_owned(),
        };
    }
    let home_dir = match home {
        None => {
            return FullDiskAccessReport {
                status: PermissionStatus::Unknown,
                probe_path: None,
                detail: "HOME is not set; Full Disk Access could not be probed".to_owned(),
            };
        },
        Some(h) => h,
    };
    let paths = full_disk_access_probe_paths(home_dir);
    assert(crate::path::string_views(paths@).len() == paths@.len());
    let mut i: usize = 0;
    while i < probes.len()
        invariant
            i <= probes@.len(),
            probes@.len() == 3,
            paths@.len() == 3,
            on_macos,
            home == Some(home_dir),
            crate::path::string_views(paths@) == fda_probe_paths(home_dir@),
            forall|j: int| 0 <= j < i ==> probes@[j] == ProbeResult::Missing,
        decreases probes@.len() - i,
    {
        match &probes[i] {
            ProbeResult::Missing => {},
            ProbeResult::Granted => {
                proof {
                    lemma_first_present_probe(probes@, i as int);
                }
                return FullDiskAccessReport {
                    status: PermissionStatus::Granted,
                    probe_path: Some(paths[i].clone()),
                    detail: "read-only probe succeeded for a protected user-data directory".to_owned(),
                };
            },
            ProbeResult::Denied => {
                proof {
                    lemma_first_present_probe(probes@, i as int);
                }
                return FullDiskAccessReport {
                    status: PermissionStatus::Denied,
                    probe_path: Some(paths[i].clone()),
                    detail: "read-only probe was denied for a protected user-data directory".to_owned(),
                };
            },
            ProbeResult::Inconclusive(error) => {
                proof {
                    lemma_first_present_probe(probes@, i as int);
                }
                return FullDiskAccessReport {
                    status: PermissionStatus::Unknown,
                    probe_path: Some(paths[i].clone()),
                    detail: concat_str("Full Disk Access probe was inconclusive: ", error.as_str()),
                };
            },
        }
        i = i + 1;
    }
    proof {
        lemma_first_present_probe(probes@, probes@.len() as int);
    }
    FullDiskAccessReport {
        status: PermissionStatus::Unknown,
        probe_path: None,
        detail: "no protected probe directory exists for this user; status is unknown".to_owned(),
    }
}

/// What the Trash says before moving a path, from what the file system reports
/// for it: a vanished path is skipped, an unreadable one fails with the error's
/// text, a symlink is refused; anything else may be moved.
pub open spec fn spec_trash_preflight(entry: EntryKind, error_text: Seq<char>) -> Result<(), Seq<char>> {
    match entry {
        EntryKind::Missing => Err("move to Trash skipped: path no longer exists"@),
        EntryKind::PermissionDenied | EntryKind::Unreadable => Err(
            "move to Trash preflight failed: "@ + error_text,
        ),
        EntryKind::Symlink => Err("move to Trash rejected: path is a symlink"@),
        _ => Ok(()),
    }
}

/// The Trash's check before moving a path. `entry` is what `fs::symlink_metadata`
/// reports; `error_text` the text of its error, where it failed.
pub fn trash_preflight(entry: EntryKind, error_text: &str) -> (r: Result<(), String>)
    ensures
        crate::launch_agent::text_result_view(r) == spec_trash_preflight(entry, error_text@),
{
    match entry {
        EntryKind::Missing => Err("move to Trash skipped: path no longer exists".to_owned()),
        EntryKind::PermissionDenied | EntryKind::Unreadable => Err(
            concat_str("move to Trash preflight failed: ", error_text),
        ),
        EntryKind::Symlink => Err("move to Trash rejected: path is a symlink".to_owned()),
        _ => Ok(()),
    }
}

/// The error of a move that Finder failed: a path that vanished meanwhile says
/// so; otherwise the exit status, with what Finder wrote to its error stream,
/// trimmed, when it wrote anything.
pub open spec fn spec_finder_failure(vanished: bool, status: Seq<char>, stderr: Seq<char>) -> Seq<char> {
    if vanished {
        "move to Trash failed: path disappeared before Finder could move it"@
    } else if trim_ws(stderr).len() == 0 {
        "move to Trash failed with status "@ + status
    } else {
        "move to Trash failed with status "@ + status + ": "@ + trim_ws(stderr)
    }
}

/// The error of a move that Finder failed. `vanished` is whether the path is now
/// gone; `status` the exit status as text; `stderr` what Finder wrote.
pub fn finder_failure_message(vanished: bool, status: &str, stderr: &str) -> (r: String)
    ensures
        r@ == spec_finder_failure(vanished, status@, stderr@),
{
    if vanished {
        return "move to Trash failed: path disappeared before Finder could move it".to_owned();
    }
    let trimmed = trim_str(stderr);
    let head = concat_str("move to Trash failed with status ", status);
    if trimmed.as_str().unicode_len() == 0 {
        head
    } else {
        let t = concat_str(head.as_str(), ": ");
        concat_str(t.as_str(), trimmed.as_str())
    }
}

/// A path the Trash found gone, before or while moving it, is reported as
/// skipped, not as a failure.
pub proof fn vanished_paths_are_reported_missing(status: Seq<char>, stderr: Seq<char>)
    ensures
        backend_outcome(spec_trash_preflight(EntryKind::Missing, Seq::empty())->Err_0)
            == ExecutionOutcome::Missing,
        backend_outcome(spec_finder_failure(true, status, stderr)) == ExecutionOutcome::Missing,
{
    reveal_strlit("move to Trash skipped: path no longer exists");
    reveal_strlit("path no longer exists");
    reveal_strlit("move to Trash failed: path disappeared before Finder could move it");
    reveal_strlit("path disappeared before finder");
    let a = ascii_lowercase("move to Trash skipped: path no longer exists"@);
    let gone = "path no longer exists"@;
    assert(a.subrange(23int, 23int + gone.len()) =~= gone);
    assert(has_infix(a, "path no longer exists"@));
    let b = ascii_lowercase("move to Trash failed: path disappeared before Finder could move it"@);
    let raced = "path disappeared before finder"@;
    assert(b.subrange(22int, 22int + raced.len()) =~= raced);
    assert(has_infix(b, "path disappeared before finder"@));
}

/// Permanent deletion stays locked on macOS: it would need anchored, no-follow
/// file-system mutation, which the cleaner does not have.
pub fn permanent_delete_locked(path: &str) -> (r: Result<(), String>)
    ensures
        crate::launch_agent::text_result_view(r) == Err::<(), Seq<char>>(
            "permanent delete safety lock: requires anchored no-follow filesystem mutation"@,
        ),
{
    Err("permanent delete safety lock: requires anchored no-follow filesystem mutation".to_owned())
}

} // verus!
