//! Carrying out a reviewed uninstall plan: what was reviewed is pinned, a plan or
//! an application that changed since is refused, and items go to the Trash related
//! files first, the application bundle last.
//!
//! Uninstall plans are of macOS applications, found by the macOS inventory and
//! related-file search: their paths are read as Unix paths and checked against
//! the Unix broad roots.
use vstd::prelude::*;
use vstd::multiset::Multiset;

use crate::app_inventory::{ApplicationLocation, InstalledApplication};
use crate::app_protection::{ApplicationProtectionPolicy, spec_protection_reasons};
use crate::cancellation::CancellationToken;
use crate::executor::{TrashBackend, observed_as, trash_answered};
use crate::path::{
    path_has_root, path_parts, path_starts_with, paths_equal, same_path, starts_with_path,
    string_views,
};
use crate::planner::{EntryKind, PathObservation, opt_string_view};
use crate::related_files::{RelatedFileCandidate, RelatedFileKind, RelatedFileReport};
use crate::safety::{
    is_protected_broad_root, is_protected_resolved, is_protected_resolved_path,
    spec_is_protected_broad_root,
};
use crate::text::str_eq;
use crate::uninstall_plan::{UninstallPlan, UninstallPlanItem, UninstallPlanItemKind};

verus! {

broadcast use vstd::seq_lib::group_to_multiset_ensures;

/// Why an uninstall was refused or stopped.
#[derive(Debug, Clone, PartialEq, Eq)]
pub enum UninstallExecutionError {
    ProtectedApplication,
    StalePlan,
    MissingPath(String),
    MissingEvidence(String),
    OutsideExecutionRoot(String),
    ExecutionRootChanged(String),
    Symlink(String),
    PathChanged(String),
    UnexpectedEntryType(String),
    ProtectedRoot(String),
}

/// The model of an uninstall error.
pub enum UninstallFailure {
    ProtectedApplication,
    StalePlan,
    MissingPath(Seq<char>),
    MissingEvidence(Seq<char>),
    OutsideExecutionRoot(Seq<char>),
    ExecutionRootChanged(Seq<char>),
    Symlink(Seq<char>),
    PathChanged(Seq<char>),
    UnexpectedEntryType(Seq<char>),
    ProtectedRoot(Seq<char>),
}

impl View for UninstallExecutionError {
    type V = UninstallFailure;

    open spec fn view(&self) -> UninstallFailure {
        match self {
            UninstallExecutionError::ProtectedApplication => UninstallFailure::ProtectedApplication,
            UninstallExecutionError::StalePlan => UninstallFailure::StalePlan,
            UninstallExecutionError::MissingPath(p) => UninstallFailure::MissingPath(p@),
            UninstallExecutionError::MissingEvidence(p) => UninstallFailure::MissingEvidence(p@),
            UninstallExecutionError::OutsideExecutionRoot(p) => UninstallFailure::OutsideExecutionRoot(
                p@,
            ),
            UninstallExecutionError::ExecutionRootChanged(p) => UninstallFailure::ExecutionRootChanged(
                p@,
            ),
            UninstallExecutionError::Symlink(p) => UninstallFailure::Symlink(p@),
            UninstallExecutionError::PathChanged(p) => UninstallFailure::PathChanged(p@),
            UninstallExecutionError::UnexpectedEntryType(p) => UninstallFailure::UnexpectedEntryType(
                p@,
            ),
            UninstallExecutionError::ProtectedRoot(p) => UninstallFailure::ProtectedRoot(p@),
        }
    }
}

/// Whether a file system entry has the type that an item of `kind` must have:
/// preferences are files; bundles and every other related item are directories.
pub open spec fn entry_matches_kind(entry: EntryKind, kind: UninstallPlanItemKind) -> bool {
    match kind {
        UninstallPlanItemKind::RelatedFile(RelatedFileKind::Preference) => entry == EntryKind::File,
        _ => entry == EntryKind::Directory,
    }
}

/// What checking `path` against the file system gives: what it resolves to, or the
/// first rule it breaks, in this order: it is a protected broad root; it is missing;
/// its metadata cannot be read; it is a symlink; its entry type does not fit the
/// item; it no longer resolves; what it resolves to is a protected broad root.
pub open spec fn spec_check_uninstall_path(
    path: Seq<char>,
    kind: UninstallPlanItemKind,
    now: PathObservation,
) -> Result<Seq<char>, UninstallFailure> {
    if spec_is_protected_broad_root(path, opt_string_view(now.canonical)) {
        Err(UninstallFailure::ProtectedRoot(path))
    } else if now.entry == EntryKind::Missing {
        Err(UninstallFailure::MissingPath(path))
    } else if now.entry == EntryKind::PermissionDenied || now.entry == EntryKind::Unreadable {
        Err(UninstallFailure::PathChanged(path))
    } else if now.entry == EntryKind::Symlink {
        Err(UninstallFailure::Symlink(path))
    } else if !entry_matches_kind(now.entry, kind) {
        Err(UninstallFailure::UnexpectedEntryType(path))
    } else {
        match now.canonical {
            None => Err(UninstallFailure::PathChanged(path)),
            Some(c) => if is_protected_resolved(c@) {
                Err(UninstallFailure::ProtectedRoot(c@))
            } else {
                Ok(c@)
            },
        }
    }
}

/// The model of a checked path.
pub open spec fn check_view(r: Result<String, UninstallExecutionError>) -> Result<
    Seq<char>,
    UninstallFailure,
> {
    match r {
        Ok(p) => Ok(p@),
        Err(e) => Err(e@),
    }
}

fn entry_fits(entry: EntryKind, kind: UninstallPlanItemKind) -> (r: bool)
    ensures
        r == entry_matches_kind(entry, kind),
{
    match kind {
        UninstallPlanItemKind::RelatedFile(RelatedFileKind::Preference) => match entry {
            EntryKind::File => true,
            _ => false,
        },
        _ => match entry {
            EntryKind::Directory => true,
            _ => false,
        },
    }
}

/// Checks `path`, an item of `kind`, against what the file system reports now
/// (`observed`), and gives what it resolves to.
pub fn validate_and_canonicalize(
    path: &str,
    kind: UninstallPlanItemKind,
    observed: &PathObservation,
) -> (r: Result<String, UninstallExecutionError>)
    ensures
        check_view(r) == spec_check_uninstall_path(path@, kind, *observed),
{
    let resolved = match &observed.canonical {
        Some(c) => Some(c.as_str()),
        None => None,
    };
    if is_protected_broad_root(path, resolved) {
        return Err(UninstallExecutionError::ProtectedRoot(path.to_owned()));
    }
    match observed.entry {
        EntryKind::Missing => {
            return Err(UninstallExecutionError::MissingPath(path.to_owned()));
        },
        EntryKind::PermissionDenied | EntryKind::Unreadable => {
            return Err(UninstallExecutionError::PathChanged(path.to_owned()));
        },
        EntryKind::Symlink => {
            return Err(UninstallExecutionError::Symlink(path.to_owned()));
        },
        _ => {},
    }
    if !entry_fits(observed.entry, kind) {
        return Err(UninstallExecutionError::UnexpectedEntryType(path.to_owned()));
    }
    match &observed.canonical {
        None => Err(UninstallExecutionError::PathChanged(path.to_owned())),
        Some(c) => {
            if is_protected_resolved_path(c.as_str()) {
                Err(UninstallExecutionError::ProtectedRoot(c.clone()))
            } else {
                Ok(c.clone())
            }
        },
    }
}

/// The model of a pinned item: the path as planned, what it resolved to when it
/// was pinned, its kind, and for a related file the execution root it was pinned
/// under: the root's path and what the root resolved to.
pub struct PinModel {
    pub path: Seq<char>,
    pub canonical: Seq<char>,
    pub kind: UninstallPlanItemKind,
    pub root: Option<(Seq<char>, Seq<char>)>,
}

/// One selected item as it was pinned.
#[derive(Debug, Clone, PartialEq, Eq)]
pub struct PinnedUninstallItem {
    path: String,
    canonical_path: String,
    kind: UninstallPlanItemKind,
    root: Option<(String, String)>,
}

/// The model of a pinned execution root.
pub open spec fn root_pin_view(r: Option<(String, String)>) -> Option<(Seq<char>, Seq<char>)> {
    match r {
        Some((p, c)) => Some((p@, c@)),
        None => None,
    }
}

impl View for PinnedUninstallItem {
    type V = PinModel;

    closed spec fn view(&self) -> PinModel {
        PinModel {
            path: self.path@,
            canonical: self.canonical_path@,
            kind: self.kind,
            root: root_pin_view(self.root),
        }
    }
}

/// The models of a list of pinned items.
pub open spec fn pin_views(items: Seq<PinnedUninstallItem>) -> Seq<PinModel> {
    items.map_values(|p: PinnedUninstallItem| p@)
}

/// A Library folder under which related files of one kind may be moved to the
/// Trash.
#[derive(Debug, Clone, PartialEq, Eq)]
pub struct RelatedFileExecutionRoot {
    pub kind: RelatedFileKind,
    pub path: String,
}

/// Whether a fresh related-file search still backs `item`: the bundle needs no
/// evidence; a related file needs a candidate with the same path, kind and
/// confidence.
pub open spec fn has_fresh_evidence(fresh: Seq<RelatedFileCandidate>, item: UninstallPlanItem) -> bool {
    match item.spec_kind() {
        UninstallPlanItemKind::ApplicationBundle => true,
        UninstallPlanItemKind::RelatedFile(kind) => exists|i: int|
            0 <= i < fresh.len() && same_path((#[trigger] fresh[i]).path@, item.spec_path())
                && fresh[i].kind == kind && fresh[i].confidence == item.spec_confidence(),
    }
}

/// Whether `root`, as observed now (`now`), admits a related file of `kind` that
/// resolves to `target`: the root is of that kind, is a directory (not a symlink)
/// that resolves, and `target` lies strictly below what it resolves to.
pub open spec fn root_admits(
    root: RelatedFileExecutionRoot,
    now: PathObservation,
    kind: RelatedFileKind,
    target: Seq<char>,
) -> bool {
    &&& root.kind == kind
    &&& now.entry == EntryKind::Directory
    &&& now.canonical matches Some(rc) && path_starts_with(target, rc@) && !same_path(target, rc@)
}

/// Whether an item of `kind` that resolves to `target` lies under a pinned
/// execution root of its kind; the bundle needs none.
pub open spec fn under_execution_root(
    roots: Seq<RelatedFileExecutionRoot>,
    root_observed: Seq<PathObservation>,
    kind: UninstallPlanItemKind,
    target: Seq<char>,
) -> bool {
    match kind {
        UninstallPlanItemKind::ApplicationBundle => true,
        UninstallPlanItemKind::RelatedFile(k) => exists|j: int|
            0 <= j < roots.len() && #[trigger] root_admits(roots[j], root_observed[j], k, target),
    }
}

/// The first execution root, from index `j` on, that admits a related file of
/// `kind` resolving to `target`: its path and what it resolves to now.
pub open spec fn admitting_root_from(
    roots: Seq<RelatedFileExecutionRoot>,
    root_observed: Seq<PathObservation>,
    kind: RelatedFileKind,
    target: Seq<char>,
    j: int,
) -> Option<(Seq<char>, Seq<char>)>
    decreases roots.len() - j,
{
    if j < 0 || j >= roots.len() {
        None
    } else if root_admits(roots[j], root_observed[j], kind, target) {
        Some((roots[j].path@, root_observed[j].canonical->0@))
    } else {
        admitting_root_from(roots, root_observed, kind, target, j + 1)
    }
}

/// The execution root that an item of `kind` resolving to `target` is pinned
/// under: the first that admits it; none for the bundle.
pub open spec fn execution_root_of(
    roots: Seq<RelatedFileExecutionRoot>,
    root_observed: Seq<PathObservation>,
    kind: UninstallPlanItemKind,
    target: Seq<char>,
) -> Option<(Seq<char>, Seq<char>)> {
    match kind {
        UninstallPlanItemKind::ApplicationBundle => None,
        UninstallPlanItemKind::RelatedFile(k) => admitting_root_from(roots, root_observed, k, target, 0),
    }
}

/// Pinning one selected item: refused without fresh evidence, then by its path
/// check, then when what it resolves to lies under no execution root of its kind;
/// a related file is pinned with the first root of its kind that admits it.
pub open spec fn pin_item(
    item: UninstallPlanItem,
    fresh: Seq<RelatedFileCandidate>,
    roots: Seq<RelatedFileExecutionRoot>,
    root_observed: Seq<PathObservation>,
    now: PathObservation,
) -> Result<PinModel, UninstallFailure> {
    if !has_fresh_evidence(fresh, item) {
        Err(UninstallFailure::MissingEvidence(item.spec_path()))
    } else {
        match spec_check_uninstall_path(item.spec_path(), item.spec_kind(), now) {
            Err(e) => Err(e),
            Ok(c) => if under_execution_root(roots, root_observed, item.spec_kind(), c) {
                Ok(
                    PinModel {
                        path: item.spec_path(),
                        canonical: c,
                        kind: item.spec_kind(),
                        root: execution_root_of(roots, root_observed, item.spec_kind(), c),
                    },
                )
            } else {
                Err(UninstallFailure::OutsideExecutionRoot(item.spec_path()))
            },
        }
    }
}

/// Pinning the first `n` items: the selected ones, in plan order, each with what it
/// resolves to; or the error of the first selected one that cannot be pinned.
pub open spec fn pin_outcome_upto(
    items: Seq<UninstallPlanItem>,
    fresh: Seq<RelatedFileCandidate>,
    roots: Seq<RelatedFileExecutionRoot>,
    root_observed: Seq<PathObservation>,
    observed: Seq<PathObservation>,
    n: nat,
) -> Result<Seq<PinModel>, UninstallFailure>
    decreases n,
{
    if n == 0 {
        Ok(Seq::empty())
    } else {
        match pin_outcome_upto(items, fresh, roots, root_observed, observed, (n - 1) as nat) {
            Err(e) => Err(e),
            Ok(pins) => {
                let item = items[n - 1];
                if !item.spec_selected() {
                    Ok(pins)
                } else {
                    match pin_item(item, fresh, roots, root_observed, observed[n - 1]) {
                        Err(e) => Err(e),
                        Ok(pin) => Ok(pins.push(pin)),
                    }
                }
            },
        }
    }
}

/// Pinning every item of a plan, given a fresh related-file search, the execution
/// roots and what the file system reports for each root and each item.
pub open spec fn pin_outcome(
    items: Seq<UninstallPlanItem>,
    fresh: Seq<RelatedFileCandidate>,
    roots: Seq<RelatedFileExecutionRoot>,
    root_observed: Seq<PathObservation>,
    observed: Seq<PathObservation>,
) -> Result<Seq<PinModel>, UninstallFailure> {
    pin_outcome_upto(items, fresh, roots, root_observed, observed, items.len())
}

proof fn lemma_pin_error_persists(
    items: Seq<UninstallPlanItem>,
    fresh: Seq<RelatedFileCandidate>,
    roots: Seq<RelatedFileExecutionRoot>,
    root_observed: Seq<PathObservation>,
    observed: Seq<PathObservation>,
    n: nat,
    m: nat,
)
    requires
        n <= m,
        pin_outcome_upto(items, fresh, roots, root_observed, observed, n) is Err,
    ensures
        pin_outcome_upto(items, fresh, roots, root_observed, observed, m) == pin_outcome_upto(
            items,
            fresh,
            roots,
            root_observed,
            observed,
            n,
        ),
    decreases m - n,
{
    if n < m {
        lemma_pin_error_persists(items, fresh, roots, root_observed, observed, n, (m - 1) as nat);
    }
}

/// Whether `pin` comes from a selected item of `items` with fresh evidence, and
/// resolved under an execution root of its kind.
pub open spec fn pin_is_backed(
    items: Seq<UninstallPlanItem>,
    fresh: Seq<RelatedFileCandidate>,
    roots: Seq<RelatedFileExecutionRoot>,
    root_observed: Seq<PathObservation>,
    pin: PinModel,
) -> bool {
    exists|i: int|
        0 <= i < items.len() && (#[trigger] items[i]).spec_selected() && has_fresh_evidence(
            fresh,
            items[i],
        ) && pin.path == items[i].spec_path() && pin.kind == items[i].spec_kind()
            && under_execution_root(roots, root_observed, pin.kind, pin.canonical)
}

/// Every item pinned from the first `n` items is a selected item with fresh
/// evidence that resolved under an execution root of its kind.
pub proof fn pinned_items_are_backed(
    items: Seq<UninstallPlanItem>,
    fresh: Seq<RelatedFileCandidate>,
    roots: Seq<RelatedFileExecutionRoot>,
    root_observed: Seq<PathObservation>,
    observed: Seq<PathObservation>,
    n: nat,
)
    requires
        n <= items.len(),
        pin_outcome_upto(items, fresh, roots, root_observed, observed, n) is Ok,
    ensures
        forall|p: int|
            0 <= p < pin_outcome_upto(items, fresh, roots, root_observed, observed, n)->Ok_0.len()
                ==> pin_is_backed(
                items,
                fresh,
                roots,
                root_observed,
                #[trigger] pin_outcome_upto(items, fresh, roots, root_observed, observed, n)->Ok_0[p],
            ),
    decreases n,
{
    if n > 0 {
        let m = (n - 1) as nat;
        pinned_items_are_backed(items, fresh, roots, root_observed, observed, m);
        let before = pin_outcome_upto(items, fresh, roots, root_observed, observed, m)->Ok_0;
        let after = pin_outcome_upto(items, fresh, roots, root_observed, observed, n)->Ok_0;
        assert forall|p: int| 0 <= p < after.len() implies pin_is_backed(
            items,
            fresh,
            roots,
            root_observed,
            #[trigger] after[p],
        ) by {
            if p < before.len() {
                assert(after[p] == before[p]);
            } else {
                assert(items[n - 1].spec_selected());
            }
        }
    }
}

/// Whether a pinned item is the application bundle.
pub open spec fn is_bundle_pin(p: PinModel) -> bool {
    p.kind == UninstallPlanItemKind::ApplicationBundle
}

/// The pinned items that are (or are not) the application bundle, in order.
pub open spec fn pins_where(pins: Seq<PinModel>, bundle: bool) -> Seq<PinModel>
    decreases pins.len(),
{
    if pins.len() == 0 {
        Seq::empty()
    } else {
        let rest = pins_where(pins.drop_last(), bundle);
        if is_bundle_pin(pins.last()) == bundle {
            rest.push(pins.last())
        } else {
            rest
        }
    }
}

/// The order in which pinned items are moved: related data first and the
/// application bundle last, each group in plan order.
pub open spec fn trash_order(pins: Seq<PinModel>) -> Seq<PinModel> {
    pins_where(pins, false) + pins_where(pins, true)
}

proof fn lemma_pins_where(pins: Seq<PinModel>, bundle: bool)
    ensures
        forall|k: int|
            0 <= k < pins_where(pins, bundle).len() ==> is_bundle_pin(
                #[trigger] pins_where(pins, bundle)[k],
            ) == bundle,
        pins_where(pins, false).to_multiset().add(pins_where(pins, true).to_multiset())
            == pins.to_multiset(),
    decreases pins.len(),
{
    if pins.len() > 0 {
        lemma_pins_where(pins.drop_last(), bundle);
        lemma_pins_where(pins.drop_last(), !bundle);
        assert(pins.drop_last().push(pins.last()) =~= pins);
        assert(pins_where(pins, false).to_multiset().add(pins_where(pins, true).to_multiset())
            =~= pins.to_multiset());
    } else {
        assert(pins_where(pins, false).to_multiset() =~= Multiset::empty());
        assert(pins_where(pins, true).to_multiset() =~= Multiset::empty());
        assert(pins.to_multiset() =~= Multiset::empty());
    }
}

/// Moving in trash order moves exactly the pinned items, and once the application
/// bundle has been moved only the bundle is left to move.
pub proof fn trash_order_moves_the_bundle_last(pins: Seq<PinModel>)
    ensures
        trash_order(pins).to_multiset() == pins.to_multiset(),
        forall|k: int, l: int|
            0 <= k < l < trash_order(pins).len() && is_bundle_pin(#[trigger] trash_order(pins)[k])
                ==> is_bundle_pin(#[trigger] trash_order(pins)[l]),
{
    lemma_pins_where(pins, false);
    lemma_pins_where(pins, true);
    vstd::seq_lib::lemma_multiset_commutative(pins_where(pins, false), pins_where(pins, true));
    let a = pins_where(pins, false);
    let b = pins_where(pins, true);
    assert forall|k: int, l: int|
        0 <= k < l < trash_order(pins).len() && is_bundle_pin(
            #[trigger] trash_order(pins)[k],
        ) implies is_bundle_pin(#[trigger] trash_order(pins)[l]) by {
        if k < a.len() {
            assert(trash_order(pins)[k] == a[k]);
        }
        assert(trash_order(pins)[l] == b[l - a.len()]);
    }
}

/// The identity of a path as `Path` compares it: whether it is rooted, and its parts.
pub open spec fn path_key(p: Seq<char>) -> (bool, Seq<Seq<char>>) {
    (path_has_root(p), path_parts(p))
}

/// The identities of a list of paths.
pub open spec fn path_keys(paths: Seq<Seq<char>>) -> Seq<(bool, Seq<Seq<char>>)> {
    paths.map_values(|p: Seq<char>| path_key(p))
}

/// Whether two lists name the same paths the same number of times, in any order.
pub open spec fn same_paths_in_any_order(a: Seq<Seq<char>>, b: Seq<Seq<char>>) -> bool {
    path_keys(a).to_multiset() == path_keys(b).to_multiset()
}

/// The views of a list of string slices.
pub open spec fn str_views(v: Seq<&str>) -> Seq<Seq<char>> {
    v.map_values(|x: &str| x@)
}

/// Whether `a` and `b` name the same paths the same number of times.
pub fn same_path_lists(a: &Vec<String>, b: &Vec<String>) -> (r: bool)
    ensures
        r == same_paths_in_any_order(string_views(a@), string_views(b@)),
{
    let ghost ka = path_keys(string_views(a@));
    let ghost kb = path_keys(string_views(b@));
    assert(ka.len() == a@.len());
    assert(kb.len() == b@.len());
    if a.len() != b.len() {
        assert(ka.to_multiset().len() != kb.to_multiset().len());
        return false;
    }
    let mut remaining: Vec<&str> = Vec::new();
    let mut i: usize = 0;
    while i < b.len()
        invariant
            i <= b@.len(),
            str_views(remaining@) == string_views(b@).take(i as int),
        decreases b@.len() - i,
    {
        let ghost before = str_views(remaining@);
        remaining.push(b[i].as_str());
        assert(str_views(remaining@) =~= before.push(b@[i as int]@));
        assert(string_views(b@).take(i + 1) =~= string_views(b@).take(i as int).push(
            b@[i as int]@,
        ));
        i = i + 1;
    }
    assert(string_views(b@).take(b@.len() as int) =~= string_views(b@));
    let mut i: usize = 0;
    while i < a.len()
        invariant
            i <= a@.len(),
            a@.len() == b@.len(),
            remaining@.len() + i == b@.len(),
            ka == path_keys(string_views(a@)),
            kb == path_keys(string_views(b@)),
            ka.len() == a@.len(),
            path_keys(str_views(remaining@)).to_multiset().add(ka.take(i as int).to_multiset())
                == kb.to_multiset(),
        decreases a@.len() - i,
    {
        let target = a[i].as_str();
        let ghost key = path_key(target@);
        assert(ka[i as int] == key);
        let mut j: usize = 0;
        while j < remaining.len() && !paths_equal(remaining[j], target)
            invariant
                j <= remaining@.len(),
                key == path_key(target@),
                forall|k: int|
                    0 <= k < j ==> path_keys(str_views(remaining@))[k] != key,
            decreases remaining@.len() - j,
        {
            assert(path_keys(str_views(remaining@))[j as int] == path_key(remaining@[j as int]@));
            j = j + 1;
        }
        let ghost rk = path_keys(str_views(remaining@));
        assert(ka.take(i + 1) =~= ka.take(i as int).push(key));
        if j == remaining.len() {
            proof {
                assert(!rk.contains(key));
                assert(rk.to_multiset().count(key) == 0);
                vstd::seq_lib::lemma_multiset_commutative(ka.take(i + 1), ka.skip(i + 1));
                assert(ka.take(i + 1) + ka.skip(i + 1) =~= ka);
                assert(ka.to_multiset().count(key) >= ka.take(i + 1).to_multiset().count(key));
                assert(ka.to_multiset().count(key) != kb.to_multiset().count(key));
            }
            return false;
        }
        proof {
            assert(rk[j as int] == path_key(remaining@[j as int]@));
            assert(rk[j as int] == key);
        }
        let ghost old_remaining = remaining@;
        remaining.remove(j);
        proof {
            assert(str_views(remaining@) =~= str_views(old_remaining).remove(j as int));
            assert(path_keys(str_views(remaining@)) =~= rk.remove(j as int));
            assert(path_keys(str_views(remaining@)).to_multiset() =~= rk.to_multiset().remove(key));
            assert(path_keys(str_views(remaining@)).to_multiset().add(
                ka.take(i + 1).to_multiset(),
            ) =~= kb.to_multiset());
        }
        i = i + 1;
    }
    proof {
        assert(str_views(remaining@) =~= Seq::empty());
        assert(path_keys(str_views(remaining@)) =~= Seq::empty());
        assert(path_keys(str_views(remaining@)).to_multiset() =~= Multiset::empty());
        assert(ka.take(a@.len() as int) =~= ka);
        assert(Multiset::empty().add(ka.to_multiset()) =~= ka.to_multiset());
    }
    true
}

/// Whether no item that follows the application bundle is anything but the bundle.
pub open spec fn bundles_last(pins: Seq<PinModel>) -> bool {
    forall|k: int, l: int|
        0 <= k < l < pins.len() && is_bundle_pin(#[trigger] pins[k]) ==> is_bundle_pin(
            #[trigger] pins[l],
        )
}

/// The planned paths of a list of pinned items.
pub open spec fn pin_paths(pins: Seq<PinModel>) -> Seq<Seq<char>> {
    pins.map_values(|p: PinModel| p.path)
}

/// The paths of the selected items of a plan, in plan order.
pub open spec fn selected_item_paths(items: Seq<UninstallPlanItem>) -> Seq<Seq<char>>
    decreases items.len(),
{
    if items.len() == 0 {
        Seq::empty()
    } else if items.last().spec_selected() {
        selected_item_paths(items.drop_last()).push(items.last().spec_path())
    } else {
        selected_item_paths(items.drop_last())
    }
}

/// The application an uninstall was pinned for.
#[derive(Debug, Clone, PartialEq, Eq)]
struct ApplicationIdentity {
    path: String,
    location: ApplicationLocation,
    bundle_identifier: Option<String>,
}

fn clone_option_string(s: &Option<String>) -> (r: Option<String>)
    ensures
        opt_string_view(r) == opt_string_view(*s),
{
    match s {
        Some(v) => Some(v.clone()),
        None => None,
    }
}

impl ApplicationIdentity {
    fn from_application(application: &InstalledApplication) -> (id: Self)
        ensures
            id.path@ == application.path@,
            id.location == application.location,
            opt_string_view(id.bundle_identifier) == opt_string_view(
                application.metadata.bundle_identifier,
            ),
    {
        ApplicationIdentity {
            path: application.path.clone(),
            location: application.location,
            bundle_identifier: clone_option_string(&application.metadata.bundle_identifier),
        }
    }

    fn matches(&self, application: &InstalledApplication) -> (r: bool)
        ensures
            r == (same_path(self.path@, application.path@) && self.location == application.location
                && opt_string_view(self.bundle_identifier) == opt_string_view(
                application.metadata.bundle_identifier,
            )),
    {
        let same_identifier = match (&self.bundle_identifier, &application.metadata.bundle_identifier) {
            (Some(a), Some(b)) => str_eq(a.as_str(), b.as_str()),
            (None, None) => true,
            _ => false,
        };
        paths_equal(self.path.as_str(), application.path.as_str()) && self.location
            == application.location && same_identifier
    }
}

fn has_evidence(fresh: &RelatedFileReport, item: &UninstallPlanItem) -> (r: bool)
    ensures
        r == has_fresh_evidence(fresh.candidates@, *item),
{
    let kind = match item.kind() {
        UninstallPlanItemKind::ApplicationBundle => {
            return true;
        },
        UninstallPlanItemKind::RelatedFile(k) => k,
    };
    let candidates = &fresh.candidates;
    let mut i: usize = 0;
    while i < candidates.len()
        invariant
            i <= candidates@.len(),
            *candidates == fresh.candidates,
            item.spec_kind() == UninstallPlanItemKind::RelatedFile(kind),
            forall|j: int|
                0 <= j < i ==> !(same_path((#[trigger] candidates@[j]).path@, item.spec_path())
                    && candidates@[j].kind == kind && candidates@[j].confidence
                    == item.spec_confidence()),
        decreases candidates@.len() - i,
    {
        let c = &candidates[i];
        if paths_equal(c.path.as_str(), item.path()) && c.kind == kind && c.confidence
            == item.confidence() {
            return true;
        }
        i = i + 1;
    }
    false
}

fn under_root(
    roots: &Vec<RelatedFileExecutionRoot>,
    root_observed: &Vec<PathObservation>,
    kind: UninstallPlanItemKind,
    target: &str,
) -> (r: Option<Option<(String, String)>>)
    requires
        root_observed@.len() == roots@.len(),
    ensures
        r is Some == under_execution_root(roots@, root_observed@, kind, target@),
        r matches Some(rt) ==> root_pin_view(rt) == execution_root_of(
            roots@,
            root_observed@,
            kind,
            target@,
        ),
{
    let k = match kind {
        UninstallPlanItemKind::ApplicationBundle => {
            return Some(None);
        },
        UninstallPlanItemKind::RelatedFile(k) => k,
    };
    let mut j: usize = 0;
    while j < roots.len()
        invariant
            j <= roots@.len(),
            root_observed@.len() == roots@.len(),
            kind == UninstallPlanItemKind::RelatedFile(k),
            forall|i: int| 0 <= i < j ==> !#[trigger] root_admits(roots@[i], root_observed@[i], k, target@),
            admitting_root_from(roots@, root_observed@, k, target@, 0) == admitting_root_from(
                roots@,
                root_observed@,
                k,
                target@,
                j as int,
            ),
        decreases roots@.len() - j,
    {
        let now = &root_observed[j];
        let is_dir = match now.entry {
            EntryKind::Directory => true,
            _ => false,
        };
        if roots[j].kind == k && is_dir {
            match &now.canonical {
                Some(rc) => {
                    if starts_with_path(target, rc.as_str()) && !paths_equal(target, rc.as_str()) {
                        assert(root_admits(roots@[j as int], root_observed@[j as int], k, target@));
                        return Some(Some((roots[j].path.clone(), rc.clone())));
                    }
                },
                None => {},
            }
        }
        j = j + 1;
    }
    None
}

fn pin_one(
    item: &UninstallPlanItem,
    fresh: &RelatedFileReport,
    roots: &Vec<RelatedFileExecutionRoot>,
    root_observed: &Vec<PathObservation>,
    now: &PathObservation,
) -> (r: Result<PinnedUninstallItem, UninstallExecutionError>)
    requires
        root_observed@.len() == roots@.len(),
    ensures
        match pin_item(*item, fresh.candidates@, roots@, root_observed@, *now) {
            Ok(p) => r is Ok && r->Ok_0@ == p,
            Err(e) => r is Err && r->Err_0@ == e,
        },
{
    if !has_evidence(fresh, item) {
        return Err(UninstallExecutionError::MissingEvidence(item.path().to_owned()));
    }
    let c = match validate_and_canonicalize(item.path(), item.kind(), now) {
        Err(e) => {
            return Err(e);
        },
        Ok(c) => c,
    };
    let root = match under_root(roots, root_observed, item.kind(), c.as_str()) {
        None => {
            return Err(UninstallExecutionError::OutsideExecutionRoot(item.path().to_owned()));
        },
        Some(root) => root,
    };
    Ok(PinnedUninstallItem { path: item.path().to_owned(), canonical_path: c, kind: item.kind(), root })
}

/// What was reviewed, pinned before anything is moved: the application's
/// identity, and each selected item with what it resolved to, in the order the
/// items will be moved.
#[derive(Debug, PartialEq, Eq)]
pub struct UninstallExecutionPolicy {
    application: ApplicationIdentity,
    selected_paths: Vec<String>,
    pinned_items: Vec<PinnedUninstallItem>,
}

impl UninstallExecutionPolicy {
    #[verifier::type_invariant]
    spec fn policy_invariant(self) -> bool {
        &&& bundles_last(pin_views(self.pinned_items@))
        &&& string_views(self.selected_paths@) == pin_paths(pin_views(self.pinned_items@))
    }

    /// The pinned items, in the order they will be moved.
    pub closed spec fn pinned(&self) -> Seq<PinModel> {
        pin_views(self.pinned_items@)
    }

    /// The paths that were selected when the plan was pinned, in the order they
    /// will be moved.
    pub closed spec fn selected_paths(&self) -> Seq<Seq<char>> {
        string_views(self.selected_paths@)
    }

    /// The path of the application the plan was pinned for.
    pub closed spec fn application_path(&self) -> Seq<char> {
        self.application.path@
    }

    /// The location of the application the plan was pinned for.
    pub closed spec fn application_location(&self) -> ApplicationLocation {
        self.application.location
    }

    /// The bundle identifier of the application the plan was pinned for.
    pub closed spec fn application_bundle_identifier(&self) -> Option<Seq<char>> {
        opt_string_view(self.application.bundle_identifier)
    }

    /// Whether `app` is still the application the plan was pinned for: the same
    /// path, location and bundle identifier.
    pub open spec fn identifies(&self, app: InstalledApplication) -> bool {
        &&& same_path(self.application_path(), app.path@)
        &&& self.application_location() == app.location
        &&& self.application_bundle_identifier() == opt_string_view(app.metadata.bundle_identifier)
    }

    /// Pins `plan`, checking it against a fresh related-file search (`fresh`) and
    /// the execution roots of the related kinds (`roots`). `root_observed` holds
    /// what the file system reports now for each root; `observed` holds, for each
    /// item of the plan, what it reports for the item's path (only the entries of
    /// selected items are read). Refused for a protected application; otherwise
    /// with the first selected item, in plan order, that has no fresh evidence,
    /// fails its path check, or resolves under no execution root of its kind.
    pub fn pin(
        plan: &UninstallPlan,
        fresh: &RelatedFileReport,
        roots: &Vec<RelatedFileExecutionRoot>,
        root_observed: &Vec<PathObservation>,
        observed: &Vec<PathObservation>,
    ) -> (r: Result<Self, UninstallExecutionError>)
        requires
            observed@.len() == plan.spec_items().len(),
            root_observed@.len() == roots@.len(),
        ensures
            plan.spec_protection().spec_is_protected() ==> r is Err && r->Err_0@
                == UninstallFailure::ProtectedApplication,
            !plan.spec_protection().spec_is_protected() ==> match pin_outcome(
                plan.spec_items(),
                fresh.candidates@,
                roots@,
                root_observed@,
                observed@,
            ) {
                Err(e) => r is Err && r->Err_0@ == e,
                Ok(pins) => r is Ok && ({
                    let policy = r->Ok_0;
                    &&& policy.pinned() == trash_order(pins)
                    &&& policy.selected_paths() == pin_paths(trash_order(pins))
                    &&& policy.identifies(plan.spec_application())
                    &&& policy.application_path() == plan.spec_application().path@
                }),
            },
            r is Ok ==> forall|k: int|
                0 <= k < r->Ok_0.pinned().len() ==> pin_is_backed(
                    plan.spec_items(),
                    fresh.candidates@,
                    roots@,
                    root_observed@,
                    #[trigger] r->Ok_0.pinned()[k],
                ),
    {
        if plan.is_protected() {
            return Err(UninstallExecutionError::ProtectedApplication);
        }
        let items = plan.items();
        let n = items.len();
        let mut entries: Vec<PinnedUninstallItem> = Vec::new();
        let mut i: usize = 0;
        assert(pin_views(entries@) =~= Seq::empty());
        while i < n
            invariant
                !plan.spec_protection().spec_is_protected(),
                n == items@.len(),
                items@ == plan.spec_items(),
                observed@.len() == n,
                root_observed@.len() == roots@.len(),
                i <= n,
                pin_outcome_upto(items@, fresh.candidates@, roots@, root_observed@, observed@, i as nat)
                    == Ok::<Seq<PinModel>, UninstallFailure>(pin_views(entries@)),
            decreases n - i,
        {
            let item = &items[i];
            if item.is_selected() {
                match pin_one(item, fresh, roots, root_observed, &observed[i]) {
                    Err(e) => {
                        proof {
                            lemma_pin_error_persists(
                                items@,
                                fresh.candidates@,
                                roots@,
                                root_observed@,
                                observed@,
                                (i + 1) as nat,
                                n as nat,
                            );
                        }
                        return Err(e);
                    },
                    Ok(pinned) => {
                        let ghost before = pin_views(entries@);
                        entries.push(pinned);
                        assert(pin_views(entries@) =~= before.push(entries@.last()@));
                    },
                }
            }
            i = i + 1;
        }
        proof {
            pinned_items_are_backed(
                items@,
                fresh.candidates@,
                roots@,
                root_observed@,
                observed@,
                n as nat,
            );
        }
        let ghost pins = pin_views(entries@);
        let mut related: Vec<PinnedUninstallItem> = Vec::new();
        let mut bundles: Vec<PinnedUninstallItem> = Vec::new();
        for entry in it: entries
            invariant
                pin_views(it.seq()) == pins,
                pin_views(related@) == pins_where(pins.take(it.index() as int), false),
                pin_views(bundles@) == pins_where(pins.take(it.index() as int), true),
        {
            let ghost k = it.index() as int;
            assert(pins.take(k + 1).drop_last() =~= pins.take(k));
            assert(pins.take(k + 1).last() == entry@);
            let ghost before_related = pin_views(related@);
            let ghost before_bundles = pin_views(bundles@);
            match entry.kind {
                UninstallPlanItemKind::ApplicationBundle => {
                    bundles.push(entry);
                    assert(pin_views(bundles@) =~= before_bundles.push(entry@));
                },
                _ => {
                    related.push(entry);
                    assert(pin_views(related@) =~= before_related.push(entry@));
                },
            }
        }
        assert(pins.take(pins.len() as int) =~= pins);
        let ghost related_view = pin_views(related@);
        let ghost bundles_view = pin_views(bundles@);
        related.append(&mut bundles);
        assert(pin_views(related@) =~= related_view + bundles_view);
        proof {
            trash_order_moves_the_bundle_last(pins);
        }
        let mut selected_paths: Vec<String> = Vec::new();
        let mut j: usize = 0;
        while j < related.len()
            invariant
                j <= related@.len(),
                string_views(selected_paths@) == pin_paths(pin_views(related@)).take(j as int),
            decreases related@.len() - j,
        {
            let ghost before = string_views(selected_paths@);
            selected_paths.push(related[j].path.clone());
            assert(string_views(selected_paths@) =~= before.push(related@[j as int].path@));
            assert(pin_paths(pin_views(related@)).take(j + 1) =~= pin_paths(pin_views(related@)).take(
                j as int,
            ).push(related@[j as int].path@));
            j = j + 1;
        }
        assert(pin_paths(pin_views(related@)).take(related@.len() as int) =~= pin_paths(
            pin_views(related@),
        ));
        proof {
            broadcast use vstd::seq_lib::group_to_multiset_ensures;

            let all = pin_outcome_upto(
                items@,
                fresh.candidates@,
                roots@,
                root_observed@,
                observed@,
                n as nat,
            )->Ok_0;
            assert(all == pins);
            assert forall|k: int| 0 <= k < pin_views(related@).len() implies pin_is_backed(
                items@,
                fresh.candidates@,
                roots@,
                root_observed@,
                #[trigger] pin_views(related@)[k],
            ) by {
                let x = pin_views(related@)[k];
                assert(trash_order(pins).contains(x));
                assert(trash_order(pins).to_multiset().count(x) > 0);
                assert(pins.to_multiset().count(x) > 0);
                assert(pins.contains(x));
                let p = choose|p: int| 0 <= p < pins.len() && pins[p] == x;
                assert(pin_is_backed(items@, fresh.candidates@, roots@, root_observed@, pins[p]));
            }
        }
        Ok(
            UninstallExecutionPolicy {
                application: ApplicationIdentity::from_application(plan.application()),
                selected_paths,
                pinned_items: related,
            },
        )
    }
}

/// The path of the execution root a pinned item was pinned under (empty for the
/// bundle).
pub open spec fn pinned_root_path(pin: PinModel) -> Seq<char> {
    match pin.root {
        Some((p, _)) => p,
        None => Seq::empty(),
    }
}

/// Whether the execution root a related file was pinned under, as observed now
/// (`root_now`), is still a directory that resolves to what it resolved to when
/// it was pinned; the bundle has no root to check.
pub open spec fn root_still_pinned(pin: PinModel, root_now: PathObservation) -> bool {
    match pin.root {
        None => true,
        Some((_, rc)) => root_now.entry == EntryKind::Directory && (root_now.canonical matches Some(
            c,
        ) && same_path(c@, rc)),
    }
}

/// What checking a pinned item again right before moving it finds wrong, if
/// anything: the first rule its path breaks, that it now resolves elsewhere than
/// when it was pinned, or that its execution root (observed as `root_now`) is no
/// longer the directory it was pinned as.
pub open spec fn revalidation_failure(
    pin: PinModel,
    now: PathObservation,
    root_now: PathObservation,
) -> Option<UninstallFailure> {
    match spec_check_uninstall_path(pin.path, pin.kind, now) {
        Err(e) => Some(e),
        Ok(c) => if !same_path(c, pin.canonical) {
            Some(UninstallFailure::PathChanged(pin.path))
        } else if !root_still_pinned(pin, root_now) {
            Some(UninstallFailure::ExecutionRootChanged(pinned_root_path(pin)))
        } else {
            None
        },
    }
}

/// What became of one item.
#[derive(Debug, Clone, PartialEq, Eq)]
pub struct UninstallExecutionRecord {
    pub path: String,
    pub kind: UninstallPlanItemKind,
    pub result: Result<(), String>,
}

/// What an uninstall did, in the order it did it.
#[derive(Debug, Clone, PartialEq, Eq)]
pub struct UninstallExecutionReport {
    pub records: Vec<UninstallExecutionRecord>,
    pub cancelled: bool,
    /// The check that stopped the uninstall before an item, if one did; the
    /// records of the items already moved are kept.
    pub safety_failure: Option<UninstallExecutionError>,
}

impl Default for UninstallExecutionReport {
    /// No records, not cancelled.
    fn default() -> (r: Self)
        ensures
            r.records@.len() == 0,
            !r.cancelled,
            r.safety_failure is None,
    {
        UninstallExecutionReport { records: Vec::new(), cancelled: false, safety_failure: None }
    }
}

/// The number of records whose result is (or is not) a success.
pub open spec fn count_uninstall_results(records: Seq<UninstallExecutionRecord>, ok: bool) -> nat
    decreases records.len(),
{
    if records.len() == 0 {
        0
    } else {
        count_uninstall_results(records.drop_last(), ok) + if (records.last().result is Ok) == ok {
            1nat
        } else {
            0nat
        }
    }
}

impl UninstallExecutionReport {
    fn count_results(&self, ok: bool) -> (n: usize)
        ensures
            n == count_uninstall_results(self.records@, ok),
    {
        let mut n: usize = 0;
        let mut i: usize = 0;
        while i < self.records.len()
            invariant
                i <= self.records@.len(),
                n == count_uninstall_results(self.records@.take(i as int), ok),
                n <= i,
            decreases self.records@.len() - i,
        {
            assert(self.records@.take(i + 1).drop_last() =~= self.records@.take(i as int));
            if self.records[i].result.is_ok() == ok {
                n = n + 1;
            }
            i = i + 1;
        }
        assert(self.records@.take(self.records@.len() as int) =~= self.records@);
        n
    }

    /// The number of items moved.
    pub fn succeeded_count(&self) -> (n: usize)
        ensures
            n == count_uninstall_results(self.records@, true),
    {
        self.count_results(true)
    }

    /// The number of items the Trash refused.
    pub fn failed_count(&self) -> (n: usize)
        ensures
            n == count_uninstall_results(self.records@, false),
    {
        self.count_results(false)
    }
}

/// Every record is either a success or a failure.
pub proof fn uninstall_counts_partition_records(records: Seq<UninstallExecutionRecord>)
    ensures
        count_uninstall_results(records, true) + count_uninstall_results(records, false)
            == records.len(),
    decreases records.len(),
{
    if records.len() > 0 {
        uninstall_counts_partition_records(records.drop_last());
    }
}

/// Runs pinned uninstall plans.
pub struct UninstallExecutor;

/// One uninstall in progress. The caller asks which item to look at
/// (`item_to_check`), checks it against the file system (`check_next`), moves the
/// path it is handed (`pending_path`) to the Trash, and reports the outcome
/// (`record_backend_result`), until nothing is left; a refused check ends the
/// uninstall with that error.
pub struct UninstallExecution<'a> {
    policy: &'a UninstallExecutionPolicy,
    next: usize,
    pending: Option<String>,
    report: UninstallExecutionReport,
}

impl<'a> UninstallExecution<'a> {
    /// The pinned policy being carried out.
    pub closed spec fn policy(&self) -> UninstallExecutionPolicy {
        *self.policy
    }

    /// The index of the pinned item to check next.
    pub closed spec fn next_index(&self) -> int {
        self.next as int
    }

    /// The resolved path awaiting the Trash, if any.
    pub closed spec fn pending(&self) -> Option<Seq<char>> {
        opt_string_view(self.pending)
    }

    /// The report so far.
    pub closed spec fn report(&self) -> UninstallExecutionReport {
        self.report
    }

    /// Whether nothing is left to do.
    pub open spec fn is_done(&self) -> bool {
        self.pending() is None && (self.report().cancelled || self.next_index()
            >= self.policy().pinned().len())
    }

    /// The run's invariant: one record per pinned item already handled, in pinned
    /// order, each with its item's kind and a path that is the item's pinned
    /// resolution; the pinned order moves the bundle last; a pending path is the
    /// pinned resolution of the next item.
    pub open spec fn wf(&self) -> bool {
        let pins = self.policy().pinned();
        let records = self.report().records@;
        &&& bundles_last(pins)
        &&& 0 <= self.next_index() <= pins.len()
        &&& records.len() == self.next_index()
        &&& self.report().safety_failure is None
        &&& forall|k: int|
            0 <= k < records.len() ==> (#[trigger] records[k]).kind == pins[k].kind && same_path(
                records[k].path@,
                pins[k].canonical,
            )
        &&& self.pending() is Some ==> {
            &&& self.next_index() < pins.len()
            &&& !self.report().cancelled
            &&& same_path(self.pending()->0, pins[self.next_index()].canonical)
        }
    }

    /// The pinned item to check next, as planned: its path and kind.
    pub fn item_to_check(&self) -> (r: Option<(&str, UninstallPlanItemKind)>)
        requires
            self.wf(),
        ensures
            r is Some <==> (self.pending() is None && !self.report().cancelled && self.next_index()
                < self.policy().pinned().len()),
            r is Some ==> (r->0).0@ == self.policy().pinned()[self.next_index()].path && (r->0).1
                == self.policy().pinned()[self.next_index()].kind,
    {
        if self.pending.is_some() || self.report.cancelled || self.next
            >= self.policy.pinned_items.len() {
            None
        } else {
            let item = &self.policy.pinned_items[self.next];
            Some((item.path.as_str(), item.kind))
        }
    }

    /// The execution root to look at again with the next pinned item: the root
    /// it was pinned under, if it is a related file.
    pub fn root_to_check(&self) -> (r: Option<&str>)
        requires
            self.wf(),
        ensures
            self.next_index() < self.policy().pinned().len() ==> match self.policy().pinned()[
                self.next_index()
            ].root {
                Some((p, _)) => r is Some && r->0@ == p,
                None => r is None,
            },
            self.next_index() >= self.policy().pinned().len() ==> r is None,
    {
        if self.next >= self.policy.pinned_items.len() {
            return None;
        }
        match &self.policy.pinned_items[self.next].root {
            Some((p, _)) => Some(p.as_str()),
            None => None,
        }
    }

    /// The path to move to the Trash now, if any.
    pub fn pending_path(&self) -> (r: Option<&str>)
        ensures
            crate::safety::opt_view(r) == self.pending(),
    {
        match &self.pending {
            Some(p) => Some(p.as_str()),
            None => None,
        }
    }

    /// Stops the run before the next item: nothing more is checked or moved.
    pub fn cancel(&mut self)
        requires
            old(self).wf(),
            old(self).pending() is None,
        ensures
            final(self).wf(),
            final(self).policy() == old(self).policy(),
            final(self).next_index() == old(self).next_index(),
            final(self).pending() is None,
            final(self).report().records == old(self).report().records,
            final(self).report().cancelled,
    {
        self.report.cancelled = true;
    }

    /// Checks the next pinned item. `cancelled` is whether cancellation was
    /// requested; `observed` is what the file system reports now for the item's
    /// path, and `root_observed` what it reports for its execution root
    /// (`root_to_check`; not read for the bundle). A cancelled run stops; a
    /// failing check, a path that now resolves elsewhere than when it was pinned,
    /// or an execution root that changed ends the uninstall with that error;
    /// otherwise the resolved path waits for the Trash.
    pub fn check_next(
        &mut self,
        cancelled: bool,
        observed: &PathObservation,
        root_observed: &PathObservation,
    ) -> (r: Result<(), UninstallExecutionError>)
        requires
            old(self).wf(),
            old(self).pending() is None,
            !old(self).report().cancelled,
            old(self).next_index() < old(self).policy().pinned().len(),
        ensures
            final(self).wf(),
            final(self).policy() == old(self).policy(),
            final(self).next_index() == old(self).next_index(),
            final(self).report().records == old(self).report().records,
            ({
                let pin = old(self).policy().pinned()[old(self).next_index()];
                if cancelled {
                    &&& r is Ok
                    &&& final(self).report().cancelled
                    &&& final(self).pending() is None
                } else {
                    &&& !final(self).report().cancelled
                    &&& match revalidation_failure(pin, *observed, *root_observed) {
                        Some(e) => r is Err && r->Err_0@ == e && final(self).pending() is None,
                        None => r is Ok && final(self).pending() == Some(
                            spec_check_uninstall_path(pin.path, pin.kind, *observed)->Ok_0,
                        ),
                    }
                }
            }),
    {
        if cancelled {
            self.report.cancelled = true;
            return Ok(());
        }
        let item = &self.policy.pinned_items[self.next];
        let canonical = match validate_and_canonicalize(item.path.as_str(), item.kind, observed) {
            Ok(c) => c,
            Err(e) => {
                return Err(e);
            },
        };
        if !paths_equal(canonical.as_str(), item.canonical_path.as_str()) {
            return Err(UninstallExecutionError::PathChanged(item.path.clone()));
        }
        match &item.root {
            None => {},
            Some((root_path, root_canonical)) => {
                let is_dir = match root_observed.entry {
                    EntryKind::Directory => true,
                    _ => false,
                };
                let same = match &root_observed.canonical {
                    Some(c) => paths_equal(c.as_str(), root_canonical.as_str()),
                    None => false,
                };
                if !(is_dir && same) {
                    return Err(UninstallExecutionError::ExecutionRootChanged(root_path.clone()));
                }
            },
        }
        self.pending = Some(canonical);
        Ok(())
    }

    /// Records what the Trash answered for the pending path, and moves on.
    pub fn record_backend_result(&mut self, result: Result<(), String>)
        requires
            old(self).wf(),
            old(self).pending() is Some,
        ensures
            final(self).wf(),
            final(self).policy() == old(self).policy(),
            final(self).pending() is None,
            final(self).next_index() == old(self).next_index() + 1,
            final(self).report().cancelled == old(self).report().cancelled,
            final(self).report().records@ == old(self).report().records@.push(
                final(self).report().records@.last(),
            ),
            final(self).report().records@.last().path@ == old(self).pending()->0,
            final(self).report().records@.last().kind == old(self).policy().pinned()[old(
                self,
            ).next_index()].kind,
            final(self).report().records@.last().result == result,
    {
        assert(pin_views(self.policy.pinned_items@).len() == self.policy.pinned_items@.len());
        let path = match self.pending.take() {
            Some(p) => p,
            None => {
                return;
            },
        };
        let next = self.next;
        let count = self.policy.pinned_items.len();
        assert(next < count);
        let kind = self.policy.pinned_items[next].kind;
        self.report.records.push(UninstallExecutionRecord { path, kind, result });
        self.next = next + 1;
    }

    /// The report; complete once nothing is left to do.
    pub fn into_report(self) -> (report: UninstallExecutionReport)
        ensures
            report == self.report(),
    {
        self.report
    }
}

/// In a run, once the application bundle has been moved (or refused by the
/// Trash), every later record is the bundle too: related data always goes first.
pub proof fn uninstall_moves_the_bundle_last(run: UninstallExecution)
    requires
        run.wf(),
    ensures
        forall|k: int, l: int|
            0 <= k < l < run.report().records@.len() && (#[trigger] run.report().records@[k]).kind
                == UninstallPlanItemKind::ApplicationBundle ==> (
            #[trigger] run.report().records@[l]).kind == UninstallPlanItemKind::ApplicationBundle,
{
    let pins = run.policy().pinned();
    let records = run.report().records@;
    assert forall|k: int, l: int|
        0 <= k < l < records.len() && (#[trigger] records[k]).kind
            == UninstallPlanItemKind::ApplicationBundle implies (
        #[trigger] records[l]).kind == UninstallPlanItemKind::ApplicationBundle by {
        assert(is_bundle_pin(pins[k]));
        assert(is_bundle_pin(pins[l]));
    }
}

/// Whether `observe`, asked about the execution root a pinned item was pinned
/// under, may have answered `root_now`; the bundle has no root to ask about.
pub open spec fn root_observed_as<F: Fn(&str) -> PathObservation>(
    observe: F,
    pin: PinModel,
    root_now: PathObservation,
) -> bool {
    match pin.root {
        Some((root_path, _)) => observed_as(observe, root_path, root_now),
        None => true,
    }
}

/// Whether `record` is what an uninstall run makes of `pin`: checked again against
/// what `observe` reported for its path and its execution root right before the
/// move, the check passing, and the record holding the path the check resolved
/// and what `backend` answered when asked to move it to the Trash.
pub open spec fn uninstall_record_from_run<B: TrashBackend, F: Fn(&str) -> PathObservation>(
    record: UninstallExecutionRecord,
    pin: PinModel,
    observe: F,
    backend: &B,
) -> bool {
    exists|now: PathObservation, root_now: PathObservation|
        {
            &&& observed_as(observe, pin.path, now)
            &&& root_observed_as(observe, pin, root_now)
            &&& #[trigger] revalidation_failure(pin, now, root_now) is None
            &&& record.path@ == spec_check_uninstall_path(pin.path, pin.kind, now)->Ok_0
            &&& trash_answered(backend, record.path@, record.result)
        }
}

impl UninstallExecutor {
    /// Carries out `plan` under its pinned `policy`, for the application as it is
    /// installed now, refused as `start` refuses. Otherwise each pinned item, in
    /// pinned order (related files first, the bundle last), is checked against
    /// what `observe` reports now for its path and, for a related file, for the
    /// execution root it was pinned under, and moved to the Trash by `backend`,
    /// stopping before the next item once `cancellation` is raised. A failing
    /// check stops the uninstall before that item: the report keeps the records
    /// of the items already moved, and holds the failure.
    pub fn execute<B: TrashBackend, F: Fn(&str) -> PathObservation>(
        plan: &UninstallPlan,
        policy: &UninstallExecutionPolicy,
        current_application: &InstalledApplication,
        cancellation: &CancellationToken,
        backend: &B,
        observe: F,
    ) -> (r: Result<UninstallExecutionReport, UninstallExecutionError>)
        requires
            forall|p: &str| call_requires(observe, (p,)),
        ensures
            ({
                let refused = plan.spec_protection().spec_is_protected() || spec_protection_reasons(
                    *current_application,
                ).len() > 0;
                let stale = !policy.identifies(*current_application) || !same_paths_in_any_order(
                    selected_item_paths(plan.spec_items()),
                    policy.selected_paths(),
                );
                let pins = policy.pinned();
                &&& refused ==> r is Err && r->Err_0@ == UninstallFailure::ProtectedApplication
                &&& !refused && stale ==> r is Err && r->Err_0@ == UninstallFailure::StalePlan
                &&& !refused && !stale ==> r is Ok
                &&& r matches Ok(report) ==> {
                    &&& !refused && !stale
                    &&& report.records@.len() <= pins.len()
                    &&& !report.cancelled && report.safety_failure is None
                        ==> report.records@.len() == pins.len()
                    &&& forall|k: int|
                        0 <= k < report.records@.len() ==> (#[trigger] report.records@[k]).kind
                            == pins[k].kind && same_path(report.records@[k].path@, pins[k].canonical)
                            && uninstall_record_from_run(report.records@[k], pins[k], observe, backend)
                    &&& report.safety_failure matches Some(e) ==> {
                        let k = report.records@.len() as int;
                        &&& !report.cancelled
                        &&& k < pins.len()
                        &&& exists|now: PathObservation, root_now: PathObservation|
                            {
                                &&& observed_as(observe, pins[k].path, now)
                                &&& root_observed_as(observe, pins[k], root_now)
                                &&& #[trigger] revalidation_failure(pins[k], now, root_now)
                                    == Some(e@)
                            }
                    }
                }
            }),
    {
        let mut run = match Self::start(plan, policy, current_application) {
            Err(e) => {
                return Err(e);
            },
            Ok(run) => run,
        };
        loop
            invariant
                run.wf(),
                run.policy() == *policy,
                run.pending() is None,
                forall|p: &str| call_requires(observe, (p,)),
                !plan.spec_protection().spec_is_protected(),
                spec_protection_reasons(*current_application).len() == 0,
                policy.identifies(*current_application),
                same_paths_in_any_order(selected_item_paths(plan.spec_items()), policy.selected_paths()),
                forall|k: int|
                    0 <= k < run.report().records@.len() ==> uninstall_record_from_run(
                        #[trigger] run.report().records@[k],
                        policy.pinned()[k],
                        observe,
                        backend,
                    ),
            ensures
                run.wf(),
                run.policy() == *policy,
                run.pending() is None,
                run.report().cancelled || run.next_index() >= policy.pinned().len(),
                forall|k: int|
                    0 <= k < run.report().records@.len() ==> uninstall_record_from_run(
                        #[trigger] run.report().records@[k],
                        policy.pinned()[k],
                        observe,
                        backend,
                    ),
            decreases policy.pinned().len() - run.next_index(),
        {
            let path = match run.item_to_check() {
                None => {
                    break;
                },
                Some((path, _)) => path.to_owned(),
            };
            if cancellation.is_cancelled() {
                run.cancel();
                break;
            }
            let ghost k = run.next_index();
            let ghost pin = policy.pinned()[k];
            let ghost before_records = run.report().records@;
            let observed = observe(path.as_str());
            assert(observed_as(observe, pin.path, observed));
            let root_observed = match run.root_to_check() {
                Some(root) => {
                    let seen = observe(root);
                    assert(observed_as(observe, root@, seen));
                    seen
                },
                None => PathObservation { entry: EntryKind::Missing, canonical: None },
            };
            assert(root_observed_as(observe, pin, root_observed));
            match run.check_next(false, &observed, &root_observed) {
                Err(e) => {
                    let mut report = run.into_report();
                    assert(revalidation_failure(
                        policy.pinned()[report.records@.len() as int],
                        observed,
                        root_observed,
                    ) == Some(e@));
                    report.safety_failure = Some(e);
                    return Ok(report);
                },
                Ok(()) => {},
            }
            let target = match run.pending_path() {
                Some(p) => p.to_owned(),
                None => {
                    break;
                },
            };
            let t = target.as_str();
            let result = backend.move_to_trash(t);
            assert(trash_answered(backend, target@, result));
            run.record_backend_result(result);
            proof {
                let records = run.report().records@;
                assert(uninstall_record_from_run(records[k], pin, observe, backend));
                assert forall|j: int| 0 <= j < records.len() implies uninstall_record_from_run(
                    #[trigger] records[j],
                    policy.pinned()[j],
                    observe,
                    backend,
                ) by {
                    if j < k {
                        assert(records[j] == before_records[j]);
                    }
                }
            }
        }
        Ok(run.into_report())
    }

    /// Starts carrying out `plan` under its pinned `policy`, for the application as
    /// it is installed now. Refused when the plan or the current application is
    /// protected; then refused as stale when the application is no longer the one
    /// pinned, or when the selected paths differ from the pinned ones (in any
    /// order). Otherwise the run starts at the first pinned item.
    pub fn start<'b>(
        plan: &UninstallPlan,
        policy: &'b UninstallExecutionPolicy,
        current_application: &InstalledApplication,
    ) -> (r: Result<UninstallExecution<'b>, UninstallExecutionError>)
        ensures
            ({
                let refused = plan.spec_protection().spec_is_protected() || spec_protection_reasons(
                    *current_application,
                ).len() > 0;
                let stale = !policy.identifies(*current_application) || !same_paths_in_any_order(
                    selected_item_paths(plan.spec_items()),
                    policy.selected_paths(),
                );
                &&& refused ==> r is Err && r->Err_0@ == UninstallFailure::ProtectedApplication
                &&& !refused && stale ==> r is Err && r->Err_0@ == UninstallFailure::StalePlan
                &&& !refused && !stale ==> r is Ok && ({
                    let run = r->Ok_0;
                    &&& run.wf()
                    &&& run.policy() == *policy
                    &&& run.next_index() == 0
                    &&& run.pending() is None
                    &&& run.report().records@.len() == 0
                    &&& !run.report().cancelled
                })
            }),
    {
        proof {
            use_type_invariant(policy);
        }
        if plan.is_protected() || ApplicationProtectionPolicy.evaluate(
            current_application,
        ).is_protected() {
            return Err(UninstallExecutionError::ProtectedApplication);
        }
        if !policy.application.matches(current_application) {
            return Err(UninstallExecutionError::StalePlan);
        }
        let items = plan.items();
        let mut selected: Vec<String> = Vec::new();
        let mut i: usize = 0;
        while i < items.len()
            invariant
                i <= items@.len(),
                string_views(selected@) == selected_item_paths(items@.take(i as int)),
            decreases items@.len() - i,
        {
            assert(items@.take(i + 1).drop_last() =~= items@.take(i as int));
            if items[i].is_selected() {
                let ghost before = string_views(selected@);
                selected.push(items[i].path().to_owned());
                assert(string_views(selected@) =~= before.push(items@[i as int].spec_path()));
            }
            i = i + 1;
        }
        assert(items@.take(items@.len() as int) =~= items@);
        if !same_path_lists(&selected, &policy.selected_paths) {
            return Err(UninstallExecutionError::StalePlan);
        }
        Ok(
            UninstallExecution {
                policy,
                next: 0,
                pending: None,
                report: UninstallExecutionReport {
                    records: Vec::new(),
                    cancelled: false,
                    safety_failure: None,
                },
            },
        )
    }
}

} // verus!
