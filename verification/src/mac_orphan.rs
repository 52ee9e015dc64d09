//! Leftover per-application data in a user's Library whose application is no
//! longer installed.
use vstd::prelude::*;

use crate::app_inventory::InstalledApplication;
use crate::bundle_identifier::{
    is_apple_bundle_identifier, is_safe_bundle_identifier, spec_is_apple_bundle_identifier,
    spec_is_safe_bundle_identifier,
};
use crate::listing::{DirectoryEntry, DirectoryListing, EntryType, ListedEntry};
use crate::order::is_ordered;
use crate::orphan::{OrphanCandidate, OrphanFinderIssue, OrphanReport};
use crate::path::{join_path, path_join};
use crate::related_files::{MatchConfidence, RelatedFileKind};
use crate::text::{chars_contains, chars_ends_with, chars_of, chars_slice, str_eq, string_of};

verus! {

/// The entry type an orphan finder root holds.
#[derive(Debug, Clone, Copy, PartialEq, Eq, Structural)]
pub enum ExpectedEntryKind {
    Directory,
    File,
}

/// How a bundle identifier is read from an entry's name: the name itself, or the
/// name less a suffix.
#[derive(Debug, Clone, PartialEq, Eq)]
pub enum NameRule {
    WholeName,
    Suffix(String),
}

/// One directory of the Library searched for leftovers.
#[derive(Debug, Clone, PartialEq, Eq)]
pub struct OrphanSearchRoot {
    pub path: String,
    pub kind: RelatedFileKind,
    pub expected: ExpectedEntryKind,
    pub rule: NameRule,
}

/// A safe bundle identifier with at least two components.
pub open spec fn spec_looks_like_bundle_identifier(id: Seq<char>) -> bool {
    spec_is_safe_bundle_identifier(id) && id.contains('.')
}

fn looks_like_bundle_identifier(id: &str) -> (r: bool)
    ensures
        r == spec_looks_like_bundle_identifier(id@),
{
    let cs = chars_of(id);
    is_safe_bundle_identifier(id) && chars_contains(cs.as_slice(), '.')
}

/// The bundle identifier an entry name stands for under `rule`, if any.
pub open spec fn identifier_from_name(rule: NameRule, name: Seq<char>) -> Option<Seq<char>> {
    match rule {
        NameRule::WholeName => if spec_looks_like_bundle_identifier(name) {
            Some(name)
        } else {
            None
        },
        NameRule::Suffix(suffix) => if suffix@.is_suffix_of(name) {
            let id = name.take(name.len() - suffix@.len());
            if spec_looks_like_bundle_identifier(id) {
                Some(id)
            } else {
                None
            }
        } else {
            None
        },
    }
}

fn bundle_identifier_from_name(rule: &NameRule, name: &str) -> (r: Option<String>)
    ensures
        crate::planner::opt_string_view(r) == identifier_from_name(*rule, name@),
{
    match rule {
        NameRule::WholeName => {
            if looks_like_bundle_identifier(name) {
                Some(name.to_owned())
            } else {
                None
            }
        },
        NameRule::Suffix(suffix) => {
            let cs = chars_of(name);
            let ss = chars_of(suffix.as_str());
            if !chars_ends_with(cs.as_slice(), ss.as_slice()) {
                return None;
            }
            let id = string_of(chars_slice(cs.as_slice(), 0, cs.len() - ss.len()).as_slice());
            assert(id@ =~= name@.take(name@.len() - suffix@.len()));
            if looks_like_bundle_identifier(id.as_str()) {
                Some(id)
            } else {
                None
            }
        },
    }
}

/// Whether an entry type is the one expected.
pub open spec fn type_matches(t: EntryType, expected: ExpectedEntryKind) -> bool {
    match expected {
        ExpectedEntryKind::Directory => t == EntryType::Directory,
        ExpectedEntryKind::File => t == EntryType::File,
    }
}

/// The model of an issue: its path and message.
pub open spec fn issue_view(i: OrphanFinderIssue) -> (Seq<char>, Seq<char>) {
    (i.path@, i.message@)
}

/// The models of a list of issues.
pub open spec fn issue_views(s: Seq<OrphanFinderIssue>) -> Seq<(Seq<char>, Seq<char>)> {
    s.map_values(|i: OrphanFinderIssue| issue_view(i))
}

/// The model of a candidate: identifier, path, kind and confidence.
pub open spec fn candidate_view(c: OrphanCandidate) -> (Seq<char>, Seq<char>, RelatedFileKind, MatchConfidence) {
    (c.bundle_identifier@, c.path@, c.kind, c.confidence)
}

/// The models of a list of candidates.
pub open spec fn candidate_views(s: Seq<OrphanCandidate>) -> Seq<
    (Seq<char>, Seq<char>, RelatedFileKind, MatchConfidence),
> {
    s.map_values(|c: OrphanCandidate| candidate_view(c))
}

/// The issue one listed entry raises, if any: an error reading the listing is
/// an issue of the root; an error reading the entry's type is one of the entry.
pub open spec fn entry_issues(root: Seq<char>, e: ListedEntry) -> Seq<(Seq<char>, Seq<char>)> {
    match e {
        ListedEntry::Unreadable(m) => seq![(root, m@)],
        ListedEntry::Entry(d) => match d.entry_type {
            EntryType::Unreadable(m) => seq![(d.path@, m@)],
            _ => Seq::empty(),
        },
    }
}

/// The candidate one listed entry is, if any: an entry of the expected type (never
/// a symlink) whose UTF-8 name gives a bundle identifier that no live application
/// has and that is not Apple's.
pub open spec fn entry_candidates(
    root: OrphanSearchRoot,
    live: Seq<Seq<char>>,
    e: ListedEntry,
) -> Seq<(Seq<char>, Seq<char>, RelatedFileKind, MatchConfidence)> {
    match e {
        ListedEntry::Unreadable(_) => Seq::empty(),
        ListedEntry::Entry(d) => if type_matches(d.entry_type, root.expected) && d.name is Some {
            match identifier_from_name(root.rule, d.name->0@) {
                Some(id) => if !live.contains(id) && !spec_is_apple_bundle_identifier(id) {
                    seq![(id, d.path@, root.kind, MatchConfidence::High)]
                } else {
                    Seq::empty()
                },
                None => Seq::empty(),
            }
        } else {
            Seq::empty()
        },
    }
}

/// The issues a listing raises, entry by entry.
pub open spec fn listed_issues(root: Seq<char>, entries: Seq<ListedEntry>) -> Seq<(Seq<char>, Seq<char>)>
    decreases entries.len(),
{
    if entries.len() == 0 {
        Seq::empty()
    } else {
        listed_issues(root, entries.drop_last()) + entry_issues(root, entries.last())
    }
}

/// The candidates a listing holds, entry by entry.
pub open spec fn listed_candidates(
    root: OrphanSearchRoot,
    live: Seq<Seq<char>>,
    entries: Seq<ListedEntry>,
) -> Seq<(Seq<char>, Seq<char>, RelatedFileKind, MatchConfidence)>
    decreases entries.len(),
{
    if entries.len() == 0 {
        Seq::empty()
    } else {
        listed_candidates(root, live, entries.drop_last()) + entry_candidates(
            root,
            live,
            entries.last(),
        )
    }
}

/// The issues of searching one root: a missing root raises none; a root that
/// cannot be read, is a symlink, is not a directory or cannot be listed raises
/// one; a listed root raises those of its entries.
pub open spec fn root_issues(root: OrphanSearchRoot, listing: DirectoryListing) -> Seq<
    (Seq<char>, Seq<char>),
> {
    match listing {
        DirectoryListing::Missing(_) => Seq::empty(),
        DirectoryListing::Unreadable(m) => seq![(root.path@, m@)],
        DirectoryListing::Symlink => seq![
            (root.path@, "orphan finder root is a symlink and was skipped"@),
        ],
        DirectoryListing::NotDirectory => seq![(root.path@, "orphan finder root is not a directory"@)],
        DirectoryListing::Unlistable(m) => seq![(root.path@, m@)],
        DirectoryListing::Listed(entries) => listed_issues(root.path@, entries@),
    }
}

/// The candidates of searching one root: only a listed root has any.
pub open spec fn root_candidates(
    root: OrphanSearchRoot,
    live: Seq<Seq<char>>,
    listing: DirectoryListing,
) -> Seq<(Seq<char>, Seq<char>, RelatedFileKind, MatchConfidence)> {
    match listing {
        DirectoryListing::Listed(entries) => listed_candidates(root, live, entries@),
        _ => Seq::empty(),
    }
}

fn push_issue(report: &mut OrphanReport, path: String, message: String)
    ensures
        issue_views(final(report).issues@) == issue_views(old(report).issues@).push(
            (path@, message@),
        ),
        final(report).candidates == old(report).candidates,
{
    let ghost before = issue_views(report.issues@);
    report.issues.push(OrphanFinderIssue::new(path, message));
    assert(issue_views(report.issues@) =~= before.push((path@, message@)));
}

fn is_live(live: &Vec<String>, id: &str) -> (r: bool)
    ensures
        r == crate::path::string_views(live@).contains(id@),
{
    let ghost views = crate::path::string_views(live@);
    let mut i: usize = 0;
    while i < live.len()
        invariant
            i <= live@.len(),
            views == crate::path::string_views(live@),
            forall|j: int| 0 <= j < i ==> views[j] != id@,
        decreases live@.len() - i,
    {
        if str_eq(live[i].as_str(), id) {
            assert(views[i as int] == id@);
            return true;
        }
        i = i + 1;
    }
    false
}

/// Searches one root, given what listing it gave, for leftovers of applications
/// not in `live`: each issue and candidate is added to `report`, in listing order.
pub fn collect_entries(
    report: &mut OrphanReport,
    root: &OrphanSearchRoot,
    live: &Vec<String>,
    listing: DirectoryListing,
)
    ensures
        issue_views(final(report).issues@) == issue_views(old(report).issues@) + root_issues(
            *root,
            listing,
        ),
        candidate_views(final(report).candidates@) == candidate_views(old(report).candidates@)
            + root_candidates(*root, crate::path::string_views(live@), listing),
{
    let ghost live_views = crate::path::string_views(live@);
    let ghost issues0 = issue_views(report.issues@);
    let ghost candidates0 = candidate_views(report.candidates@);
    let entries = match listing {
        DirectoryListing::Missing(_) => {
            assert(issue_views(report.issues@) =~= issues0 + Seq::empty());
            assert(candidate_views(report.candidates@) =~= candidates0 + Seq::empty());
            return;
        },
        DirectoryListing::Unreadable(m) => {
            push_issue(report, root.path.clone(), m);
            assert(candidate_views(report.candidates@) =~= candidates0 + Seq::empty());
            return;
        },
        DirectoryListing::Symlink => {
            push_issue(
                report,
                root.path.clone(),
                "orphan finder root is a symlink and was skipped".to_owned(),
            );
            assert(candidate_views(report.candidates@) =~= candidates0 + Seq::empty());
            return;
        },
        DirectoryListing::NotDirectory => {
            push_issue(report, root.path.clone(), "orphan finder root is not a directory".to_owned());
            assert(candidate_views(report.candidates@) =~= candidates0 + Seq::empty());
            return;
        },
        DirectoryListing::Unlistable(m) => {
            push_issue(report, root.path.clone(), m);
            assert(candidate_views(report.candidates@) =~= candidates0 + Seq::empty());
            return;
        },
        DirectoryListing::Listed(entries) => entries,
    };
    let ghost all = entries@;
    assert(all.take(0) =~= Seq::<ListedEntry>::empty());
    assert(issue_views(report.issues@) =~= issues0 + listed_issues(root.path@, all.take(0)));
    assert(candidate_views(report.candidates@) =~= candidates0 + listed_candidates(
        *root,
        live_views,
        all.take(0),
    ));
    for entry in it: entries
        invariant
            it.seq() == all,
            live_views == crate::path::string_views(live@),
            issue_views(report.issues@) == issues0 + listed_issues(
                root.path@,
                all.take(it.index() as int),
            ),
            candidate_views(report.candidates@) == candidates0 + listed_candidates(
                *root,
                live_views,
                all.take(it.index() as int),
            ),
    {
        let ghost k = it.index() as int;
        assert(all.take(k + 1).drop_last() =~= all.take(k));
        assert(all.take(k + 1).last() == entry);
        let ghost issues_before = issue_views(report.issues@);
        let ghost candidates_before = candidate_views(report.candidates@);
        match entry {
            ListedEntry::Unreadable(m) => {
                push_issue(report, root.path.clone(), m);
                assert(issue_views(report.issues@) =~= issues_before + entry_issues(
                    root.path@,
                    all[k],
                ));
                assert(candidate_views(report.candidates@) =~= candidates_before
                    + entry_candidates(*root, live_views, all[k]));
            },
            ListedEntry::Entry(d) => {
                let DirectoryEntry { path, name, entry_type } = d;
                match entry_type {
                    EntryType::Unreadable(m) => {
                        push_issue(report, path, m);
                        assert(issue_views(report.issues@) =~= issues_before + entry_issues(
                            root.path@,
                            all[k],
                        ));
                        assert(candidate_views(report.candidates@) =~= candidates_before
                            + entry_candidates(*root, live_views, all[k]));
                    },
                    _ => {
                        assert(issue_views(report.issues@) =~= issues_before + entry_issues(
                            root.path@,
                            all[k],
                        ));
                        let fits = match root.expected {
                            ExpectedEntryKind::Directory => match entry_type {
                                EntryType::Directory => true,
                                _ => false,
                            },
                            ExpectedEntryKind::File => match entry_type {
                                EntryType::File => true,
                                _ => false,
                            },
                        };
                        let mut added = false;
                        if fits {
                            match name {
                                Some(n) => {
                                    match bundle_identifier_from_name(&root.rule, n.as_str()) {
                                        Some(id) => {
                                            if !is_live(live, id.as_str())
                                                && !is_apple_bundle_identifier(id.as_str()) {
                                                let ghost item = (
                                                    id@,
                                                    path@,
                                                    root.kind,
                                                    MatchConfidence::High,
                                                );
                                                report.candidates.push(
                                                    OrphanCandidate::new(
                                                        id,
                                                        path,
                                                        root.kind,
                                                        MatchConfidence::High,
                                                    ),
                                                );
                                                assert(candidate_views(report.candidates@)
                                                    =~= candidates_before.push(item));
                                                assert(entry_candidates(*root, live_views, all[k])
                                                    =~= seq![item]);
                                                added = true;
                                            }
                                        },
                                        None => {},
                                    }
                                },
                                None => {},
                            }
                        }
                        if !added {
                            assert(entry_candidates(*root, live_views, all[k]) =~= Seq::empty());
                        }
                        assert(candidate_views(report.candidates@) =~= candidates_before
                            + entry_candidates(*root, live_views, all[k]));
                    },
                }
            },
        }
    }
    assert(all.take(all.len() as int) =~= all);
}

/// Whether `roots` are the Library directories searched for leftovers under
/// `home`, in order: application support, caches, containers and HTTP storage
/// (directories named by bundle identifier), preferences (`.plist` files) and
/// saved application state (`.savedState` directories).
pub open spec fn is_orphan_search_roots(roots: Seq<OrphanSearchRoot>, home: Seq<char>) -> bool {
    let library = path_join(home, "Library"@);
    &&& roots.len() == 6
    &&& roots[0].path@ == path_join(library, "Application Support"@)
    &&& roots[0].kind == RelatedFileKind::ApplicationSupport
    &&& roots[1].path@ == path_join(library, "Caches"@)
    &&& roots[1].kind == RelatedFileKind::Cache
    &&& roots[2].path@ == path_join(library, "Containers"@)
    &&& roots[2].kind == RelatedFileKind::Container
    &&& roots[3].path@ == path_join(library, "HTTPStorages"@)
    &&& roots[3].kind == RelatedFileKind::HttpStorage
    &&& forall|i: int|
        0 <= i < 4 ==> (#[trigger] roots[i]).expected == ExpectedEntryKind::Directory
            && roots[i].rule == NameRule::WholeName
    &&& roots[4].path@ == path_join(library, "Preferences"@)
    &&& roots[4].kind == RelatedFileKind::Preference
    &&& roots[4].expected == ExpectedEntryKind::File
    &&& roots[4].rule matches NameRule::Suffix(s) && s@ == ".plist"@
    &&& roots[5].path@ == path_join(library, "Saved Application State"@)
    &&& roots[5].kind == RelatedFileKind::SavedState
    &&& roots[5].expected == ExpectedEntryKind::Directory
    &&& roots[5].rule matches NameRule::Suffix(s) && s@ == ".savedState"@
}

/// The Library directories searched for leftovers under `home`, in order.
pub fn orphan_search_roots(home: &str) -> (roots: Vec<OrphanSearchRoot>)
    ensures
        is_orphan_search_roots(roots@, home@),
{
    let library = join_path(home, "Library");
    let l = library.as_str();
    let roots = vec![
        OrphanSearchRoot {
            path: join_path(l, "Application Support"),
            kind: RelatedFileKind::ApplicationSupport,
            expected: ExpectedEntryKind::Directory,
            rule: NameRule::WholeName,
        },
        OrphanSearchRoot {
            path: join_path(l, "Caches"),
            kind: RelatedFileKind::Cache,
            expected: ExpectedEntryKind::Directory,
            rule: NameRule::WholeName,
        },
        OrphanSearchRoot {
            path: join_path(l, "Containers"),
            kind: RelatedFileKind::Container,
            expected: ExpectedEntryKind::Directory,
            rule: NameRule::WholeName,
        },
        OrphanSearchRoot {
            path: join_path(l, "HTTPStorages"),
            kind: RelatedFileKind::HttpStorage,
            expected: ExpectedEntryKind::Directory,
            rule: NameRule::WholeName,
        },
        OrphanSearchRoot {
            path: join_path(l, "Preferences"),
            kind: RelatedFileKind::Preference,
            expected: ExpectedEntryKind::File,
            rule: NameRule::Suffix(".plist".to_owned()),
        },
        OrphanSearchRoot {
            path: join_path(l, "Saved Application State"),
            kind: RelatedFileKind::SavedState,
            expected: ExpectedEntryKind::Directory,
            rule: NameRule::Suffix(".savedState".to_owned()),
        },
    ];
    assert(forall|i: int|
        0 <= i < 4 ==> (#[trigger] roots@[i]).expected == ExpectedEntryKind::Directory
            && roots@[i].rule == NameRule::WholeName);
    roots
}

/// The safe bundle identifiers of the installed applications, in order.
pub open spec fn live_bundle_identifiers(installed: Seq<InstalledApplication>) -> Seq<Seq<char>>
    decreases installed.len(),
{
    if installed.len() == 0 {
        Seq::empty()
    } else {
        let rest = live_bundle_identifiers(installed.drop_last());
        match installed.last().metadata.bundle_identifier {
            Some(id) => if spec_is_safe_bundle_identifier(id@) {
                rest.push(id@)
            } else {
                rest
            },
            None => rest,
        }
    }
}

/// The issues of searching the first `n` roots, root by root.
pub open spec fn all_root_issues(
    roots: Seq<OrphanSearchRoot>,
    listings: Seq<DirectoryListing>,
    n: int,
) -> Seq<(Seq<char>, Seq<char>)>
    decreases n,
{
    if n <= 0 {
        Seq::empty()
    } else {
        all_root_issues(roots, listings, n - 1) + root_issues(roots[n - 1], listings[n - 1])
    }
}

/// The candidates of searching the first `n` roots, root by root.
pub open spec fn all_root_candidates(
    roots: Seq<OrphanSearchRoot>,
    live: Seq<Seq<char>>,
    listings: Seq<DirectoryListing>,
    n: int,
) -> Seq<(Seq<char>, Seq<char>, RelatedFileKind, MatchConfidence)>
    decreases n,
{
    if n <= 0 {
        Seq::empty()
    } else {
        all_root_candidates(roots, live, listings, n - 1) + root_candidates(
            roots[n - 1],
            live,
            listings[n - 1],
        )
    }
}

/// Finds leftovers under `home` of applications not among `installed`.
/// `listings` holds what looking at and listing each root of
/// `orphan_search_roots(home)` gave, in order. Every issue of every root is
/// reported, ordered. The search fails closed: when any root could not be
/// examined safely, no candidate is reported; otherwise every candidate of every
/// root is, ordered, keeping the first of each path.
pub fn find_orphans_for_home(
    installed: &[InstalledApplication],
    home: &str,
    listings: Vec<DirectoryListing>,
) -> (report: OrphanReport)
    requires
        listings@.len() == 6,
    ensures
        exists|roots: Seq<OrphanSearchRoot>, found: Seq<OrphanCandidate>, sorted: Seq<OrphanCandidate>,
            issues: Seq<OrphanFinderIssue>|
            {
                &&& is_orphan_search_roots(roots, home@)
                &&& candidate_views(found) == all_root_candidates(
                    roots,
                    live_bundle_identifiers(installed@),
                    listings@,
                    6,
                )
                &&& sorted.to_multiset() == found.to_multiset()
                &&& is_ordered(sorted)
                &&& issues.len() == 0 ==> report.candidates@ == crate::order::dedup_by_path(sorted)
                &&& issues.len() > 0 ==> report.candidates@.len() == 0
                &&& issue_views(issues) == all_root_issues(roots, listings@, 6)
                &&& report.issues@.to_multiset() == issues.to_multiset()
                &&& is_ordered(report.issues@)
            },
{
    let mut live: Vec<String> = Vec::new();
    let mut i: usize = 0;
    while i < installed.len()
        invariant
            i <= installed@.len(),
            crate::path::string_views(live@) == live_bundle_identifiers(installed@.take(i as int)),
        decreases installed@.len() - i,
    {
        assert(installed@.take(i + 1).drop_last() =~= installed@.take(i as int));
        match &installed[i].metadata.bundle_identifier {
            Some(id) => {
                if is_safe_bundle_identifier(id.as_str()) {
                    let ghost before = crate::path::string_views(live@);
                    live.push(id.clone());
                    assert(crate::path::string_views(live@) =~= before.push(id@));
                }
            },
            None => {},
        }
        i = i + 1;
    }
    assert(installed@.take(installed@.len() as int) =~= installed@);
    let ghost live_views = crate::path::string_views(live@);
    let roots = orphan_search_roots(home);
    let mut report = OrphanReport { candidates: Vec::new(), issues: Vec::new() };
    let ghost all = listings@;
    assert(issue_views(report.issues@) =~= Seq::empty());
    assert(candidate_views(report.candidates@) =~= Seq::empty());
    let mut k: usize = 0;
    for listing in it: listings
        invariant
            it.seq() == all,
            k == it.index(),
            all.len() == 6,
            is_orphan_search_roots(roots@, home@),
            live_views == crate::path::string_views(live@),
            live_views == live_bundle_identifiers(installed@),
            issue_views(report.issues@) == all_root_issues(roots@, all, it.index() as int),
            candidate_views(report.candidates@) == all_root_candidates(
                roots@,
                live_views,
                all,
                it.index() as int,
            ),
    {
        assert(all_root_issues(roots@, all, k + 1) == all_root_issues(roots@, all, k as int)
            + root_issues(roots@[k as int], all[k as int]));
        collect_entries(&mut report, &roots[k], &live, listing);
        k = k + 1;
    }
    let ghost found = report.candidates@;
    let ghost issues = report.issues@;
    report.sort_deterministically();
    assert(exists|sorted: Seq<OrphanCandidate>|
        sorted.to_multiset() == found.to_multiset() && is_ordered(sorted) && report.candidates@
            == crate::order::dedup_by_path(sorted));
    let ghost sorted = choose|sorted: Seq<OrphanCandidate>|
        sorted.to_multiset() == found.to_multiset() && is_ordered(sorted) && report.candidates@
            == crate::order::dedup_by_path(sorted);
    proof {
        broadcast use vstd::seq_lib::group_to_multiset_ensures;

        assert(report.issues@.len() == report.issues@.to_multiset().len());
        assert(issues.len() == issues.to_multiset().len());
    }
    if report.issues.len() > 0 {
        report.candidates = Vec::new();
    }
    assert(is_orphan_search_roots(roots@, home@));
    assert({
        &&& is_orphan_search_roots(roots@, home@)
        &&& candidate_views(found) == all_root_candidates(
            roots@,
            live_bundle_identifiers(installed@),
            listings@,
            6,
        )
        &&& sorted.to_multiset() == found.to_multiset()
        &&& is_ordered(sorted)
        &&& issues.len() == 0 ==> report.candidates@ == crate::order::dedup_by_path(sorted)
        &&& issues.len() > 0 ==> report.candidates@.len() == 0
        &&& issue_views(issues) == all_root_issues(roots@, listings@, 6)
        &&& report.issues@.to_multiset() == issues.to_multiset()
        &&& is_ordered(report.issues@)
    });
    report
}

proof fn lemma_listed_candidates_are_orphans(
    root: OrphanSearchRoot,
    live: Seq<Seq<char>>,
    entries: Seq<ListedEntry>,
)
    ensures
        forall|i: int|
            0 <= i < listed_candidates(root, live, entries).len() ==> {
                let c = #[trigger] listed_candidates(root, live, entries)[i];
                &&& !live.contains(c.0)
                &&& !spec_is_apple_bundle_identifier(c.0)
                &&& spec_looks_like_bundle_identifier(c.0)
                &&& c.2 == root.kind
                &&& c.3 == MatchConfidence::High
            },
    decreases entries.len(),
{
    if entries.len() > 0 {
        lemma_listed_candidates_are_orphans(root, live, entries.drop_last());
        let a = listed_candidates(root, live, entries.drop_last());
        let b = entry_candidates(root, live, entries.last());
        assert forall|i: int| 0 <= i < listed_candidates(root, live, entries).len() implies {
            let c = #[trigger] listed_candidates(root, live, entries)[i];
            &&& !live.contains(c.0)
            &&& !spec_is_apple_bundle_identifier(c.0)
            &&& spec_looks_like_bundle_identifier(c.0)
            &&& c.2 == root.kind
            &&& c.3 == MatchConfidence::High
        } by {
            if i < a.len() {
                assert(listed_candidates(root, live, entries)[i] == a[i]);
            } else {
                assert(listed_candidates(root, live, entries)[i] == b[i - a.len()]);
                match root.rule {
                    NameRule::WholeName => {},
                    NameRule::Suffix(_) => {},
                }
            }
        }
    }
}

/// Every leftover reported names a bundle identifier with at least two safe
/// components that no installed application has and that is not in Apple's
/// namespace, with high confidence and the kind of the root it was found in.
pub proof fn orphans_are_never_live_or_apple(
    roots: Seq<OrphanSearchRoot>,
    live: Seq<Seq<char>>,
    listings: Seq<DirectoryListing>,
    n: int,
)
    requires
        0 <= n <= roots.len(),
        n <= listings.len(),
    ensures
        forall|i: int|
            0 <= i < all_root_candidates(roots, live, listings, n).len() ==> {
                let c = #[trigger] all_root_candidates(roots, live, listings, n)[i];
                &&& !live.contains(c.0)
                &&& !spec_is_apple_bundle_identifier(c.0)
                &&& spec_looks_like_bundle_identifier(c.0)
                &&& c.3 == MatchConfidence::High
            },
    decreases n,
{
    if n > 0 {
        orphans_are_never_live_or_apple(roots, live, listings, n - 1);
        let a = all_root_candidates(roots, live, listings, n - 1);
        let b = root_candidates(roots[n - 1], live, listings[n - 1]);
        match listings[n - 1] {
            DirectoryListing::Listed(entries) => {
                lemma_listed_candidates_are_orphans(roots[n - 1], live, entries@);
            },
            _ => {},
        }
        assert forall|i: int| 0 <= i < all_root_candidates(roots, live, listings, n).len() implies {
            let c = #[trigger] all_root_candidates(roots, live, listings, n)[i];
            &&& !live.contains(c.0)
            &&& !spec_is_apple_bundle_identifier(c.0)
            &&& spec_looks_like_bundle_identifier(c.0)
            &&& c.3 == MatchConfidence::High
        } by {
            if i < a.len() {
                assert(all_root_candidates(roots, live, listings, n)[i] == a[i]);
            } else {
                assert(all_root_candidates(roots, live, listings, n)[i] == b[i - a.len()]);
            }
        }
    }
}

} // verus!
