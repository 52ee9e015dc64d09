//! The inventory of installed applications: a walk of the application folders
//! that the library drives and the caller performs, listing one directory at a
//! time.
use vstd::prelude::*;

use crate::app_inventory::{
    ApplicationInventoryIssue, ApplicationInventoryReport, ApplicationLocation, ApplicationMetadata,
    InstalledApplication,
};
use crate::listing::{DirectoryEntry, DirectoryListing, EntryType, ListedEntry};
use crate::order::is_ordered;
use crate::path::{path_model, path_parts, views};
use crate::text::{ascii_lowercase, chars_eq, chars_slice, string_of, to_ascii_lowercase_chars};

verus! {

/// The last component of a path, unless there is none or it is `..`.
pub open spec fn spec_file_name(p: Seq<char>) -> Option<Seq<char>> {
    let parts = path_parts(p);
    if parts.len() == 0 || parts.last() == seq!['.', '.'] {
        None
    } else {
        Some(parts.last())
    }
}

/// The index of the last `.` in a name, or -1.
pub open spec fn last_dot(name: Seq<char>) -> int
    decreases name.len(),
{
    if name.len() == 0 {
        -1
    } else if name.last() == '.' {
        name.len() - 1
    } else {
        last_dot(name.drop_last())
    }
}

/// The extension of a file name (`Path::extension`): what follows its last dot,
/// unless that dot starts the name.
pub open spec fn spec_extension(name: Seq<char>) -> Option<Seq<char>> {
    let k = last_dot(name);
    if k <= 0 {
        None
    } else {
        Some(name.skip(k + 1))
    }
}

/// The stem of a file name (`Path::file_stem`): what precedes its extension.
pub open spec fn spec_file_stem(name: Seq<char>) -> Seq<char> {
    let k = last_dot(name);
    if k <= 0 {
        name
    } else {
        name.take(k)
    }
}

/// Whether a path names an application bundle: its extension is `app`, in any
/// ASCII case.
pub open spec fn spec_is_app_bundle(p: Seq<char>) -> bool {
    match spec_file_name(p) {
        Some(n) => match spec_extension(n) {
            Some(e) => ascii_lowercase(e) == seq!['a', 'p', 'p'],
            None => false,
        },
        None => false,
    }
}

/// The name an application is listed under: the stem of its bundle's name.
pub open spec fn app_display_name(p: Seq<char>) -> Seq<char> {
    match spec_file_name(p) {
        Some(n) => spec_file_stem(n),
        None => Seq::empty(),
    }
}

proof fn lemma_last_dot(s: Seq<char>)
    ensures
        -1 <= last_dot(s) < s.len(),
        last_dot(s) >= 0 ==> s[last_dot(s)] == '.',
    decreases s.len(),
{
    if s.len() > 0 && s.last() != '.' {
        lemma_last_dot(s.drop_last());
    }
}

fn find_last_dot(name: &[char]) -> (k: Option<usize>)
    ensures
        match k {
            Some(i) => i == last_dot(name@),
            None => last_dot(name@) == -1,
        },
{
    let mut j: usize = name.len();
    assert(name@.take(name@.len() as int) =~= name@);
    while j > 0
        invariant
            j <= name@.len(),
            last_dot(name@) == last_dot(name@.take(j as int)),
        decreases j,
    {
        assert(name@.take(j as int).drop_last() =~= name@.take(j - 1));
        if name[j - 1] == '.' {
            return Some(j - 1);
        }
        j = j - 1;
    }
    assert(name@.take(0) =~= Seq::<char>::empty());
    None
}

/// The file name and whether it is an application bundle, for a path.
fn bundle_name(p: &str) -> (r: (bool, String))
    ensures
        r.0 == spec_is_app_bundle(p@),
        r.1@ == app_display_name(p@),
{
    let model = path_model(p);
    let n = model.parts.len();
    if n == 0 {
        return (false, String::new());
    }
    let last = &model.parts[n - 1];
    assert(views(model.parts@).last() == last@);
    let dots: [char; 2] = ['.', '.'];
    if chars_eq(last.as_slice(), dots.as_slice()) {
        assert(dots@ =~= seq!['.', '.']);
        return (false, String::new());
    }
    assert(dots@ =~= seq!['.', '.']);
    let k = match find_last_dot(last.as_slice()) {
        None => {
            return (false, string_of(last.as_slice()));
        },
        Some(k) => k,
    };
    if k == 0 {
        return (false, string_of(last.as_slice()));
    }
    proof {
        lemma_last_dot(last@);
    }
    let ext = chars_slice(last.as_slice(), k + 1, last.len());
    assert(ext@ =~= last@.skip(k + 1));
    let stem = chars_slice(last.as_slice(), 0, k);
    assert(stem@ =~= last@.take(k as int));
    let ext_str = string_of(ext.as_slice());
    let lower = to_ascii_lowercase_chars(ext_str.as_str());
    let app: [char; 3] = ['a', 'p', 'p'];
    assert(app@ =~= seq!['a', 'p', 'p']);
    (chars_eq(lower.as_slice(), app.as_slice()), string_of(stem.as_slice()))
}

/// Whether a path names an application bundle (`.app`, any ASCII case).
pub fn is_app_bundle(path: &str) -> (r: bool)
    ensures
        r == spec_is_app_bundle(path@),
{
    bundle_name(path).0
}

/// Metadata with nothing known.
pub open spec fn no_metadata(m: ApplicationMetadata) -> bool {
    &&& m.bundle_identifier is None
    &&& m.bundle_version is None
    &&& m.short_version is None
    &&& m.team_identifier is None
}

/// A directory waiting to be listed: its path, the location of the applications
/// under it, and whether it is one of the roots.
#[derive(Debug, Clone, PartialEq, Eq)]
pub struct PendingDirectory {
    pub path: String,
    pub location: ApplicationLocation,
    pub is_root: bool,
}

/// The model of a pending directory.
pub open spec fn pending_view(d: PendingDirectory) -> (Seq<char>, ApplicationLocation, bool) {
    (d.path@, d.location, d.is_root)
}

/// The models of a list of pending directories.
pub open spec fn pending_views(s: Seq<PendingDirectory>) -> Seq<(Seq<char>, ApplicationLocation, bool)> {
    s.map_values(|d: PendingDirectory| pending_view(d))
}

/// The model of an inventory issue.
pub open spec fn inventory_issue_view(i: ApplicationInventoryIssue) -> (Seq<char>, Seq<char>) {
    (i.path@, i.message@)
}

/// The models of a list of inventory issues.
pub open spec fn inventory_issue_views(s: Seq<ApplicationInventoryIssue>) -> Seq<(Seq<char>, Seq<char>)> {
    s.map_values(|i: ApplicationInventoryIssue| inventory_issue_view(i))
}

/// The model of an application found by the walk: path, name and location.
pub open spec fn found_app_view(a: InstalledApplication) -> (Seq<char>, Seq<char>, ApplicationLocation) {
    (a.path@, a.name@, a.location)
}

/// The models of a list of applications.
pub open spec fn found_app_views(s: Seq<InstalledApplication>) -> Seq<
    (Seq<char>, Seq<char>, ApplicationLocation),
> {
    s.map_values(|a: InstalledApplication| found_app_view(a))
}

/// The issue one listed entry raises, if any.
pub open spec fn inventory_entry_issues(dir: Seq<char>, e: ListedEntry) -> Seq<(Seq<char>, Seq<char>)> {
    match e {
        ListedEntry::Unreadable(m) => seq![(dir, m@)],
        ListedEntry::Entry(d) => match d.entry_type {
            EntryType::Unreadable(m) => seq![(d.path@, m@)],
            _ => Seq::empty(),
        },
    }
}

/// The application one listed entry is, if any: a directory (never a symlink)
/// whose name ends in `.app`.
pub open spec fn inventory_entry_apps(location: ApplicationLocation, e: ListedEntry) -> Seq<
    (Seq<char>, Seq<char>, ApplicationLocation),
> {
    match e {
        ListedEntry::Entry(d) => if d.entry_type == EntryType::Directory && spec_is_app_bundle(
            d.path@,
        ) {
            seq![(d.path@, app_display_name(d.path@), location)]
        } else {
            Seq::empty()
        },
        ListedEntry::Unreadable(_) => Seq::empty(),
    }
}

/// The directory one listed entry leads into, if any: any other directory.
pub open spec fn inventory_entry_dirs(location: ApplicationLocation, e: ListedEntry) -> Seq<
    (Seq<char>, ApplicationLocation, bool),
> {
    match e {
        ListedEntry::Entry(d) => if d.entry_type == EntryType::Directory && !spec_is_app_bundle(
            d.path@,
        ) {
            seq![(d.path@, location, false)]
        } else {
            Seq::empty()
        },
        ListedEntry::Unreadable(_) => Seq::empty(),
    }
}

/// The issues of a listing, entry by entry.
pub open spec fn listing_issues(dir: Seq<char>, entries: Seq<ListedEntry>) -> Seq<(Seq<char>, Seq<char>)>
    decreases entries.len(),
{
    if entries.len() == 0 {
        Seq::empty()
    } else {
        listing_issues(dir, entries.drop_last()) + inventory_entry_issues(dir, entries.last())
    }
}

/// The applications of a listing, entry by entry.
pub open spec fn listing_apps(location: ApplicationLocation, entries: Seq<ListedEntry>) -> Seq<
    (Seq<char>, Seq<char>, ApplicationLocation),
>
    decreases entries.len(),
{
    if entries.len() == 0 {
        Seq::empty()
    } else {
        listing_apps(location, entries.drop_last()) + inventory_entry_apps(location, entries.last())
    }
}

/// The directories a listing leads into, in listing order.
pub open spec fn listing_dirs(location: ApplicationLocation, entries: Seq<ListedEntry>) -> Seq<
    (Seq<char>, ApplicationLocation, bool),
>
    decreases entries.len(),
{
    if entries.len() == 0 {
        Seq::empty()
    } else {
        listing_dirs(location, entries.drop_last()) + inventory_entry_dirs(location, entries.last())
    }
}

/// The issue looking at a directory raises before its entries, if any: a missing
/// root is skipped quietly, anything else that stops the listing is an issue.
pub open spec fn directory_issues(dir: Seq<char>, is_root: bool, listing: DirectoryListing) -> Seq<
    (Seq<char>, Seq<char>),
> {
    match listing {
        DirectoryListing::Missing(m) => if is_root {
            Seq::empty()
        } else {
            seq![(dir, m@)]
        },
        DirectoryListing::Unreadable(m) => seq![(dir, m@)],
        DirectoryListing::Symlink => seq![
            (dir, "application inventory directory is a symlink and was skipped"@),
        ],
        DirectoryListing::NotDirectory => seq![
            (dir, "application inventory path is not a directory"@),
        ],
        DirectoryListing::Unlistable(m) => seq![(dir, m@)],
        DirectoryListing::Listed(entries) => listing_issues(dir, entries@),
    }
}

/// One inventory in progress. The caller lists each directory handed out by
/// `next_directory` and reports it with `visit`; applications found get their
/// metadata through `set_metadata`; `finish` orders the report.
pub struct InventoryWalk {
    work: Vec<PendingDirectory>,
    current: Option<PendingDirectory>,
    applications: Vec<InstalledApplication>,
    issues: Vec<ApplicationInventoryIssue>,
}

impl InventoryWalk {
    /// The directories waiting, the next one last.
    pub closed spec fn work(&self) -> Seq<(Seq<char>, ApplicationLocation, bool)> {
        pending_views(self.work@)
    }

    /// The directory handed out and not yet reported.
    pub closed spec fn current(&self) -> Option<(Seq<char>, ApplicationLocation, bool)> {
        match self.current {
            Some(d) => Some(pending_view(d)),
            None => None,
        }
    }

    /// The applications found so far.
    pub closed spec fn spec_applications(&self) -> Seq<InstalledApplication> {
        self.applications@
    }

    /// The issues so far.
    pub closed spec fn spec_issues(&self) -> Seq<(Seq<char>, Seq<char>)> {
        inventory_issue_views(self.issues@)
    }

    /// Starts a walk of `roots`, each with the location of what it holds, in order.
    pub fn new(roots: Vec<(ApplicationLocation, String)>) -> (w: Self)
        ensures
            w.work() == Seq::new(
                roots@.len(),
                |i: int| (roots@[roots@.len() - 1 - i].1@, roots@[roots@.len() - 1 - i].0, true),
            ),
            w.current() is None,
            w.spec_applications().len() == 0,
            w.spec_issues().len() == 0,
    {
        let ghost all = roots@;
        let n = roots.len();
        let mut rest = roots;
        let mut work: Vec<PendingDirectory> = Vec::new();
        while rest.len() > 0
            invariant
                n == all.len(),
                rest@.len() <= n,
                rest@ == all.take(rest@.len() as int),
                pending_views(work@) == Seq::new(
                    (n - rest@.len()) as nat,
                    |i: int| (all[n - 1 - i].1@, all[n - 1 - i].0, true),
                ),
            decreases rest@.len(),
        {
            let ghost m = rest@.len();
            let (location, path) = rest.pop().unwrap();
            assert(rest@ =~= all.take(m - 1));
            let ghost before = pending_views(work@);
            work.push(PendingDirectory { path, location, is_root: true });
            assert(pending_views(work@) =~= before.push((all[m - 1].1@, all[m - 1].0, true)));
            assert(Seq::new(
                (n - rest@.len()) as nat,
                |i: int| (all[n - 1 - i].1@, all[n - 1 - i].0, true),
            ) =~= before.push((all[m - 1].1@, all[m - 1].0, true)));
        }
        let w = InventoryWalk {
            work,
            current: None,
            applications: Vec::new(),
            issues: Vec::new(),
        };
        assert(w.spec_issues() =~= Seq::<(Seq<char>, Seq<char>)>::empty());
        w
    }

    /// The next directory to list, if any.
    pub fn next_directory(&mut self) -> (r: Option<String>)
        requires
            old(self).current() is None,
        ensures
            final(self).spec_applications() == old(self).spec_applications(),
            final(self).spec_issues() == old(self).spec_issues(),
            old(self).work().len() == 0 ==> r is None && final(self).current() is None
                && final(self).work() == old(self).work(),
            old(self).work().len() > 0 ==> r is Some && r->0@ == old(self).work().last().0
                && final(self).current() == Some(old(self).work().last()) && final(self).work()
                == old(self).work().drop_last(),
    {
        let ghost before = pending_views(self.work@);
        match self.work.pop() {
            None => None,
            Some(d) => {
                assert(pending_views(self.work@) =~= before.drop_last());
                let out = d.path.clone();
                self.current = Some(d);
                Some(out)
            },
        }
    }

    fn push_issue(&mut self, path: String, message: String)
        ensures
            final(self).spec_issues() == old(self).spec_issues().push((path@, message@)),
            final(self).applications == old(self).applications,
            final(self).work == old(self).work,
            final(self).current == old(self).current,
    {
        let ghost before = inventory_issue_views(self.issues@);
        self.issues.push(ApplicationInventoryIssue::new(path, message));
        assert(inventory_issue_views(self.issues@) =~= before.push((path@, message@)));
    }

    /// Reports what looking at and listing the directory handed out gave. A
    /// missing root is skipped quietly; a directory that cannot be read or listed,
    /// is a symlink or is not a directory is an issue. Of the entries, each error
    /// is an issue, symlinks and non-directories are skipped, `.app` directories
    /// are applications, and other directories are walked later.
    pub fn visit(&mut self, listing: DirectoryListing)
        requires
            old(self).current() is Some,
        ensures
            final(self).current() is None,
            ({
                let (dir, location, is_root) = old(self).current()->0;
                &&& final(self).spec_issues() == old(self).spec_issues() + directory_issues(
                    dir,
                    is_root,
                    listing,
                )
                &&& found_app_views(final(self).spec_applications()) == found_app_views(
                    old(self).spec_applications(),
                ) + match listing {
                    DirectoryListing::Listed(entries) => listing_apps(location, entries@),
                    _ => Seq::empty(),
                }
                &&& forall|i: int|
                    old(self).spec_applications().len() <= i < final(self).spec_applications().len()
                        ==> no_metadata(#[trigger] final(self).spec_applications()[i].metadata)
                &&& final(self).spec_applications().take(old(self).spec_applications().len() as int)
                    == old(self).spec_applications()
                &&& final(self).work() == old(self).work() + match listing {
                    DirectoryListing::Listed(entries) => listing_dirs(location, entries@),
                    _ => Seq::empty(),
                }
            }),
    {
        let current = self.current.take();
        let PendingDirectory { path: dir, location, is_root } = match current {
            Some(d) => d,
            None => {
                return;
            },
        };
        let ghost issues0 = self.spec_issues();
        let ghost apps0 = self.applications@;
        let ghost work0 = pending_views(self.work@);
        match listing {
            DirectoryListing::Missing(m) => {
                if !is_root {
                    self.push_issue(dir, m);
                } else {
                    assert(self.spec_issues() =~= issues0 + Seq::empty());
                }
                assert(found_app_views(self.applications@) =~= found_app_views(apps0) + Seq::empty());
                assert(pending_views(self.work@) =~= work0 + Seq::empty());
                assert(self.applications@.take(apps0.len() as int) =~= apps0);
            },
            DirectoryListing::Unreadable(m) | DirectoryListing::Unlistable(m) => {
                self.push_issue(dir, m);
                assert(found_app_views(self.applications@) =~= found_app_views(apps0) + Seq::empty());
                assert(pending_views(self.work@) =~= work0 + Seq::empty());
                assert(self.applications@.take(apps0.len() as int) =~= apps0);
            },
            DirectoryListing::Symlink => {
                self.push_issue(
                    dir,
                    "application inventory directory is a symlink and was skipped".to_owned(),
                );
                assert(found_app_views(self.applications@) =~= found_app_views(apps0) + Seq::empty());
                assert(pending_views(self.work@) =~= work0 + Seq::empty());
                assert(self.applications@.take(apps0.len() as int) =~= apps0);
            },
            DirectoryListing::NotDirectory => {
                self.push_issue(dir, "application inventory path is not a directory".to_owned());
                assert(found_app_views(self.applications@) =~= found_app_views(apps0) + Seq::empty());
                assert(pending_views(self.work@) =~= work0 + Seq::empty());
                assert(self.applications@.take(apps0.len() as int) =~= apps0);
            },
            DirectoryListing::Listed(entries) => {
                let ghost all = entries@;
                assert(all.take(0) =~= Seq::<ListedEntry>::empty());
                assert(self.spec_issues() =~= issues0 + listing_issues(dir@, all.take(0)));
                assert(found_app_views(self.applications@) =~= found_app_views(apps0) + listing_apps(
                    location,
                    all.take(0),
                ));
                assert(pending_views(self.work@) =~= work0 + listing_dirs(location, all.take(0)));
                for entry in it: entries
                    invariant
                        it.seq() == all,
                        self.current is None,
                        self.spec_issues() == issues0 + listing_issues(
                            dir@,
                            all.take(it.index() as int),
                        ),
                        found_app_views(self.applications@) == found_app_views(apps0) + listing_apps(
                            location,
                            all.take(it.index() as int),
                        ),
                        forall|i: int|
                            apps0.len() <= i < self.applications@.len() ==> no_metadata(#[trigger] self.applications@[i].metadata),
                        self.applications@.take(apps0.len() as int) == apps0,
                        pending_views(self.work@) == work0 + listing_dirs(
                            location,
                            all.take(it.index() as int),
                        ),
                {
                    let ghost k = it.index() as int;
                    assert(all.take(k + 1).drop_last() =~= all.take(k));
                    assert(all.take(k + 1).last() == entry);
                    let ghost issues_before = self.spec_issues();
                    let ghost apps_before = self.applications@;
                    let ghost work_before = pending_views(self.work@);
                    match entry {
                        ListedEntry::Unreadable(m) => {
                            self.push_issue(dir.clone(), m);
                            assert(self.spec_issues() =~= issues_before + inventory_entry_issues(
                                dir@,
                                all[k],
                            ));
                            assert(found_app_views(self.applications@) =~= found_app_views(
                                apps_before,
                            ) + inventory_entry_apps(location, all[k]));
                            assert(pending_views(self.work@) =~= work_before + inventory_entry_dirs(
                                location,
                                all[k],
                            ));
                        },
                        ListedEntry::Entry(d) => {
                            let DirectoryEntry { path, name: _, entry_type } = d;
                            match entry_type {
                                EntryType::Unreadable(m) => {
                                    self.push_issue(path, m);
                                },
                                EntryType::Directory => {
                                    let (is_app, stem) = bundle_name(path.as_str());
                                    if is_app {
                                        let app = InstalledApplication::new(path, stem, location);
                                        let ghost model = found_app_view(app);
                                        self.applications.push(app);
                                        assert(found_app_views(self.applications@) =~= found_app_views(
                                            apps_before,
                                        ).push(model));
                                        assert(self.applications@.take(apps0.len() as int)
                                            =~= apps_before.take(apps0.len() as int));
                                    } else {
                                        let ghost model = (path@, location, false);
                                        self.work.push(
                                            PendingDirectory { path, location, is_root: false },
                                        );
                                        assert(pending_views(self.work@) =~= work_before.push(model));
                                    }
                                },
                                _ => {},
                            }
                            assert(self.spec_issues() =~= issues_before + inventory_entry_issues(
                                dir@,
                                all[k],
                            ));
                            assert(found_app_views(self.applications@) =~= found_app_views(
                                apps_before,
                            ) + inventory_entry_apps(location, all[k]));
                        },
                    }
                    assert(pending_views(self.work@) =~= work_before + inventory_entry_dirs(
                        location,
                        all[k],
                    ));
                    assert(pending_views(self.work@) =~= work0 + listing_dirs(location, all.take(k + 1)));
                }
                assert(all.take(all.len() as int) =~= all);
            },
        }
    }

    /// Gives the application at `index` the metadata read from its bundle.
    pub fn set_metadata(&mut self, index: usize, metadata: ApplicationMetadata)
        requires
            index < old(self).spec_applications().len(),
        ensures
            final(self).spec_applications() == old(self).spec_applications().update(
                index as int,
                InstalledApplication { metadata, ..old(self).spec_applications()[index as int] },
            ),
            final(self).spec_issues() == old(self).spec_issues(),
            final(self).work() == old(self).work(),
            final(self).current() == old(self).current(),
    {
        let mut app = self.applications.remove(index);
        app.metadata = metadata;
        self.applications.insert(index, app);
        assert(self.applications@ =~= old(self).applications@.update(
            index as int,
            InstalledApplication { metadata, ..old(self).applications@[index as int] },
        ));
    }

    /// The applications found so far.
    pub fn applications(&self) -> (r: &[InstalledApplication])
        ensures
            r@ == self.spec_applications(),
    {
        self.applications.as_slice()
    }

    /// The report: every application and issue found, ordered.
    pub fn finish(self) -> (report: ApplicationInventoryReport)
        ensures
            report.applications@.to_multiset() == self.spec_applications().to_multiset(),
            is_ordered(report.applications@),
            exists|issues: Seq<ApplicationInventoryIssue>|
                inventory_issue_views(issues) == self.spec_issues()
                    && report.issues@.to_multiset() == issues.to_multiset() && is_ordered(
                    report.issues@,
                ),
    {
        let ghost issues = self.issues@;
        let mut report = ApplicationInventoryReport {
            applications: self.applications,
            issues: self.issues,
        };
        report.sort_deterministically();
        assert(inventory_issue_views(issues) == self.spec_issues()
            && report.issues@.to_multiset() == issues.to_multiset() && is_ordered(report.issues@));
        report
    }
}

/// The folders searched for applications, in order: `/Applications` (local),
/// `/System/Applications` (system), then, when the home is known,
/// `~/Applications` (the user's).
pub open spec fn spec_application_roots(home: Option<Seq<char>>) -> Seq<(ApplicationLocation, Seq<char>)> {
    let common = seq![
        (ApplicationLocation::Local, "/Applications"@),
        (ApplicationLocation::System, "/System/Applications"@),
    ];
    match home {
        Some(h) => common.push((ApplicationLocation::User, crate::path::path_join(h, "Applications"@))),
        None => common,
    }
}

/// The folders searched for applications under `home`, if known.
pub fn application_roots(home: Option<&str>) -> (r: Vec<(ApplicationLocation, String)>)
    ensures
        r@.map_values(|e: (ApplicationLocation, String)| (e.0, e.1@)) == spec_application_roots(
            crate::safety::opt_view(home),
        ),
{
    let mut roots = vec![
        (ApplicationLocation::Local, "/Applications".to_owned()),
        (ApplicationLocation::System, "/System/Applications".to_owned()),
    ];
    match home {
        Some(h) => {
            roots.push((ApplicationLocation::User, crate::path::join_path(h, "Applications")));
        },
        None => {},
    }
    assert(roots@.map_values(|e: (ApplicationLocation, String)| (e.0, e.1@)) =~= spec_application_roots(
        crate::safety::opt_view(home),
    ));
    roots
}

/// The inventory of a platform that has none: no application, and one issue
/// saying so.
pub fn unsupported_platform_inventory() -> (r: ApplicationInventoryReport)
    ensures
        r.applications@.len() == 0,
        r.issues@.len() == 1,
        r.issues@[0].path@ == "/Applications"@,
        r.issues@[0].message@ == "installed application inventory is available only on macOS"@,
{
    ApplicationInventoryReport {
        applications: Vec::new(),
        issues: vec![
            ApplicationInventoryIssue::new(
                "/Applications".to_owned(),
                "installed application inventory is available only on macOS".to_owned(),
            ),
        ],
    }
}

} // verus!
