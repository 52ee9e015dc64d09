//! The files in a user's Library that belong to one application.
//!
//! A search is planned from the application and the home directory; the caller
//! looks at each planned path and lists the ByHost preferences directory, and the
//! search then keeps what exists and is not a symlink.
use vstd::prelude::*;

use crate::app_inventory::InstalledApplication;
use crate::bundle_identifier::{is_safe_bundle_identifier, spec_is_safe_bundle_identifier};
use crate::listing::{DirectoryEntry, DirectoryListing, EntryType, ListedEntry};
use crate::order::{DeterministicOrder, HasPath, dedup_by_path, is_ordered, lemma_dedup_keeps_first_of_each_path};
use crate::path::{join_path, path_join, same_path};
use crate::planner::EntryKind;
use crate::related_files::{
    MatchConfidence, MatchEvidence, RelatedFileCandidate, RelatedFileKind, RelatedFileReport,
};
use crate::text::{chars_of, chars_starts_with, concat_str};
use crate::uninstall_execution::RelatedFileExecutionRoot;

verus! {

/// The model of a related-file candidate.
pub struct CandidateModel {
    pub path: Seq<char>,
    pub kind: RelatedFileKind,
    pub confidence: MatchConfidence,
    pub evidence_rank: int,
    pub evidence_text: Seq<char>,
}

/// The model of a candidate.
pub open spec fn related_view(c: RelatedFileCandidate) -> CandidateModel {
    CandidateModel {
        path: c.path@,
        kind: c.kind,
        confidence: c.confidence,
        evidence_rank: c.evidence.rank(),
        evidence_text: c.evidence.text(),
    }
}

/// The models of a list of candidates.
pub open spec fn related_views(s: Seq<RelatedFileCandidate>) -> Seq<CandidateModel> {
    s.map_values(|c: RelatedFileCandidate| related_view(c))
}

/// A candidate model found by exact bundle identifier.
pub open spec fn exact_model(path: Seq<char>, kind: RelatedFileKind, id: Seq<char>) -> CandidateModel {
    CandidateModel {
        path,
        kind,
        confidence: MatchConfidence::High,
        evidence_rank: 0,
        evidence_text: id,
    }
}

/// A candidate model found by display name.
pub open spec fn name_model(path: Seq<char>, kind: RelatedFileKind, name: Seq<char>) -> CandidateModel {
    CandidateModel { path, kind, confidence: MatchConfidence::Low, evidence_rank: 1, evidence_text: name }
}

/// The paths named exactly after a bundle identifier, under the Library.
pub open spec fn exact_probes(library: Seq<char>, id: Seq<char>) -> Seq<CandidateModel> {
    seq![
        exact_model(
            path_join(path_join(library, "Application Support"@), id),
            RelatedFileKind::ApplicationSupport,
            id,
        ),
        exact_model(path_join(path_join(library, "Caches"@), id), RelatedFileKind::Cache, id),
        exact_model(path_join(path_join(library, "Containers"@), id), RelatedFileKind::Container, id),
        exact_model(
            path_join(path_join(library, "HTTPStorages"@), id),
            RelatedFileKind::HttpStorage,
            id,
        ),
        exact_model(
            path_join(path_join(library, "Preferences"@), id + ".plist"@),
            RelatedFileKind::Preference,
            id,
        ),
        exact_model(
            path_join(path_join(library, "Saved Application State"@), id + ".savedState"@),
            RelatedFileKind::SavedState,
            id,
        ),
    ]
}

/// The paths named after a display name, under the Library.
pub open spec fn name_probes(library: Seq<char>, name: Seq<char>) -> Seq<CandidateModel> {
    seq![
        name_model(
            path_join(path_join(library, "Application Support"@), name),
            RelatedFileKind::ApplicationSupport,
            name,
        ),
        name_model(path_join(path_join(library, "Caches"@), name), RelatedFileKind::Cache, name),
    ]
}

/// The application's bundle identifier, when it is safe to join onto a path.
pub open spec fn safe_bundle_identifier(app: InstalledApplication) -> Option<Seq<char>> {
    match app.metadata.bundle_identifier {
        Some(id) => if spec_is_safe_bundle_identifier(id@) {
            Some(id@)
        } else {
            None
        },
        None => None,
    }
}

/// The planned search for `app` under `home`: exact paths, the ByHost directory
/// and identifier, and display-name paths.
pub open spec fn spec_plan(app: InstalledApplication, home: Seq<char>) -> (
    Seq<CandidateModel>,
    Option<(Seq<char>, Seq<char>)>,
    Seq<CandidateModel>,
) {
    let library = path_join(home, "Library"@);
    let exact = match safe_bundle_identifier(app) {
        Some(id) => exact_probes(library, id),
        None => Seq::empty(),
    };
    let by_host = match safe_bundle_identifier(app) {
        Some(id) => Some((path_join(library, "Preferences/ByHost"@), id)),
        None => None,
    };
    let by_name = if app.name@.len() > 0 {
        name_probes(library, app.name@)
    } else {
        Seq::empty()
    };
    (exact, by_host, by_name)
}

/// The probes whose path was found and is not a symlink.
pub open spec fn confirmed(probes: Seq<CandidateModel>, seen: Seq<EntryKind>) -> Seq<CandidateModel>
    decreases probes.len(),
{
    if probes.len() == 0 {
        Seq::empty()
    } else {
        let rest = confirmed(probes.drop_last(), seen);
        let k = probes.len() - 1;
        if seen[k].was_read() && seen[k] != EntryKind::Symlink {
            rest.push(probes[k])
        } else {
            rest
        }
    }
}

/// The candidate one ByHost entry is, if any: a readable entry that is not a
/// symlink, whose UTF-8 name starts with the identifier and a dot.
pub open spec fn by_host_match(id: Seq<char>, e: ListedEntry) -> Seq<CandidateModel> {
    match e {
        ListedEntry::Entry(d) => if !(d.entry_type is Unreadable) && d.entry_type != EntryType::Symlink
            && d.name is Some && (id + "."@).is_prefix_of(d.name->0@) {
            seq![
                CandidateModel {
                    path: d.path@,
                    kind: RelatedFileKind::Preference,
                    confidence: MatchConfidence::Medium,
                    evidence_rank: 2,
                    evidence_text: id,
                },
            ]
        } else {
            Seq::empty()
        },
        ListedEntry::Unreadable(_) => Seq::empty(),
    }
}

/// The candidates of a ByHost listing, entry by entry.
pub open spec fn by_host_matches(id: Seq<char>, entries: Seq<ListedEntry>) -> Seq<CandidateModel>
    decreases entries.len(),
{
    if entries.len() == 0 {
        Seq::empty()
    } else {
        by_host_matches(id, entries.drop_last()) + by_host_match(id, entries.last())
    }
}

/// The candidates of the ByHost directory: only a listed directory has any.
pub open spec fn by_host_found(search: Option<(Seq<char>, Seq<char>)>, listing: DirectoryListing) -> Seq<
    CandidateModel,
> {
    match search {
        Some((_, id)) => match listing {
            DirectoryListing::Listed(entries) => by_host_matches(id, entries@),
            _ => Seq::empty(),
        },
        None => Seq::empty(),
    }
}

/// A planned search for the related files of one application.
pub struct RelatedFileSearch {
    exact: Vec<RelatedFileCandidate>,
    by_host: Option<(String, String)>,
    by_name: Vec<RelatedFileCandidate>,
}

impl RelatedFileSearch {
    /// The exact-identifier probes.
    pub closed spec fn exact(&self) -> Seq<CandidateModel> {
        related_views(self.exact@)
    }

    /// The ByHost directory and the identifier its entries must start with.
    pub closed spec fn by_host(&self) -> Option<(Seq<char>, Seq<char>)> {
        match self.by_host {
            Some((d, id)) => Some((d@, id@)),
            None => None,
        }
    }

    /// The display-name probes.
    pub closed spec fn by_name(&self) -> Seq<CandidateModel> {
        related_views(self.by_name@)
    }

    /// Plans the search for `application` under `home`. With a safe bundle
    /// identifier, the six paths named exactly after it are probed with high
    /// confidence, and ByHost preferences starting with it are listed; with a
    /// display name, the two paths named after it are probed with low confidence.
    pub fn plan(application: &InstalledApplication, home: &str) -> (s: Self)
        ensures
            (s.exact(), s.by_host(), s.by_name()) == spec_plan(*application, home@),
    {
        let library = join_path(home, "Library");
        let l = library.as_str();
        let mut exact: Vec<RelatedFileCandidate> = Vec::new();
        let mut by_host: Option<(String, String)> = None;
        match &application.metadata.bundle_identifier {
            Some(id) => {
                if is_safe_bundle_identifier(id.as_str()) {
                    let i = id.as_str();
                    let plist = concat_str(i, ".plist");
                    let saved = concat_str(i, ".savedState");
                    exact = vec![
                        RelatedFileCandidate::new(
                            join_path(join_path(l, "Application Support").as_str(), i),
                            RelatedFileKind::ApplicationSupport,
                            MatchConfidence::High,
                            MatchEvidence::ExactBundleIdentifier(id.clone()),
                        ),
                        RelatedFileCandidate::new(
                            join_path(join_path(l, "Caches").as_str(), i),
                            RelatedFileKind::Cache,
                            MatchConfidence::High,
                            MatchEvidence::ExactBundleIdentifier(id.clone()),
                        ),
                        RelatedFileCandidate::new(
                            join_path(join_path(l, "Containers").as_str(), i),
                            RelatedFileKind::Container,
                            MatchConfidence::High,
                            MatchEvidence::ExactBundleIdentifier(id.clone()),
                        ),
                        RelatedFileCandidate::new(
                            join_path(join_path(l, "HTTPStorages").as_str(), i),
                            RelatedFileKind::HttpStorage,
                            MatchConfidence::High,
                            MatchEvidence::ExactBundleIdentifier(id.clone()),
                        ),
                        RelatedFileCandidate::new(
                            join_path(join_path(l, "Preferences").as_str(), plist.as_str()),
                            RelatedFileKind::Preference,
                            MatchConfidence::High,
                            MatchEvidence::ExactBundleIdentifier(id.clone()),
                        ),
                        RelatedFileCandidate::new(
                            join_path(join_path(l, "Saved Application State").as_str(), saved.as_str()),
                            RelatedFileKind::SavedState,
                            MatchConfidence::High,
                            MatchEvidence::ExactBundleIdentifier(id.clone()),
                        ),
                    ];
                    by_host = Some((join_path(l, "Preferences/ByHost"), id.clone()));
                }
            },
            None => {},
        }
        let mut by_name: Vec<RelatedFileCandidate> = Vec::new();
        let name = application.name.as_str();
        if name.unicode_len() > 0 {
            by_name = vec![
                RelatedFileCandidate::new(
                    join_path(join_path(l, "Application Support").as_str(), name),
                    RelatedFileKind::ApplicationSupport,
                    MatchConfidence::Low,
                    MatchEvidence::ExactDisplayName(application.name.clone()),
                ),
                RelatedFileCandidate::new(
                    join_path(join_path(l, "Caches").as_str(), name),
                    RelatedFileKind::Cache,
                    MatchConfidence::Low,
                    MatchEvidence::ExactDisplayName(application.name.clone()),
                ),
            ];
        }
        let s = RelatedFileSearch { exact, by_host, by_name };
        assert(s.exact() =~= spec_plan(*application, home@).0);
        assert(s.by_name() =~= spec_plan(*application, home@).2);
        s
    }

    /// The paths to look at (`fs::symlink_metadata`), in order: the exact probes,
    /// then the display-name probes.
    pub fn probe_paths(&self) -> (r: Vec<String>)
        ensures
            crate::path::string_views(r@) == self.exact().map_values(|c: CandidateModel| c.path)
                + self.by_name().map_values(|c: CandidateModel| c.path),
    {
        let mut r: Vec<String> = Vec::new();
        let mut i: usize = 0;
        while i < self.exact.len()
            invariant
                i <= self.exact@.len(),
                crate::path::string_views(r@) == self.exact().map_values(|c: CandidateModel| c.path).take(
                    i as int,
                ),
            decreases self.exact@.len() - i,
        {
            let ghost before = crate::path::string_views(r@);
            r.push(self.exact[i].path.clone());
            assert(crate::path::string_views(r@) =~= before.push(self.exact@[i as int].path@));
            assert(self.exact().map_values(|c: CandidateModel| c.path).take(i + 1) =~= before.push(
                self.exact@[i as int].path@,
            ));
            i = i + 1;
        }
        let ghost first = self.exact().map_values(|c: CandidateModel| c.path);
        assert(first.take(self.exact@.len() as int) =~= first);
        let mut j: usize = 0;
        while j < self.by_name.len()
            invariant
                j <= self.by_name@.len(),
                crate::path::string_views(r@) == first + self.by_name().map_values(
                    |c: CandidateModel| c.path,
                ).take(j as int),
            decreases self.by_name@.len() - j,
        {
            let ghost before = crate::path::string_views(r@);
            r.push(self.by_name[j].path.clone());
            assert(crate::path::string_views(r@) =~= before.push(self.by_name@[j as int].path@));
            assert(first + self.by_name().map_values(|c: CandidateModel| c.path).take(j + 1)
                =~= before.push(self.by_name@[j as int].path@));
            j = j + 1;
        }
        let ghost second = self.by_name().map_values(|c: CandidateModel| c.path);
        assert(second.take(self.by_name@.len() as int) =~= second);
        r
    }

    /// The number of exact probes.
    pub fn exact_count(&self) -> (n: usize)
        ensures
            n == self.exact().len(),
    {
        self.exact.len()
    }

    /// The ByHost directory to list, if any.
    pub fn by_host_directory(&self) -> (r: Option<&str>)
        ensures
            crate::safety::opt_view(r) == match self.by_host() {
                Some((d, _)) => Some(d),
                None => None,
            },
    {
        match &self.by_host {
            Some((d, _)) => Some(d.as_str()),
            None => None,
        }
    }

    fn keep_confirmed(
        out: &mut Vec<RelatedFileCandidate>,
        probes: Vec<RelatedFileCandidate>,
        seen: &Vec<EntryKind>,
        offset: usize,
    )
        requires
            offset + probes@.len() <= seen@.len(),
        ensures
            related_views(final(out)@) == related_views(old(out)@) + confirmed(
                related_views(probes@),
                seen@.subrange(offset as int, offset + probes@.len()),
            ),
    {
        let ghost all = probes@;
        let ghost part = seen@.subrange(offset as int, offset + probes@.len());
        let ghost start = related_views(out@);
        assert(related_views(all).take(0) =~= Seq::<CandidateModel>::empty());
        assert(related_views(out@) =~= start + confirmed(related_views(all).take(0), part));
        let seen_len = seen.len();
        let mut k: usize = 0;
        for c in it: probes
            invariant
                it.seq() == all,
                k == it.index(),
                k <= all.len(),
                seen_len == seen@.len(),
                offset + all.len() <= seen@.len(),
                part == seen@.subrange(offset as int, offset + all.len()),
                related_views(out@) == start + confirmed(related_views(all).take(k as int), part),
        {
            let ghost before = related_views(out@);
            let ghost views = related_views(all);
            assert(views.take(k + 1).drop_last() =~= views.take(k as int));
            assert(views.take(k + 1).last() == related_view(c));
            assert(views.take(k + 1).len() - 1 == k);
            assert(part[k as int] == seen@[offset + k]);
            let e = seen[offset + k];
            let keep = match e {
                EntryKind::Missing | EntryKind::PermissionDenied | EntryKind::Unreadable
                | EntryKind::Symlink => false,
                _ => true,
            };
            if keep {
                out.push(c);
                assert(related_views(out@) =~= before.push(related_view(c)));
            }
            k = k + 1;
        }
        assert(related_views(all).take(all.len() as int) =~= related_views(all));
    }

    /// Finishes the search. `seen` holds what the file system reports for each
    /// path of `probe_paths`, in order; `by_host` what looking at and listing the
    /// ByHost directory gave. Kept: each probed path that exists and is not a
    /// symlink, and each ByHost entry that is not a symlink and whose name starts
    /// with the identifier and a dot (medium confidence); then ordered, keeping
    /// the first candidate of each path.
    pub fn finish(self, seen: &Vec<EntryKind>, by_host: DirectoryListing) -> (report: RelatedFileReport)
        requires
            seen@.len() == self.exact().len() + self.by_name().len(),
        ensures
            exists|found: Seq<RelatedFileCandidate>, sorted: Seq<RelatedFileCandidate>|
                {
                    &&& related_views(found) == confirmed(
                        self.exact(),
                        seen@.subrange(0, self.exact().len() as int),
                    ) + by_host_found(self.by_host(), by_host) + confirmed(
                        self.by_name(),
                        seen@.subrange(self.exact().len() as int, seen@.len() as int),
                    )
                    &&& sorted.to_multiset() == found.to_multiset()
                    &&& is_ordered(sorted)
                    &&& report.candidates@ == dedup_by_path(sorted)
                },
            forall|k: int|
                0 <= k < seen@.len() && is_existing_entry(seen@[k]) ==> exists|i: int|
                    0 <= i < report.candidates@.len() && same_path(
                        report.candidates@[i].path@,
                        (#[trigger] (self.exact() + self.by_name())[k]).path,
                    ),
    {
        let ghost exact_view = self.exact();
        let ghost name_view = self.by_name();
        let ghost host_view = self.by_host();
        let RelatedFileSearch { exact, by_host: host, by_name } = self;
        let exact_len = exact.len();
        let mut out: Vec<RelatedFileCandidate> = Vec::new();
        assert(related_views(out@) =~= Seq::<CandidateModel>::empty());
        Self::keep_confirmed(&mut out, exact, seen, 0);
        assert(related_views(out@) =~= confirmed(exact_view, seen@.subrange(0, exact_len as int)));
        let ghost after_exact = related_views(out@);
        match (host, by_host) {
            (Some((_, id)), DirectoryListing::Listed(entries)) => {
                let prefix = concat_str(id.as_str(), ".");
                let prefix_chars = chars_of(prefix.as_str());
                let ghost all = entries@;
                let ghost idv = id@;
                assert(all.take(0) =~= Seq::<ListedEntry>::empty());
                assert(related_views(out@) =~= after_exact + by_host_matches(idv, all.take(0)));
                for entry in it: entries
                    invariant
                        it.seq() == all,
                        prefix_chars@ == idv + "."@,
                        id@ == idv,
                        related_views(out@) == after_exact + by_host_matches(
                            idv,
                            all.take(it.index() as int),
                        ),
                {
                    let ghost k = it.index() as int;
                    assert(all.take(k + 1).drop_last() =~= all.take(k));
                    assert(all.take(k + 1).last() == entry);
                    let ghost before = related_views(out@);
                    let mut added = false;
                    match entry {
                        ListedEntry::Entry(d) => {
                            let DirectoryEntry { path, name, entry_type } = d;
                            let usable = match entry_type {
                                EntryType::Unreadable(_) | EntryType::Symlink => false,
                                _ => true,
                            };
                            if usable {
                                match name {
                                    Some(n) => {
                                        let nc = chars_of(n.as_str());
                                        if chars_starts_with(nc.as_slice(), prefix_chars.as_slice()) {
                                            let c = RelatedFileCandidate::new(
                                                path,
                                                RelatedFileKind::Preference,
                                                MatchConfidence::Medium,
                                                MatchEvidence::BundleIdentifierPrefix(id.clone()),
                                            );
                                            let ghost model = related_view(c);
                                            out.push(c);
                                            assert(related_views(out@) =~= before.push(model));
                                            assert(by_host_match(idv, all[k]) =~= seq![model]);
                                            added = true;
                                        }
                                    },
                                    None => {},
                                }
                            }
                        },
                        ListedEntry::Unreadable(_) => {},
                    }
                    if !added {
                        assert(by_host_match(idv, all[k]) =~= Seq::<CandidateModel>::empty());
                    }
                    assert(related_views(out@) =~= before + by_host_match(idv, all[k]));
                }
                assert(all.take(all.len() as int) =~= all);
            },
            _ => {
                assert(related_views(out@) =~= after_exact + by_host_found(host_view, by_host));
            },
        }
        let ghost after_host = related_views(out@);
        assert(after_host == after_exact + by_host_found(host_view, by_host));
        let name_len = by_name.len();
        Self::keep_confirmed(&mut out, by_name, seen, exact_len);
        assert(seen@.subrange(exact_len as int, exact_len + name_len) =~= seen@.subrange(
            exact_len as int,
            seen@.len() as int,
        ));
        let ghost found = out@;
        let mut report = RelatedFileReport { candidates: out };
        report.sort_deterministically();
        proof {
            broadcast use vstd::seq_lib::group_to_multiset_ensures;

            let sorted = choose|sorted: Seq<RelatedFileCandidate>|
                sorted.to_multiset() == found.to_multiset() && is_ordered(sorted)
                    && report.candidates@ == dedup_by_path(sorted);
            let probes = exact_view + name_view;
            let exact_seen = seen@.subrange(0, exact_len as int);
            let name_seen = seen@.subrange(exact_len as int, seen@.len() as int);
            let views = related_views(found);
            assert(views == confirmed(exact_view, exact_seen) + by_host_found(host_view, by_host)
                + confirmed(name_view, name_seen));
            confirmed_probes_are_the_existing_entries(exact_view, exact_seen);
            confirmed_probes_are_the_existing_entries(name_view, name_seen);
            lemma_dedup_keeps_first_of_each_path(sorted);
            assert forall|k: int|
                0 <= k < seen@.len() && is_existing_entry(seen@[k]) implies exists|i: int|
                    0 <= i < report.candidates@.len() && same_path(
                        report.candidates@[i].path@,
                        (#[trigger] probes[k]).path,
                    ) by {
                let model = probes[k];
                let front = confirmed(exact_view, exact_seen);
                let back = confirmed(name_view, name_seen);
                let host = by_host_found(host_view, by_host);
                let m: int = if k < exact_len {
                    assert(exact_seen[k] == seen@[k]);
                    assert(model == exact_view[k]);
                    assert(front.contains(exact_view[k]));
                    let j = choose|j: int| 0 <= j < front.len() && front[j] == exact_view[k];
                    assert(views[j] == front[j]);
                    j
                } else {
                    let q = k - exact_len;
                    assert(name_seen[q] == seen@[k]);
                    assert(model == name_view[q]);
                    assert(back.contains(name_view[q]));
                    let j = choose|j: int| 0 <= j < back.len() && back[j] == name_view[q];
                    assert(views[front.len() + host.len() + j] == back[j]);
                    front.len() + host.len() + j
                };
                assert(0 <= m < found.len());
                assert(related_view(found[m]) == model);
                assert(found.to_multiset().count(found[m]) > 0) by {
                    assert(found.contains(found[m]));
                }
                assert(sorted.to_multiset().count(found[m]) > 0);
                assert(sorted.contains(found[m]));
                let n = choose|n: int| 0 <= n < sorted.len() && sorted[n] == found[m];
                assert(sorted[n].path_view() == model.path);
                let i = choose|i: int|
                    0 <= i < dedup_by_path(sorted).len() && same_path(
                        dedup_by_path(sorted)[i].path_view(),
                        sorted[n].path_view(),
                    ) && RelatedFileCandidate::order(dedup_by_path(sorted)[i], sorted[n]) <= 0;
                assert(report.candidates@[i].path@ == dedup_by_path(sorted)[i].path_view());
            }
        }
        report
    }
}

/// The confirmed probes are probes.
proof fn lemma_confirmed_subset(probes: Seq<CandidateModel>, seen: Seq<EntryKind>, i: int)
    requires
        0 <= i < confirmed(probes, seen).len(),
    ensures
        exists|j: int| 0 <= j < probes.len() && confirmed(probes, seen)[i] == probes[j],
    decreases probes.len(),
{
    if probes.len() > 0 {
        let rest = confirmed(probes.drop_last(), seen);
        if i < rest.len() {
            lemma_confirmed_subset(probes.drop_last(), seen, i);
            let j = choose|j: int| 0 <= j < probes.drop_last().len() && rest[i] == probes.drop_last()[j];
            assert(probes.drop_last()[j] == probes[j]);
            assert(confirmed(probes, seen)[i] == probes[j]);
        } else {
            assert(confirmed(probes, seen)[i] == probes[probes.len() - 1]);
        }
    }
}

/// With a safe bundle identifier `id`, the search probes, with high confidence and
/// the identifier as evidence, the six places named after it under
/// `home/Library`: `Application Support/<id>`, `Caches/<id>`, `Containers/<id>`,
/// `HTTPStorages/<id>` (directories of their kinds), `Preferences/<id>.plist`
/// and `Saved Application State/<id>.savedState`; and it lists
/// `Preferences/ByHost` for entries starting with `<id>.`. Without one it probes
/// nothing by identifier.
pub proof fn plan_probes_the_places_named_after_the_identifier(app: InstalledApplication, home: Seq<char>)
    ensures
        ({
            let plan = spec_plan(app, home);
            let library = path_join(home, "Library"@);
            let high = |path: Seq<char>, kind: RelatedFileKind, id: Seq<char>|
                CandidateModel {
                    path,
                    kind,
                    confidence: MatchConfidence::High,
                    evidence_rank: 0,
                    evidence_text: id,
                };
            match safe_bundle_identifier(app) {
                Some(id) => {
                    &&& plan.0.len() == 6
                    &&& plan.0.contains(
                        high(
                            path_join(path_join(library, "Application Support"@), id),
                            RelatedFileKind::ApplicationSupport,
                            id,
                        ),
                    )
                    &&& plan.0.contains(
                        high(path_join(path_join(library, "Caches"@), id), RelatedFileKind::Cache, id),
                    )
                    &&& plan.0.contains(
                        high(
                            path_join(path_join(library, "Containers"@), id),
                            RelatedFileKind::Container,
                            id,
                        ),
                    )
                    &&& plan.0.contains(
                        high(
                            path_join(path_join(library, "HTTPStorages"@), id),
                            RelatedFileKind::HttpStorage,
                            id,
                        ),
                    )
                    &&& plan.0.contains(
                        high(
                            path_join(path_join(library, "Preferences"@), id + ".plist"@),
                            RelatedFileKind::Preference,
                            id,
                        ),
                    )
                    &&& plan.0.contains(
                        high(
                            path_join(path_join(library, "Saved Application State"@), id + ".savedState"@),
                            RelatedFileKind::SavedState,
                            id,
                        ),
                    )
                    &&& plan.1 == Some((path_join(library, "Preferences/ByHost"@), id))
                },
                None => plan.0.len() == 0 && plan.1 is None,
            }
        }),
{
    let plan = spec_plan(app, home);
    if let Some(id) = safe_bundle_identifier(app) {
        let library = path_join(home, "Library"@);
        let probes = exact_probes(library, id);
        assert(plan.0 == probes);
        assert(probes.contains(probes[0]));
        assert(probes.contains(probes[1]));
        assert(probes.contains(probes[2]));
        assert(probes.contains(probes[3]));
        assert(probes.contains(probes[4]));
        assert(probes.contains(probes[5]));
    }
}

/// Whether the file system reported an entry that exists and is not a symlink.
pub open spec fn is_existing_entry(e: EntryKind) -> bool {
    e == EntryKind::File || e == EntryKind::Directory || e == EntryKind::Other
}

/// A probe is kept exactly when the file system found it and it is not a symlink,
/// whatever kind of entry it is: every such probe is among the confirmed ones,
/// and every confirmed one is such a probe.
pub proof fn confirmed_probes_are_the_existing_entries(probes: Seq<CandidateModel>, seen: Seq<EntryKind>)
    requires
        probes.len() <= seen.len(),
    ensures
        forall|k: int|
            0 <= k < probes.len() && is_existing_entry(seen[k]) ==> confirmed(probes, seen).contains(
                #[trigger] probes[k],
            ),
        forall|c: CandidateModel|
            #[trigger] confirmed(probes, seen).contains(c) ==> exists|k: int|
                0 <= k < probes.len() && probes[k] == c && is_existing_entry(seen[k]),
    decreases probes.len(),
{
    if probes.len() > 0 {
        let p = probes.drop_last();
        let last = probes.len() - 1;
        confirmed_probes_are_the_existing_entries(p, seen);
        let rest = confirmed(p, seen);
        let all = confirmed(probes, seen);
        assert(seen[last].was_read() && seen[last] != EntryKind::Symlink <==> is_existing_entry(
            seen[last],
        ));
        assert forall|k: int| 0 <= k < probes.len() && is_existing_entry(seen[k]) implies all.contains(
            #[trigger] probes[k],
        ) by {
            if k < last {
                assert(p[k] == probes[k]);
                assert(rest.contains(p[k]));
                let j = choose|j: int| 0 <= j < rest.len() && rest[j] == p[k];
                assert(all[j] == rest[j]);
            } else {
                assert(all[all.len() - 1] == probes[k]);
            }
        }
        assert forall|c: CandidateModel| #[trigger] all.contains(c) implies exists|k: int|
            0 <= k < probes.len() && probes[k] == c && is_existing_entry(seen[k]) by {
            let j = choose|j: int| 0 <= j < all.len() && all[j] == c;
            if j < rest.len() {
                assert(all[j] == rest[j]);
                assert(rest.contains(c));
                let k = choose|k: int| 0 <= k < p.len() && p[k] == c && is_existing_entry(seen[k]);
                assert(probes[k] == p[k]);
            } else {
                assert(probes[last] == c);
            }
        }
    }
}

/// Without a safe bundle identifier, no related file is found with high
/// confidence: only display-name matches, which are low, remain.
pub proof fn unsafe_identifier_yields_no_high_confidence(
    app: InstalledApplication,
    home: Seq<char>,
    seen: Seq<EntryKind>,
    by_host: DirectoryListing,
)
    requires
        safe_bundle_identifier(app) is None,
    ensures
        ({
            let plan = spec_plan(app, home);
            let found = confirmed(plan.0, seen.subrange(0, plan.0.len() as int)) + by_host_found(
                plan.1,
                by_host,
            ) + confirmed(plan.2, seen.subrange(plan.0.len() as int, seen.len() as int));
            forall|i: int| 0 <= i < found.len() ==> (#[trigger] found[i]).confidence
                != MatchConfidence::High
        }),
{
    let plan = spec_plan(app, home);
    let part = seen.subrange(plan.0.len() as int, seen.len() as int);
    assert(confirmed(plan.0, seen.subrange(0, plan.0.len() as int)) =~= Seq::<CandidateModel>::empty());
    let found = confirmed(plan.0, seen.subrange(0, plan.0.len() as int)) + by_host_found(plan.1, by_host)
        + confirmed(plan.2, part);
    assert(found =~= confirmed(plan.2, part));
    assert forall|i: int| 0 <= i < found.len() implies (#[trigger] found[i]).confidence
        != MatchConfidence::High by {
        lemma_confirmed_subset(plan.2, part, i);
    }
}

/// The Library folders under `home` where related files may be moved to the
/// Trash, one per kind, in kind order: Application Support, Caches, Containers,
/// HTTPStorages, Preferences and Saved Application State.
pub open spec fn spec_execution_roots(home: Seq<char>) -> Seq<(RelatedFileKind, Seq<char>)> {
    let library = path_join(home, "Library"@);
    seq![
        (RelatedFileKind::ApplicationSupport, path_join(library, "Application Support"@)),
        (RelatedFileKind::Cache, path_join(library, "Caches"@)),
        (RelatedFileKind::Container, path_join(library, "Containers"@)),
        (RelatedFileKind::HttpStorage, path_join(library, "HTTPStorages"@)),
        (RelatedFileKind::Preference, path_join(library, "Preferences"@)),
        (RelatedFileKind::SavedState, path_join(library, "Saved Application State"@)),
    ]
}

/// The execution roots of an uninstall for the user whose home is `home`.
pub fn execution_roots(home: &str) -> (r: Vec<RelatedFileExecutionRoot>)
    ensures
        r@.map_values(|root: RelatedFileExecutionRoot| (root.kind, root.path@)) == spec_execution_roots(
            home@,
        ),
{
    let library = join_path(home, "Library");
    let l = library.as_str();
    let r = vec![
        RelatedFileExecutionRoot {
            kind: RelatedFileKind::ApplicationSupport,
            path: join_path(l, "Application Support"),
        },
        RelatedFileExecutionRoot { kind: RelatedFileKind::Cache, path: join_path(l, "Caches") },
        RelatedFileExecutionRoot { kind: RelatedFileKind::Container, path: join_path(l, "Containers") },
        RelatedFileExecutionRoot { kind: RelatedFileKind::HttpStorage, path: join_path(l, "HTTPStorages") },
        RelatedFileExecutionRoot { kind: RelatedFileKind::Preference, path: join_path(l, "Preferences") },
        RelatedFileExecutionRoot {
            kind: RelatedFileKind::SavedState,
            path: join_path(l, "Saved Application State"),
        },
    ];
    assert(r@.map_values(|root: RelatedFileExecutionRoot| (root.kind, root.path@))
        =~= spec_execution_roots(home@));
    r
}

} // verus!
