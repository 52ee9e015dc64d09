//! Leftover data whose application is no longer installed.
use vstd::prelude::*;

use crate::app_inventory::{InstalledApplication, compare_int};
use crate::order::{
    DeterministicOrder, HasPath, compare_chars, compare_paths, compare_paths_exec,
    compare_strings_exec, dedup_by_path, dedup_paths, is_ordered, lemma_compare_chars,
    lemma_compare_paths, lemma_dedup_elements, lemma_dedup_keeps_first_of_each_path,
    lemma_dedup_unique_paths, orders_by_path_first, sort_stable,
};
use crate::related_files::{MatchConfidence, RelatedFileKind};

verus! {

/// A leftover entry named after a bundle identifier no installed application has.
#[derive(Debug, Clone, PartialEq, Eq)]
pub struct OrphanCandidate {
    pub bundle_identifier: String,
    pub path: String,
    pub kind: RelatedFileKind,
    pub confidence: MatchConfidence,
}

impl OrphanCandidate {
    pub fn new(
        bundle_identifier: String,
        path: String,
        kind: RelatedFileKind,
        confidence: MatchConfidence,
    ) -> (c: Self)
        ensures
            c.bundle_identifier == bundle_identifier,
            c.path == path,
            c.kind == kind,
            c.confidence == confidence,
    {
        OrphanCandidate { bundle_identifier, path, kind, confidence }
    }
}

impl HasPath for OrphanCandidate {
    open spec fn path_view(&self) -> Seq<char> {
        self.path@
    }

    fn path_str(&self) -> (r: &str) {
        self.path.as_str()
    }
}

impl DeterministicOrder for OrphanCandidate {
    /// By path, then strongest confidence first, then bundle identifier, then kind.
    open spec fn order(self, other: Self) -> int {
        let by_path = compare_paths(self.path@, other.path@);
        let by_confidence = compare_int(other.confidence.rank(), self.confidence.rank());
        let by_identifier = compare_chars(self.bundle_identifier@, other.bundle_identifier@);
        if by_path != 0 {
            by_path
        } else if by_confidence != 0 {
            by_confidence
        } else if by_identifier != 0 {
            by_identifier
        } else {
            compare_int(self.kind.rank(), other.kind.rank())
        }
    }

    proof fn lemma_order(a: Self, b: Self, c: Self) {
        lemma_compare_paths(a.path@, b.path@, c.path@);
        lemma_compare_paths(b.path@, c.path@, a.path@);
        lemma_compare_paths(a.path@, c.path@, b.path@);
        lemma_compare_paths(c.path@, b.path@, a.path@);
        lemma_compare_paths(b.path@, a.path@, c.path@);
        lemma_compare_paths(c.path@, a.path@, b.path@);
        lemma_compare_chars(a.bundle_identifier@, b.bundle_identifier@, c.bundle_identifier@);
        lemma_compare_chars(b.bundle_identifier@, a.bundle_identifier@, c.bundle_identifier@);
        lemma_compare_chars(a.bundle_identifier@, c.bundle_identifier@, b.bundle_identifier@);
        lemma_compare_chars(c.bundle_identifier@, b.bundle_identifier@, a.bundle_identifier@);
        lemma_compare_chars(b.bundle_identifier@, c.bundle_identifier@, a.bundle_identifier@);
        lemma_compare_chars(c.bundle_identifier@, a.bundle_identifier@, b.bundle_identifier@);
    }

    fn compare_with(&self, other: &Self) -> (r: i8) {
        let by_path = compare_paths_exec(self.path.as_str(), other.path.as_str());
        if by_path != 0 {
            return by_path;
        }
        let a = self.confidence.rank_exec();
        let b = other.confidence.rank_exec();
        if b < a {
            return -1;
        }
        if b > a {
            return 1;
        }
        let by_identifier = compare_strings_exec(
            self.bundle_identifier.as_str(),
            other.bundle_identifier.as_str(),
        );
        if by_identifier != 0 {
            return by_identifier;
        }
        let ka = self.kind.rank_exec();
        let kb = other.kind.rank_exec();
        if ka < kb {
            -1
        } else if ka > kb {
            1
        } else {
            0
        }
    }
}

/// Something the orphan finder could not read.
#[derive(Debug, Clone, PartialEq, Eq)]
pub struct OrphanFinderIssue {
    pub path: String,
    pub message: String,
}

impl OrphanFinderIssue {
    pub fn new(path: String, message: String) -> (issue: Self)
        ensures
            issue.path == path,
            issue.message == message,
    {
        OrphanFinderIssue { path, message }
    }
}

impl DeterministicOrder for OrphanFinderIssue {
    /// By path, then message.
    open spec fn order(self, other: Self) -> int {
        let by_path = compare_paths(self.path@, other.path@);
        if by_path != 0 {
            by_path
        } else {
            compare_chars(self.message@, other.message@)
        }
    }

    proof fn lemma_order(a: Self, b: Self, c: Self) {
        lemma_compare_paths(a.path@, b.path@, c.path@);
        lemma_compare_paths(b.path@, c.path@, a.path@);
        lemma_compare_paths(a.path@, c.path@, b.path@);
        lemma_compare_paths(c.path@, b.path@, a.path@);
        lemma_compare_paths(b.path@, a.path@, c.path@);
        lemma_compare_paths(c.path@, a.path@, b.path@);
        lemma_compare_chars(a.message@, b.message@, c.message@);
        lemma_compare_chars(b.message@, a.message@, c.message@);
        lemma_compare_chars(a.message@, c.message@, b.message@);
    }

    fn compare_with(&self, other: &Self) -> (r: i8) {
        let by_path = compare_paths_exec(self.path.as_str(), other.path.as_str());
        if by_path != 0 {
            return by_path;
        }
        compare_strings_exec(self.message.as_str(), other.message.as_str())
    }
}

/// The orphans found, and what could not be read.
#[derive(Debug, Clone, Default, PartialEq, Eq)]
pub struct OrphanReport {
    pub candidates: Vec<OrphanCandidate>,
    pub issues: Vec<OrphanFinderIssue>,
}

impl OrphanReport {
    /// Orders candidates (by path, strongest first, then identifier and kind) keeping
    /// the first of each path, and orders issues by path and message.
    pub fn sort_deterministically(&mut self)
        ensures
            exists|sorted: Seq<OrphanCandidate>|
                sorted.to_multiset() == old(self).candidates@.to_multiset() && is_ordered(sorted)
                    && final(self).candidates@ == dedup_by_path(sorted),
            final(self).issues@.to_multiset() == old(self).issues@.to_multiset(),
            is_ordered(final(self).issues@),
    {
        let mut candidates: Vec<OrphanCandidate> = Vec::new();
        std::mem::swap(&mut candidates, &mut self.candidates);
        let sorted = sort_stable(candidates);
        let ghost sorted_view = sorted@;
        self.candidates = dedup_paths(sorted);
        assert(sorted_view.to_multiset() == old(self).candidates@.to_multiset() && is_ordered(
            sorted_view,
        ) && self.candidates@ == dedup_by_path(sorted_view));
        let mut issues: Vec<OrphanFinderIssue> = Vec::new();
        std::mem::swap(&mut issues, &mut self.issues);
        self.issues = sort_stable(issues);
    }
}

/// A source of orphan reports.
pub trait OrphanFinder {
    fn find_orphans(&self, installed: &[InstalledApplication]) -> OrphanReport;
}

proof fn lemma_leftover_order_is_path_first()
    ensures
        orders_by_path_first::<OrphanCandidate>(),
{
    assert forall|a: OrphanCandidate, b: OrphanCandidate| #[trigger] OrphanCandidate::order(a, b) <= 0 implies compare_paths(
        a.path_view(),
        b.path_view(),
    ) <= 0 by {
        lemma_compare_paths(a.path@, b.path@, b.path@);
    }
}

proof fn lemma_leftover_rank_of_order(a: OrphanCandidate, b: OrphanCandidate)
    requires
        crate::path::same_path(a.path@, b.path@),
        OrphanCandidate::order(a, b) <= 0,
    ensures
        a.confidence.rank() >= b.confidence.rank(),
{
    lemma_compare_paths(a.path@, b.path@, b.path@);
}

proof fn lemma_leftovers_kept_from_unsorted(unsorted: Seq<OrphanCandidate>, sorted: Seq<OrphanCandidate>)
    requires
        sorted.to_multiset() == unsorted.to_multiset(),
    ensures
        forall|i: int| 0 <= i < dedup_by_path(sorted).len() ==> unsorted.contains(
            #[trigger] dedup_by_path(sorted)[i],
        ),
{
    broadcast use vstd::seq_lib::group_to_multiset_ensures;

    lemma_dedup_elements(sorted);
    let kept = dedup_by_path(sorted);
    assert forall|i: int| 0 <= i < kept.len() implies unsorted.contains(#[trigger] kept[i]) by {
        let m = choose|m: int| 0 <= m < sorted.len() && kept[i] == sorted[m];
        assert(sorted.contains(sorted[m]));
        assert(sorted.to_multiset().count(sorted[m]) > 0);
    }
}

proof fn lemma_leftovers_strongest_kept(unsorted: Seq<OrphanCandidate>, sorted: Seq<OrphanCandidate>)
    requires
        sorted.to_multiset() == unsorted.to_multiset(),
        is_ordered(sorted),
    ensures
        forall|k: int|
            0 <= k < unsorted.len() ==> exists|i: int|
                0 <= i < dedup_by_path(sorted).len() && crate::path::same_path(
                    dedup_by_path(sorted)[i].path@,
                    (#[trigger] unsorted[k]).path@,
                ) && dedup_by_path(sorted)[i].confidence.rank() >= unsorted[k].confidence.rank(),
{
    lemma_dedup_keeps_first_of_each_path(sorted);
    let kept = dedup_by_path(sorted);
    assert forall|k: int| 0 <= k < unsorted.len() implies exists|i: int|
        0 <= i < kept.len() && crate::path::same_path(kept[i].path@, (#[trigger] unsorted[k]).path@)
            && kept[i].confidence.rank() >= unsorted[k].confidence.rank() by {
        assert(sorted.contains(unsorted[k])) by {
            broadcast use vstd::seq_lib::group_to_multiset_ensures;

            assert(unsorted.contains(unsorted[k]));
            assert(unsorted.to_multiset().count(unsorted[k]) > 0);
        }
        let m = choose|m: int| 0 <= m < sorted.len() && sorted[m] == unsorted[k];
        let i = choose|i: int|
            0 <= i < kept.len() && crate::path::same_path(kept[i].path_view(), sorted[m].path_view())
                && OrphanCandidate::order(kept[i], sorted[m]) <= 0;
        lemma_leftover_rank_of_order(kept[i], sorted[m]);
    }
}

/// A deterministically sorted report keeps each path once, only leftovers it was
/// given, and for every leftover it was given one of the same path with at least
/// its confidence: the strongest leftover of each path.
pub proof fn sorted_report_keeps_strongest_per_path(
    unsorted: Seq<OrphanCandidate>,
    sorted: Seq<OrphanCandidate>,
)
    requires
        sorted.to_multiset() == unsorted.to_multiset(),
        is_ordered(sorted),
    ensures
        forall|i: int, j: int|
            0 <= i < j < dedup_by_path(sorted).len() ==> !crate::path::same_path(
                (#[trigger] dedup_by_path(sorted)[i]).path@,
                (#[trigger] dedup_by_path(sorted)[j]).path@,
            ),
        forall|i: int| 0 <= i < dedup_by_path(sorted).len() ==> unsorted.contains(
            #[trigger] dedup_by_path(sorted)[i],
        ),
        forall|k: int|
            0 <= k < unsorted.len() ==> exists|i: int|
                0 <= i < dedup_by_path(sorted).len() && crate::path::same_path(
                    dedup_by_path(sorted)[i].path@,
                    (#[trigger] unsorted[k]).path@,
                ) && dedup_by_path(sorted)[i].confidence.rank() >= unsorted[k].confidence.rank(),
{
    lemma_leftover_order_is_path_first();
    lemma_dedup_unique_paths(sorted);
    lemma_leftovers_kept_from_unsorted(unsorted, sorted);
    lemma_leftovers_strongest_kept(unsorted, sorted);
}

} // verus!
