//! Files an application leaves behind, and how sure a match is.
use vstd::prelude::*;

use crate::app_inventory::{InstalledApplication, compare_int};
use crate::order::{
    DeterministicOrder, HasPath, compare_chars, compare_paths, compare_paths_exec,
    compare_strings_exec, dedup_by_path, dedup_paths, is_ordered, lemma_compare_chars,
    lemma_compare_paths, lemma_dedup_elements, lemma_dedup_keeps_first_of_each_path,
    lemma_dedup_unique_paths, orders_by_path_first, sort_stable,
};

verus! {

/// How strongly a candidate is tied to an application.
#[derive(Debug, Clone, Copy, PartialEq, Eq, PartialOrd, Ord, Structural)]
pub enum MatchConfidence {
    Low,
    Medium,
    High,
}

impl MatchConfidence {
    /// The position in the declared order.
    pub open spec fn rank(self) -> int {
        match self {
            MatchConfidence::Low => 0,
            MatchConfidence::Medium => 1,
            MatchConfidence::High => 2,
        }
    }

    pub open spec fn spec_label(self) -> Seq<char> {
        match self {
            MatchConfidence::Low => "low"@,
            MatchConfidence::Medium => "medium"@,
            MatchConfidence::High => "high"@,
        }
    }

    /// A short name for the confidence.
    pub fn label(self) -> (label: &'static str)
        ensures
            label@ == self.spec_label(),
    {
        match self {
            MatchConfidence::Low => "low",
            MatchConfidence::Medium => "medium",
            MatchConfidence::High => "high",
        }
    }

    /// Anything short of high confidence needs a person's review.
    pub fn is_review_only(self) -> (r: bool)
        ensures
            r == (self != MatchConfidence::High),
    {
        self != MatchConfidence::High
    }

    pub fn rank_exec(self) -> (r: i8)
        ensures
            r as int == self.rank(),
    {
        match self {
            MatchConfidence::Low => 0,
            MatchConfidence::Medium => 1,
            MatchConfidence::High => 2,
        }
    }
}

/// Where under the user's Library a related file lives.
#[derive(Debug, Clone, Copy, PartialEq, Eq, PartialOrd, Ord, Structural)]
pub enum RelatedFileKind {
    ApplicationSupport,
    Cache,
    Container,
    HttpStorage,
    Preference,
    SavedState,
}

impl RelatedFileKind {
    /// The position in the declared order.
    pub open spec fn rank(self) -> int {
        match self {
            RelatedFileKind::ApplicationSupport => 0,
            RelatedFileKind::Cache => 1,
            RelatedFileKind::Container => 2,
            RelatedFileKind::HttpStorage => 3,
            RelatedFileKind::Preference => 4,
            RelatedFileKind::SavedState => 5,
        }
    }

    pub fn rank_exec(self) -> (r: i8)
        ensures
            r as int == self.rank(),
    {
        match self {
            RelatedFileKind::ApplicationSupport => 0,
            RelatedFileKind::Cache => 1,
            RelatedFileKind::Container => 2,
            RelatedFileKind::HttpStorage => 3,
            RelatedFileKind::Preference => 4,
            RelatedFileKind::SavedState => 5,
        }
    }
}

/// Why a candidate was matched.
#[derive(Debug, Clone, PartialEq, Eq, PartialOrd, Ord)]
pub enum MatchEvidence {
    ExactBundleIdentifier(String),
    ExactDisplayName(String),
    BundleIdentifierPrefix(String),
}

impl MatchEvidence {
    /// The position of the variant in the declared order.
    pub open spec fn rank(&self) -> int {
        match self {
            MatchEvidence::ExactBundleIdentifier(_) => 0,
            MatchEvidence::ExactDisplayName(_) => 1,
            MatchEvidence::BundleIdentifierPrefix(_) => 2,
        }
    }

    /// The text the evidence carries.
    pub open spec fn text(&self) -> Seq<char> {
        match self {
            MatchEvidence::ExactBundleIdentifier(s) => s@,
            MatchEvidence::ExactDisplayName(s) => s@,
            MatchEvidence::BundleIdentifierPrefix(s) => s@,
        }
    }

    /// The order of evidence: by variant, then by text.
    pub open spec fn order(&self, other: &Self) -> int {
        let by_variant = compare_int(self.rank(), other.rank());
        if by_variant != 0 {
            by_variant
        } else {
            compare_chars(self.text(), other.text())
        }
    }

    fn text_str(&self) -> (r: &str)
        ensures
            r@ == self.text(),
    {
        match self {
            MatchEvidence::ExactBundleIdentifier(s) => s.as_str(),
            MatchEvidence::ExactDisplayName(s) => s.as_str(),
            MatchEvidence::BundleIdentifierPrefix(s) => s.as_str(),
        }
    }

    fn rank_exec(&self) -> (r: i8)
        ensures
            r as int == self.rank(),
    {
        match self {
            MatchEvidence::ExactBundleIdentifier(_) => 0,
            MatchEvidence::ExactDisplayName(_) => 1,
            MatchEvidence::BundleIdentifierPrefix(_) => 2,
        }
    }

    fn compare_evidence(&self, other: &Self) -> (r: i8)
        ensures
            r as int == self.order(other),
    {
        let a = self.rank_exec();
        let b = other.rank_exec();
        if a < b {
            return -1;
        }
        if a > b {
            return 1;
        }
        compare_strings_exec(self.text_str(), other.text_str())
    }
}

/// A file or directory that may belong to an application.
#[derive(Debug, Clone, PartialEq, Eq)]
pub struct RelatedFileCandidate {
    pub path: String,
    pub kind: RelatedFileKind,
    pub confidence: MatchConfidence,
    pub evidence: MatchEvidence,
}

impl RelatedFileCandidate {
    pub fn new(
        path: String,
        kind: RelatedFileKind,
        confidence: MatchConfidence,
        evidence: MatchEvidence,
    ) -> (c: Self)
        ensures
            c.path == path,
            c.kind == kind,
            c.confidence == confidence,
            c.evidence == evidence,
    {
        RelatedFileCandidate { path, kind, confidence, evidence }
    }
}

impl HasPath for RelatedFileCandidate {
    open spec fn path_view(&self) -> Seq<char> {
        self.path@
    }

    fn path_str(&self) -> (r: &str) {
        self.path.as_str()
    }
}

impl DeterministicOrder for RelatedFileCandidate {
    /// By path, then strongest confidence first, then kind, then evidence.
    open spec fn order(self, other: Self) -> int {
        let by_path = compare_paths(self.path@, other.path@);
        let by_confidence = compare_int(other.confidence.rank(), self.confidence.rank());
        let by_kind = compare_int(self.kind.rank(), other.kind.rank());
        if by_path != 0 {
            by_path
        } else if by_confidence != 0 {
            by_confidence
        } else if by_kind != 0 {
            by_kind
        } else {
            self.evidence.order(&other.evidence)
        }
    }

    proof fn lemma_order(a: Self, b: Self, c: Self) {
        lemma_compare_paths(a.path@, b.path@, c.path@);
        lemma_compare_paths(b.path@, c.path@, a.path@);
        lemma_compare_paths(a.path@, c.path@, b.path@);
        lemma_compare_paths(c.path@, b.path@, a.path@);
        lemma_compare_paths(b.path@, a.path@, c.path@);
        lemma_compare_paths(c.path@, a.path@, b.path@);
        lemma_compare_chars(a.evidence.text(), b.evidence.text(), c.evidence.text());
        lemma_compare_chars(b.evidence.text(), a.evidence.text(), c.evidence.text());
        lemma_compare_chars(a.evidence.text(), c.evidence.text(), b.evidence.text());
    }

    fn compare_with(&self, other: &Self) -> (r: i8) {
        let by_path = compare_paths_exec(self.path.as_str(), other.path.as_str());
        if by_path != 0 {
            return by_path;
        }
        let a = self.confidence.rank_exec();
        let b = other.confidence.rank_exec();
        if b < a {
            return -1;
        }
        if b > a {
            return 1;
        }
        let ka = self.kind.rank_exec();
        let kb = other.kind.rank_exec();
        if ka < kb {
            return -1;
        }
        if ka > kb {
            return 1;
        }
        self.evidence.compare_evidence(&other.evidence)
    }
}

/// The related files found for one application.
#[derive(Debug, Clone, Default, PartialEq, Eq)]
pub struct RelatedFileReport {
    pub candidates: Vec<RelatedFileCandidate>,
}

impl RelatedFileReport {
    /// Orders the candidates (by path, strongest first, then kind and evidence) and
    /// keeps only the first candidate of each path.
    pub fn sort_deterministically(&mut self)
        ensures
            exists|sorted: Seq<RelatedFileCandidate>|
                sorted.to_multiset() == old(self).candidates@.to_multiset() && is_ordered(sorted)
                    && final(self).candidates@ == dedup_by_path(sorted),
    {
        let mut candidates: Vec<RelatedFileCandidate> = Vec::new();
        std::mem::swap(&mut candidates, &mut self.candidates);
        let sorted = sort_stable(candidates);
        let ghost sorted_view = sorted@;
        self.candidates = dedup_paths(sorted);
        assert(sorted_view.to_multiset() == old(self).candidates@.to_multiset() && is_ordered(
            sorted_view,
        ) && self.candidates@ == dedup_by_path(sorted_view));
    }
}

/// A source of related-file reports.
pub trait RelatedFileMatcher {
    fn related_files(&self, application: &InstalledApplication) -> RelatedFileReport;
}

proof fn lemma_candidate_order_is_path_first()
    ensures
        orders_by_path_first::<RelatedFileCandidate>(),
{
    assert forall|a: RelatedFileCandidate, b: RelatedFileCandidate| #[trigger] RelatedFileCandidate::order(a, b) <= 0 implies compare_paths(
        a.path_view(),
        b.path_view(),
    ) <= 0 by {
        lemma_compare_paths(a.path@, b.path@, b.path@);
    }
}

proof fn lemma_candidate_rank_of_order(a: RelatedFileCandidate, b: RelatedFileCandidate)
    requires
        crate::path::same_path(a.path@, b.path@),
        RelatedFileCandidate::order(a, b) <= 0,
    ensures
        a.confidence.rank() >= b.confidence.rank(),
{
    lemma_compare_paths(a.path@, b.path@, b.path@);
}

proof fn lemma_candidates_kept_from_unsorted(unsorted: Seq<RelatedFileCandidate>, sorted: Seq<RelatedFileCandidate>)
    requires
        sorted.to_multiset() == unsorted.to_multiset(),
    ensures
        forall|i: int| 0 <= i < dedup_by_path(sorted).len() ==> unsorted.contains(
            #[trigger] dedup_by_path(sorted)[i],
        ),
{
    broadcast use vstd::seq_lib::group_to_multiset_ensures;

    lemma_dedup_elements(sorted);
    let kept = dedup_by_path(sorted);
    assert forall|i: int| 0 <= i < kept.len() implies unsorted.contains(#[trigger] kept[i]) by {
        let m = choose|m: int| 0 <= m < sorted.len() && kept[i] == sorted[m];
        assert(sorted.contains(sorted[m]));
        assert(sorted.to_multiset().count(sorted[m]) > 0);
    }
}

proof fn lemma_candidates_strongest_kept(unsorted: Seq<RelatedFileCandidate>, sorted: Seq<RelatedFileCandidate>)
    requires
        sorted.to_multiset() == unsorted.to_multiset(),
        is_ordered(sorted),
    ensures
        forall|k: int|
            0 <= k < unsorted.len() ==> exists|i: int|
                0 <= i < dedup_by_path(sorted).len() && crate::path::same_path(
                    dedup_by_path(sorted)[i].path@,
                    (#[trigger] unsorted[k]).path@,
                ) && dedup_by_path(sorted)[i].confidence.rank() >= unsorted[k].confidence.rank(),
{
    lemma_dedup_keeps_first_of_each_path(sorted);
    let kept = dedup_by_path(sorted);
    assert forall|k: int| 0 <= k < unsorted.len() implies exists|i: int|
        0 <= i < kept.len() && crate::path::same_path(kept[i].path@, (#[trigger] unsorted[k]).path@)
            && kept[i].confidence.rank() >= unsorted[k].confidence.rank() by {
        assert(sorted.contains(unsorted[k])) by {
            broadcast use vstd::seq_lib::group_to_multiset_ensures;

            assert(unsorted.contains(unsorted[k]));
            assert(unsorted.to_multiset().count(unsorted[k]) > 0);
        }
        let m = choose|m: int| 0 <= m < sorted.len() && sorted[m] == unsorted[k];
        let i = choose|i: int|
            0 <= i < kept.len() && crate::path::same_path(kept[i].path_view(), sorted[m].path_view())
                && RelatedFileCandidate::order(kept[i], sorted[m]) <= 0;
        lemma_candidate_rank_of_order(kept[i], sorted[m]);
    }
}

/// A deterministically sorted report keeps each path once, only candidates it was
/// given, and for every candidate it was given one of the same path with at least
/// its confidence: the strongest candidate of each path.
pub proof fn sorted_report_keeps_strongest_per_path(
    unsorted: Seq<RelatedFileCandidate>,
    sorted: Seq<RelatedFileCandidate>,
)
    requires
        sorted.to_multiset() == unsorted.to_multiset(),
        is_ordered(sorted),
    ensures
        forall|i: int, j: int|
            0 <= i < j < dedup_by_path(sorted).len() ==> !crate::path::same_path(
                (#[trigger] dedup_by_path(sorted)[i]).path@,
                (#[trigger] dedup_by_path(sorted)[j]).path@,
            ),
        forall|i: int| 0 <= i < dedup_by_path(sorted).len() ==> unsorted.contains(
            #[trigger] dedup_by_path(sorted)[i],
        ),
        forall|k: int|
            0 <= k < unsorted.len() ==> exists|i: int|
                0 <= i < dedup_by_path(sorted).len() && crate::path::same_path(
                    dedup_by_path(sorted)[i].path@,
                    (#[trigger] unsorted[k]).path@,
                ) && dedup_by_path(sorted)[i].confidence.rank() >= unsorted[k].confidence.rank(),
{
    lemma_candidate_order_is_path_first();
    lemma_dedup_unique_paths(sorted);
    lemma_candidates_kept_from_unsorted(unsorted, sorted);
    lemma_candidates_strongest_kept(unsorted, sorted);
}

} // verus!
