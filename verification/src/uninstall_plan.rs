//! The reviewable plan for uninstalling one application.
use vstd::prelude::*;

use crate::app_inventory::InstalledApplication;
use crate::app_protection::{ApplicationProtection, ApplicationProtectionPolicy, spec_protection_reasons};
use crate::order::{
    DeterministicOrder, compare_paths, compare_paths_exec, is_ordered, lemma_compare_paths,
    sort_stable,
};
use crate::path::{paths_equal, same_path};
use crate::related_files::{MatchConfidence, RelatedFileCandidate, RelatedFileKind, RelatedFileReport};

verus! {

broadcast use vstd::seq_lib::group_to_multiset_ensures;

/// What an uninstall plan item is.
#[derive(Debug, Clone, Copy, PartialEq, Eq, Structural)]
pub enum UninstallPlanItemKind {
    ApplicationBundle,
    RelatedFile(RelatedFileKind),
}

/// One path an uninstall may move to the Trash.
#[derive(Debug, Clone, PartialEq, Eq)]
pub struct UninstallPlanItem {
    path: String,
    kind: UninstallPlanItemKind,
    confidence: MatchConfidence,
    selected: bool,
    selectable: bool,
    required: bool,
    review_only: bool,
}

impl UninstallPlanItem {
    pub closed spec fn spec_path(&self) -> Seq<char> {
        self.path@
    }

    pub closed spec fn spec_kind(&self) -> UninstallPlanItemKind {
        self.kind
    }

    pub closed spec fn spec_confidence(&self) -> MatchConfidence {
        self.confidence
    }

    pub closed spec fn spec_selected(&self) -> bool {
        self.selected
    }

    pub closed spec fn spec_selectable(&self) -> bool {
        self.selectable
    }

    pub closed spec fn spec_required(&self) -> bool {
        self.required
    }

    pub closed spec fn spec_review_only(&self) -> bool {
        self.review_only
    }

    /// Whether the item has the flags of the application bundle of a plan that is
    /// (or is not) protected: required and selected unless protected, never
    /// selectable by hand.
    pub open spec fn is_application_item(&self, path: Seq<char>, protected: bool) -> bool {
        &&& self.spec_path() == path
        &&& self.spec_kind() == UninstallPlanItemKind::ApplicationBundle
        &&& self.spec_confidence() == MatchConfidence::High
        &&& self.spec_selected() == !protected
        &&& !self.spec_selectable()
        &&& self.spec_required() == !protected
        &&& !self.spec_review_only()
    }

    /// Whether the item has the flags of a related-file candidate: selectable unless
    /// protected, selected by default only at high confidence, never required.
    pub open spec fn is_related_item(&self, candidate: RelatedFileCandidate, protected: bool) -> bool {
        &&& self.spec_path() == candidate.path@
        &&& self.spec_kind() == UninstallPlanItemKind::RelatedFile(candidate.kind)
        &&& self.spec_confidence() == candidate.confidence
        &&& self.spec_selected() == (!protected && candidate.confidence == MatchConfidence::High)
        &&& self.spec_selectable() == !protected
        &&& !self.spec_required()
        &&& self.spec_review_only() == (candidate.confidence != MatchConfidence::High)
    }

    fn application(path: String, protected: bool) -> (item: Self)
        ensures
            item.is_application_item(path@, protected),
    {
        UninstallPlanItem {
            path,
            kind: UninstallPlanItemKind::ApplicationBundle,
            confidence: MatchConfidence::High,
            selected: !protected,
            selectable: false,
            required: !protected,
            review_only: false,
        }
    }

    fn related(candidate: RelatedFileCandidate, protected: bool) -> (item: Self)
        ensures
            item.is_related_item(candidate, protected),
    {
        let review_only = candidate.confidence.is_review_only();
        UninstallPlanItem {
            path: candidate.path,
            kind: UninstallPlanItemKind::RelatedFile(candidate.kind),
            confidence: candidate.confidence,
            selected: !protected && !review_only,
            selectable: !protected,
            required: false,
            review_only,
        }
    }

    pub fn path(&self) -> (r: &str)
        ensures
            r@ == self.spec_path(),
    {
        self.path.as_str()
    }

    pub fn kind(&self) -> (r: UninstallPlanItemKind)
        ensures
            r == self.spec_kind(),
    {
        self.kind
    }

    pub fn confidence(&self) -> (r: MatchConfidence)
        ensures
            r == self.spec_confidence(),
    {
        self.confidence
    }

    pub fn is_selected(&self) -> (r: bool)
        ensures
            r == self.spec_selected(),
    {
        self.selected
    }

    pub fn is_selectable(&self) -> (r: bool)
        ensures
            r == self.spec_selectable(),
    {
        self.selectable
    }

    pub fn is_required(&self) -> (r: bool)
        ensures
            r == self.spec_required(),
    {
        self.required
    }

    pub fn is_review_only(&self) -> (r: bool)
        ensures
            r == self.spec_review_only(),
    {
        self.review_only
    }
}

impl DeterministicOrder for UninstallPlanItem {
    /// The application bundle first, then by path.
    open spec fn order(self, other: Self) -> int {
        let a = self.spec_kind() == UninstallPlanItemKind::ApplicationBundle;
        let b = other.spec_kind() == UninstallPlanItemKind::ApplicationBundle;
        if a && !b {
            -1
        } else if !a && b {
            1
        } else {
            compare_paths(self.spec_path(), other.spec_path())
        }
    }

    proof fn lemma_order(a: Self, b: Self, c: Self) {
        lemma_compare_paths(a.spec_path(), b.spec_path(), c.spec_path());
        lemma_compare_paths(b.spec_path(), a.spec_path(), c.spec_path());
        lemma_compare_paths(a.spec_path(), c.spec_path(), b.spec_path());
    }

    fn compare_with(&self, other: &Self) -> (r: i8) {
        let a = match self.kind {
            UninstallPlanItemKind::ApplicationBundle => true,
            _ => false,
        };
        let b = match other.kind {
            UninstallPlanItemKind::ApplicationBundle => true,
            _ => false,
        };
        if a && !b {
            -1
        } else if !a && b {
            1
        } else {
            compare_paths_exec(self.path.as_str(), other.path.as_str())
        }
    }
}

/// The number of selected items.
pub open spec fn count_selected_items(items: Seq<UninstallPlanItem>) -> nat
    decreases items.len(),
{
    if items.len() == 0 {
        0
    } else {
        count_selected_items(items.drop_last()) + if items.last().spec_selected() {
            1nat
        } else {
            0nat
        }
    }
}

/// The index of the first item whose path is the same path as `path`, or the length.
pub open spec fn first_item_index(items: Seq<UninstallPlanItem>, path: Seq<char>) -> int
    decreases items.len(),
{
    if items.len() == 0 {
        0
    } else if same_path(items[0].spec_path(), path) {
        0
    } else {
        1 + first_item_index(items.drop_first(), path)
    }
}

/// The first item with a path is the first one found.
pub proof fn lemma_first_item_index(items: Seq<UninstallPlanItem>, path: Seq<char>, k: int)
    requires
        0 <= k <= items.len(),
        k < items.len() ==> same_path(items[k].spec_path(), path),
        forall|j: int| 0 <= j < k ==> !same_path(#[trigger] items[j].spec_path(), path),
    ensures
        first_item_index(items, path) == k,
    decreases items.len(),
{
    if items.len() > 0 && k > 0 {
        assert forall|j: int| 0 <= j < k - 1 implies !same_path(
            #[trigger] items.drop_first()[j].spec_path(),
            path,
        ) by {
            assert(items.drop_first()[j] == items[j + 1]);
        }
        lemma_first_item_index(items.drop_first(), path, k - 1);
    }
}

/// What an uninstall would move to the Trash, for review.
#[derive(Debug, Clone, PartialEq, Eq)]
pub struct UninstallPlan {
    application: InstalledApplication,
    protection: ApplicationProtection,
    items: Vec<UninstallPlanItem>,
}

/// The items a plan is built from, before ordering: the application bundle, then
/// one item per related-file candidate.
pub open spec fn plan_item_wellformed(
    items: Seq<UninstallPlanItem>,
    application: InstalledApplication,
    candidates: Seq<RelatedFileCandidate>,
    protected: bool,
) -> bool {
    &&& items.len() == candidates.len() + 1
    &&& items[0].is_application_item(application.path@, protected)
    &&& forall|i: int|
        0 <= i < candidates.len() ==> (#[trigger] items[i + 1]).is_related_item(
            candidates[i],
            protected,
        )
}

impl UninstallPlan {
    pub closed spec fn spec_application(&self) -> InstalledApplication {
        self.application
    }

    pub closed spec fn spec_protection(&self) -> ApplicationProtection {
        self.protection
    }

    pub closed spec fn spec_items(&self) -> Seq<UninstallPlanItem> {
        self.items@
    }

    /// Plans the uninstall of `application` with its related files: the application
    /// bundle first, then the related files by path. A protected application's plan
    /// selects nothing and lets nothing be selected.
    pub fn build(application: InstalledApplication, related: RelatedFileReport) -> (plan: Self)
        ensures
            plan.spec_application() == application,
            plan.spec_protection().spec_is_protected() == (spec_protection_reasons(application).len()
                > 0),
            exists|unordered: Seq<UninstallPlanItem>|
                plan_item_wellformed(
                    unordered,
                    application,
                    related.candidates@,
                    plan.spec_protection().spec_is_protected(),
                ) && #[trigger] unordered.to_multiset() == plan.spec_items().to_multiset(),
            is_ordered(plan.spec_items()),
    {
        let protection = ApplicationProtectionPolicy.evaluate(&application);
        let protected = protection.is_protected();
        let mut items: Vec<UninstallPlanItem> = Vec::new();
        items.push(UninstallPlanItem::application(application.path.clone(), protected));
        let ghost candidates = related.candidates@;
        for candidate in it: related.candidates
            invariant
                it.seq() == candidates,
                items@.len() == it.index() + 1,
                items@[0].is_application_item(application.path@, protected),
                forall|i: int|
                    0 <= i < it.index() ==> (#[trigger] items@[i + 1]).is_related_item(
                        candidates[i],
                        protected,
                    ),
        {
            items.push(UninstallPlanItem::related(candidate, protected));
        }
        let ghost unordered = items@;
        let sorted = sort_stable(items);
        assert(plan_item_wellformed(unordered, application, candidates, protected));
        UninstallPlan { application, protection, items: sorted }
    }

    pub fn application(&self) -> (r: &InstalledApplication)
        ensures
            *r == self.spec_application(),
    {
        &self.application
    }

    pub fn protection(&self) -> (r: &ApplicationProtection)
        ensures
            *r == self.spec_protection(),
    {
        &self.protection
    }

    pub fn items(&self) -> (r: &[UninstallPlanItem])
        ensures
            r@ == self.spec_items(),
    {
        self.items.as_slice()
    }

    pub fn is_protected(&self) -> (r: bool)
        ensures
            r == self.spec_protection().spec_is_protected(),
    {
        self.protection.is_protected()
    }

    /// The number of selected items.
    pub fn selected_count(&self) -> (n: usize)
        ensures
            n == count_selected_items(self.spec_items()),
    {
        let mut n: usize = 0;
        let mut i: usize = 0;
        while i < self.items.len()
            invariant
                i <= self.items@.len(),
                n == count_selected_items(self.items@.take(i as int)),
                n <= i,
            decreases self.items@.len() - i,
        {
            assert(self.items@.take(i + 1).drop_last() =~= self.items@.take(i as int));
            if self.items[i].selected {
                n = n + 1;
            }
            i = i + 1;
        }
        assert(self.items@.take(self.items@.len() as int) =~= self.items@);
        n
    }

    /// Selects or deselects the first item with the given path. Refused, changing
    /// nothing, when no item has the path or the item is required or not selectable.
    pub fn set_selected(&mut self, path: &str, selected: bool) -> (changed: bool)
        ensures
            final(self).spec_application() == old(self).spec_application(),
            final(self).spec_protection() == old(self).spec_protection(),
            final(self).spec_items().len() == old(self).spec_items().len(),
            ({
                let items = old(self).spec_items();
                let k = first_item_index(items, path@);
                &&& changed == (k < items.len() && items[k].spec_selectable()
                    && !items[k].spec_required())
                &&& forall|i: int|
                    0 <= i < items.len() && (i != k || !changed) ==> final(self).spec_items()[i]
                        == items[i]
                &&& changed ==> {
                    let after = final(self).spec_items()[k];
                    &&& after.spec_selected() == selected
                    &&& after.spec_path() == items[k].spec_path()
                    &&& after.spec_kind() == items[k].spec_kind()
                    &&& after.spec_confidence() == items[k].spec_confidence()
                    &&& after.spec_selectable() == items[k].spec_selectable()
                    &&& after.spec_required() == items[k].spec_required()
                    &&& after.spec_review_only() == items[k].spec_review_only()
                }
            }),
    {
        let mut i: usize = 0;
        while i < self.items.len()
            invariant
                i <= self.items@.len(),
                self.items@ == old(self).items@,
                self.application == old(self).application,
                self.protection == old(self).protection,
                forall|j: int| 0 <= j < i ==> !same_path(#[trigger] self.items@[j].spec_path(), path@),
            decreases self.items@.len() - i,
        {
            if paths_equal(self.items[i].path.as_str(), path) {
                proof {
                    lemma_first_item_index(self.items@, path@, i as int);
                }
                if !self.items[i].selectable || self.items[i].required {
                    return false;
                }
                self.items[i].selected = selected;
                return true;
            }
            i = i + 1;
        }
        proof {
            lemma_first_item_index(self.items@, path@, self.items@.len() as int);
        }
        false
    }
}

/// In a protected plan nothing is selected, selectable or required, and no call of
/// `set_selected` can change that.
pub proof fn protected_plan_locks_every_item(
    items: Seq<UninstallPlanItem>,
    application: InstalledApplication,
    candidates: Seq<RelatedFileCandidate>,
    ordered: Seq<UninstallPlanItem>,
)
    requires
        plan_item_wellformed(items, application, candidates, true),
        items.to_multiset() == ordered.to_multiset(),
    ensures
        forall|i: int|
            0 <= i < ordered.len() ==> !(#[trigger] ordered[i]).spec_selected()
                && !ordered[i].spec_selectable() && !ordered[i].spec_required(),
{
    assert forall|i: int| 0 <= i < ordered.len() implies !(#[trigger] ordered[i]).spec_selected()
        && !ordered[i].spec_selectable() && !ordered[i].spec_required() by {
        assert(ordered.contains(ordered[i]));
        assert(ordered.to_multiset().count(ordered[i]) > 0);
        assert(items.contains(ordered[i]));
        let j = choose|j: int| 0 <= j < items.len() && items[j] == ordered[i];
        if j > 0 {
            assert(items[(j - 1) + 1].is_related_item(candidates[j - 1], true));
        }
    }
}

} // verus!
