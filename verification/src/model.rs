use vstd::prelude::*;

use crate::path::{paths_equal, same_path};

verus! {

/// The kinds of disposable data the cleaner knows about.
#[derive(Debug, Clone, Copy, PartialEq, Eq, Hash, Structural)]
pub enum CleanupCategory {
    UserCache,
    SystemCache,
    Xcode,
    Homebrew,
    Node,
    Docker,
    LargeFiles,
}

impl CleanupCategory {
    pub open spec fn spec_label(self) -> Seq<char> {
        match self {
            CleanupCategory::UserCache => "User Cache"@,
            CleanupCategory::SystemCache => "System Cache"@,
            CleanupCategory::Xcode => "Xcode"@,
            CleanupCategory::Homebrew => "Homebrew"@,
            CleanupCategory::Node => "Node"@,
            CleanupCategory::Docker => "Docker"@,
            CleanupCategory::LargeFiles => "Large Files"@,
        }
    }

    /// Human-readable name of the category.
    pub fn label(self) -> (label: &'static str)
        ensures
            label@ == self.spec_label(),
    {
        match self {
            CleanupCategory::UserCache => "User Cache",
            CleanupCategory::SystemCache => "System Cache",
            CleanupCategory::Xcode => "Xcode",
            CleanupCategory::Homebrew => "Homebrew",
            CleanupCategory::Node => "Node",
            CleanupCategory::Docker => "Docker",
            CleanupCategory::LargeFiles => "Large Files",
        }
    }
}

/// One file-system entry found by a scan.
#[derive(Debug, Clone, PartialEq, Eq)]
pub struct ScanItem {
    pub path: String,
    pub category: CleanupCategory,
    pub bytes: u64,
    pub is_symlink: bool,
}

impl ScanItem {
    /// A field-by-field copy.
    pub fn duplicate(&self) -> (r: ScanItem)
        ensures
            r == *self,
    {
        ScanItem {
            path: self.path.clone(),
            category: self.category,
            bytes: self.bytes,
            is_symlink: self.is_symlink,
        }
    }
}

/// The sum of the byte counts of the items.
pub open spec fn total_bytes(items: Seq<ScanItem>) -> int
    decreases items.len(),
{
    if items.len() == 0 {
        0
    } else {
        total_bytes(items.drop_last()) + items.last().bytes
    }
}

/// Item count and total size of a scan.
#[derive(Debug, Clone, PartialEq, Eq, Default)]
pub struct ScanSummary {
    pub item_count: usize,
    pub total_bytes: u64,
}

impl ScanSummary {
    /// Summarises the items: their number and the sum of their sizes.
    pub fn from_items(items: &[ScanItem]) -> (summary: ScanSummary)
        requires
            total_bytes(items@) <= u64::MAX,
        ensures
            summary.item_count == items@.len(),
            summary.total_bytes == total_bytes(items@),
    {
        let mut sum: u64 = 0;
        let mut i: usize = 0;
        while i < items.len()
            invariant
                i <= items@.len(),
                total_bytes(items@) <= u64::MAX,
                sum == total_bytes(items@.take(i as int)),
            decreases items@.len() - i,
        {
            proof {
                assert(items@.take(i + 1).drop_last() =~= items@.take(i as int));
                lemma_total_bytes_prefix(items@, i + 1);
            }
            sum = sum + items[i].bytes;
            i = i + 1;
        }
        assert(items@.take(items@.len() as int) =~= items@);
        ScanSummary { item_count: items.len(), total_bytes: sum }
    }
}

/// A prefix never holds more bytes than the whole sequence.
pub proof fn lemma_total_bytes_prefix(items: Seq<ScanItem>, n: int)
    requires
        0 <= n <= items.len(),
    ensures
        total_bytes(items.take(n)) <= total_bytes(items),
        total_bytes(items.take(n)) >= 0,
    decreases items.len() - n,
{
    if n < items.len() {
        lemma_total_bytes_prefix(items, n + 1);
        assert(items.take(n + 1).drop_last() =~= items.take(n));
    } else {
        assert(items.take(n) =~= items);
    }
    lemma_total_bytes_nonneg(items.take(n));
}

/// Byte totals are never negative.
pub proof fn lemma_total_bytes_nonneg(items: Seq<ScanItem>)
    ensures
        total_bytes(items) >= 0,
    decreases items.len(),
{
    if items.len() > 0 {
        lemma_total_bytes_nonneg(items.drop_last());
    }
}

/// A scan item together with whether it is selected for cleanup.
#[derive(Debug, Clone, PartialEq, Eq)]
pub struct CleanupPlanItem {
    pub item: ScanItem,
    pub selected: bool,
}

/// The reviewable list of items a cleanup would act on.
#[derive(Debug, Clone, PartialEq, Eq, Default)]
pub struct CleanupPlan {
    pub items: Vec<CleanupPlanItem>,
}

/// The number of selected entries.
pub open spec fn count_selected(entries: Seq<CleanupPlanItem>) -> nat
    decreases entries.len(),
{
    if entries.len() == 0 {
        0
    } else {
        count_selected(entries.drop_last()) + if entries.last().selected {
            1nat
        } else {
            0nat
        }
    }
}

/// The sum of the sizes of the selected entries.
pub open spec fn selected_total(entries: Seq<CleanupPlanItem>) -> int
    decreases entries.len(),
{
    if entries.len() == 0 {
        0
    } else {
        selected_total(entries.drop_last()) + if entries.last().selected {
            entries.last().item.bytes as int
        } else {
            0
        }
    }
}

/// The index of the first entry whose path is the same path as `path`, or the length.
pub open spec fn first_path_index(entries: Seq<CleanupPlanItem>, path: Seq<char>) -> int
    decreases entries.len(),
{
    if entries.len() == 0 {
        0
    } else if same_path(entries[0].item.path@, path) {
        0
    } else {
        1 + first_path_index(entries.drop_first(), path)
    }
}

/// No symlink entry is selected.
pub open spec fn no_selected_symlink(entries: Seq<CleanupPlanItem>) -> bool {
    forall|i: int| 0 <= i < entries.len() && #[trigger] entries[i].item.is_symlink ==> !entries[i].selected
}

pub proof fn lemma_count_selected_bound(entries: Seq<CleanupPlanItem>)
    ensures
        count_selected(entries) <= entries.len(),
    decreases entries.len(),
{
    if entries.len() > 0 {
        lemma_count_selected_bound(entries.drop_last());
    }
}

pub proof fn lemma_selected_total_prefix(entries: Seq<CleanupPlanItem>, n: int)
    requires
        0 <= n <= entries.len(),
    ensures
        0 <= selected_total(entries.take(n)) <= selected_total(entries),
    decreases entries.len() - n,
{
    if n < entries.len() {
        lemma_selected_total_prefix(entries, n + 1);
        assert(entries.take(n + 1).drop_last() =~= entries.take(n));
    } else {
        assert(entries.take(n) =~= entries);
    }
    lemma_selected_total_nonneg(entries.take(n));
}

pub proof fn lemma_selected_total_nonneg(entries: Seq<CleanupPlanItem>)
    ensures
        selected_total(entries) >= 0,
    decreases entries.len(),
{
    if entries.len() > 0 {
        lemma_selected_total_nonneg(entries.drop_last());
    }
}

/// The scanned items behind the entries of a plan, in plan order.
pub open spec fn plan_items(entries: Seq<CleanupPlanItem>) -> Seq<ScanItem> {
    entries.map_values(|e: CleanupPlanItem| e.item)
}

/// What is selected never weighs more than everything the plan holds: the
/// selected size is at most the total size of the plan's scanned items.
pub proof fn selected_bytes_are_bounded_by_the_total(entries: Seq<CleanupPlanItem>)
    ensures
        0 <= selected_total(entries) <= total_bytes(plan_items(entries)),
    decreases entries.len(),
{
    if entries.len() > 0 {
        selected_bytes_are_bounded_by_the_total(entries.drop_last());
        assert(plan_items(entries).drop_last() =~= plan_items(entries.drop_last()));
        assert(plan_items(entries).last() == entries.last().item);
    }
}

/// A plan in which no entry is selected selects nothing: no entry is counted and
/// no byte is.
pub proof fn nothing_selected_weighs_nothing(entries: Seq<CleanupPlanItem>)
    requires
        forall|i: int| 0 <= i < entries.len() ==> !(#[trigger] entries[i]).selected,
    ensures
        selected_total(entries) == 0,
        count_selected(entries) == 0,
    decreases entries.len(),
{
    if entries.len() > 0 {
        assert forall|i: int| 0 <= i < entries.drop_last().len() implies !(
        #[trigger] entries.drop_last()[i]).selected by {
            assert(entries.drop_last()[i] == entries[i]);
        }
        nothing_selected_weighs_nothing(entries.drop_last());
        assert(entries.last() == entries[entries.len() - 1]);
    }
}

pub proof fn lemma_first_path_index_bounds(entries: Seq<CleanupPlanItem>, path: Seq<char>)
    ensures
        0 <= first_path_index(entries, path) <= entries.len(),
        first_path_index(entries, path) < entries.len() ==> same_path(
            entries[first_path_index(entries, path)].item.path@,
            path,
        ),
        forall|j: int|
            0 <= j < first_path_index(entries, path) ==> !same_path(
                #[trigger] entries[j].item.path@,
                path,
            ),
    decreases entries.len(),
{
    if entries.len() > 0 && !same_path(entries[0].item.path@, path) {
        lemma_first_path_index_bounds(entries.drop_first(), path);
        assert forall|j: int| 0 <= j < first_path_index(entries, path) implies !same_path(
            #[trigger] entries[j].item.path@,
            path,
        ) by {
            if j > 0 {
                assert(entries[j] == entries.drop_first()[j - 1]);
            }
        }
    }
}

impl CleanupPlan {
    /// The number of selected entries.
    pub fn selected_count(&self) -> (n: usize)
        ensures
            n == count_selected(self.items@),
    {
        let mut n: usize = 0;
        let mut i: usize = 0;
        while i < self.items.len()
            invariant
                i <= self.items@.len(),
                n == count_selected(self.items@.take(i as int)),
                n <= i,
            decreases self.items@.len() - i,
        {
            assert(self.items@.take(i + 1).drop_last() =~= self.items@.take(i as int));
            if self.items[i].selected {
                n = n + 1;
            }
            i = i + 1;
        }
        assert(self.items@.take(self.items@.len() as int) =~= self.items@);
        n
    }

    /// The sum of the sizes of the selected entries.
    pub fn selected_bytes(&self) -> (bytes: u64)
        requires
            selected_total(self.items@) <= u64::MAX,
        ensures
            bytes == selected_total(self.items@),
    {
        let mut sum: u64 = 0;
        let mut i: usize = 0;
        while i < self.items.len()
            invariant
                i <= self.items@.len(),
                selected_total(self.items@) <= u64::MAX,
                sum == selected_total(self.items@.take(i as int)),
            decreases self.items@.len() - i,
        {
            proof {
                assert(self.items@.take(i + 1).drop_last() =~= self.items@.take(i as int));
                lemma_selected_total_prefix(self.items@, i + 1);
            }
            if self.items[i].selected {
                sum = sum + self.items[i].item.bytes;
            }
            i = i + 1;
        }
        assert(self.items@.take(self.items@.len() as int) =~= self.items@);
        sum
    }

    /// Selects (or deselects) every entry; a symlink is never selected.
    pub fn set_all_selected(&mut self, selected: bool)
        ensures
            final(self).items@.len() == old(self).items@.len(),
            forall|i: int|
                0 <= i < old(self).items@.len() ==> (#[trigger] final(self).items@[i]).item
                    == old(self).items@[i].item && final(self).items@[i].selected == (selected
                    && !old(self).items@[i].item.is_symlink),
            !selected ==> selected_total(final(self).items@) == 0 && count_selected(
                final(self).items@,
            ) == 0,
    {
        let mut i: usize = 0;
        while i < self.items.len()
            invariant
                i <= self.items@.len(),
                self.items@.len() == old(self).items@.len(),
                forall|j: int|
                    0 <= j < self.items@.len() ==> (#[trigger] self.items@[j]).item == old(
                        self,
                    ).items@[j].item,
                forall|j: int|
                    0 <= j < i ==> (#[trigger] self.items@[j]).selected == (selected
                        && !old(self).items@[j].item.is_symlink),
                forall|j: int|
                    i <= j < self.items@.len() ==> (#[trigger] self.items@[j]).selected == old(
                        self,
                    ).items@[j].selected,
            decreases self.items@.len() - i,
        {
            let value = selected && !self.items[i].item.is_symlink;
            self.items[i].selected = value;
            i = i + 1;
        }
        proof {
            if !selected {
                nothing_selected_weighs_nothing(self.items@);
            }
        }
    }

    /// Selects (or deselects) every entry of one category; a symlink is never selected.
    pub fn set_category_selected(&mut self, category: CleanupCategory, selected: bool)
        ensures
            final(self).items@.len() == old(self).items@.len(),
            forall|i: int|
                0 <= i < old(self).items@.len() ==> (#[trigger] final(self).items@[i]).item
                    == old(self).items@[i].item && final(self).items@[i].selected == if old(
                    self,
                ).items@[i].item.category == category {
                    selected && !old(self).items@[i].item.is_symlink
                } else {
                    old(self).items@[i].selected
                },
    {
        let mut i: usize = 0;
        while i < self.items.len()
            invariant
                i <= self.items@.len(),
                self.items@.len() == old(self).items@.len(),
                forall|j: int|
                    0 <= j < self.items@.len() ==> (#[trigger] self.items@[j]).item == old(
                        self,
                    ).items@[j].item,
                forall|j: int|
                    0 <= j < i ==> (#[trigger] self.items@[j]).selected == if old(
                        self,
                    ).items@[j].item.category == category {
                        selected && !old(self).items@[j].item.is_symlink
                    } else {
                        old(self).items@[j].selected
                    },
                forall|j: int|
                    i <= j < self.items@.len() ==> (#[trigger] self.items@[j]).selected == old(
                        self,
                    ).items@[j].selected,
            decreases self.items@.len() - i,
        {
            if self.items[i].item.category == category {
                let value = selected && !self.items[i].item.is_symlink;
                self.items[i].selected = value;
            }
            i = i + 1;
        }
    }

    /// Flips the selection of the first entry with the given path. Returns whether
    /// an entry was flipped: not when no entry has the path, nor when it is a symlink.
    pub fn toggle_path(&mut self, path: &str) -> (toggled: bool)
        ensures
            ({
                let k = first_path_index(old(self).items@, path@);
                &&& toggled == (k < old(self).items@.len() && !old(
                    self,
                ).items@[k].item.is_symlink)
                &&& toggled ==> final(self).items@ == old(self).items@.update(
                    k,
                    CleanupPlanItem {
                        item: old(self).items@[k].item,
                        selected: !old(self).items@[k].selected,
                    },
                )
                &&& !toggled ==> final(self).items@ == old(self).items@
            }),
    {
        proof {
            lemma_first_path_index_bounds(self.items@, path@);
        }
        let mut i: usize = 0;
        while i < self.items.len()
            invariant
                i <= self.items@.len(),
                self.items@ == old(self).items@,
                forall|j: int| 0 <= j < i ==> !same_path(#[trigger] self.items@[j].item.path@, path@),
            decreases self.items@.len() - i,
        {
            if paths_equal(self.items[i].item.path.as_str(), path) {
                proof {
                    lemma_first_index_is(self.items@, path@, i as int);
                }
                if self.items[i].item.is_symlink {
                    return false;
                }
                let flipped = !self.items[i].selected;
                self.items[i].selected = flipped;
                assert(self.items@ =~= old(self).items@.update(
                    i as int,
                    CleanupPlanItem { item: old(self).items@[i as int].item, selected: flipped },
                ));
                return true;
            }
            i = i + 1;
        }
        proof {
            lemma_first_index_is(self.items@, path@, self.items@.len() as int);
        }
        false
    }
}

/// `first_path_index` is the first position whose path matches.
pub proof fn lemma_first_index_is(entries: Seq<CleanupPlanItem>, path: Seq<char>, k: int)
    requires
        0 <= k <= entries.len(),
        k < entries.len() ==> same_path(entries[k].item.path@, path),
        forall|j: int| 0 <= j < k ==> !same_path(#[trigger] entries[j].item.path@, path),
    ensures
        first_path_index(entries, path) == k,
    decreases entries.len(),
{
    if entries.len() > 0 && k > 0 {
        assert forall|j: int| 0 <= j < k - 1 implies !same_path(
            #[trigger] entries.drop_first()[j].item.path@,
            path,
        ) by {
            assert(entries.drop_first()[j] == entries[j + 1]);
        }
        lemma_first_index_is(entries.drop_first(), path, k - 1);
    }
}

} // verus!
