//! Which cleanup action each category gets.
use vstd::prelude::*;

use crate::model::CleanupCategory;

verus! {

/// What happens to a selected item.
#[derive(Debug, Clone, Copy, PartialEq, Eq, Structural)]
pub enum CleanupAction {
    MoveToTrash,
    PermanentDelete,
}

/// Why a policy change was refused.
#[derive(Debug, Clone, Copy, PartialEq, Eq, Structural)]
pub enum ActionPolicyError {
    PermanentDeleteNotAllowed(CleanupCategory),
}

/// The categories whose generated data may be deleted outright instead of trashed.
pub open spec fn spec_supports_permanent_delete(category: CleanupCategory) -> bool {
    match category {
        CleanupCategory::UserCache => true,
        CleanupCategory::Xcode => true,
        CleanupCategory::Homebrew => true,
        CleanupCategory::Node => true,
        _ => false,
    }
}

/// Whether a category may ever opt in to permanent deletion.
pub fn supports_permanent_delete(category: CleanupCategory) -> (r: bool)
    ensures
        r == spec_supports_permanent_delete(category),
{
    match category {
        CleanupCategory::UserCache | CleanupCategory::Xcode | CleanupCategory::Homebrew
        | CleanupCategory::Node => true,
        _ => false,
    }
}

/// Per-category choice between moving to the Trash and deleting permanently.
/// Moving to the Trash is the default for every category.
#[derive(Debug, PartialEq, Eq)]
pub struct CategoryActionPolicy {
    permanent_delete_categories: Vec<CleanupCategory>,
}

impl CategoryActionPolicy {
    #[verifier::type_invariant]
    spec fn only_supported_categories(self) -> bool {
        forall|i: int|
            0 <= i < self.permanent_delete_categories@.len()
                ==> spec_supports_permanent_delete(
                #[trigger] self.permanent_delete_categories@[i],
            )
    }

    /// The categories opted in to permanent deletion.
    pub closed spec fn permanent_categories(self) -> Set<CleanupCategory> {
        self.permanent_delete_categories@.to_set()
    }

    /// The action for a category under this policy.
    pub open spec fn spec_action_for(self, category: CleanupCategory) -> CleanupAction {
        if self.permanent_categories().contains(category) {
            CleanupAction::PermanentDelete
        } else {
            CleanupAction::MoveToTrash
        }
    }

    /// The policy that moves every category to the Trash.
    pub fn trash_only() -> (policy: Self)
        ensures
            policy.permanent_categories() == Set::<CleanupCategory>::empty(),
    {
        let policy = CategoryActionPolicy { permanent_delete_categories: Vec::new() };
        assert(policy.permanent_delete_categories@.to_set() =~= Set::<CleanupCategory>::empty());
        policy
    }

    /// The action for `category`: permanent deletion only where the category opted
    /// in, which only a category that supports it can have done.
    pub fn action_for(&self, category: CleanupCategory) -> (action: CleanupAction)
        ensures
            action == self.spec_action_for(category),
            action == CleanupAction::PermanentDelete ==> spec_supports_permanent_delete(category),
    {
        proof {
            use_type_invariant(self);
        }
        let mut i: usize = 0;
        while i < self.permanent_delete_categories.len()
            invariant
                i <= self.permanent_delete_categories@.len(),
                forall|j: int|
                    0 <= j < i ==> self.permanent_delete_categories@[j] != category,
            decreases self.permanent_delete_categories@.len() - i,
        {
            if self.permanent_delete_categories[i] == category {
                assert(self.permanent_delete_categories@.to_set().contains(category));
                proof {
                    use_type_invariant(self);
                }
                assert(spec_supports_permanent_delete(self.permanent_delete_categories@[i as int]));
                return CleanupAction::PermanentDelete;
            }
            i = i + 1;
        }
        assert(!self.permanent_delete_categories@.contains(category));
        CleanupAction::MoveToTrash
    }

    /// Opts `category` in to permanent deletion. Refused, leaving the policy
    /// unchanged, for a category that does not support it.
    pub fn enable_permanent_delete(&mut self, category: CleanupCategory) -> (r: Result<
        (),
        ActionPolicyError,
    >)
        ensures
            spec_supports_permanent_delete(category) ==> r == Ok::<(), ActionPolicyError>(())
                && final(self).permanent_categories() == old(self).permanent_categories().insert(
                category,
            ),
            !spec_supports_permanent_delete(category) ==> r == Err::<(), ActionPolicyError>(
                ActionPolicyError::PermanentDeleteNotAllowed(category),
            ) && final(self).permanent_categories() == old(self).permanent_categories(),
    {
        if !supports_permanent_delete(category) {
            return Err(ActionPolicyError::PermanentDeleteNotAllowed(category));
        }
        proof {
            use_type_invariant(&*self);
        }
        let ghost before = self.permanent_delete_categories@;
        let mut found = false;
        let mut i: usize = 0;
        while i < self.permanent_delete_categories.len()
            invariant
                i <= self.permanent_delete_categories@.len(),
                found == exists|j: int| 0 <= j < i && self.permanent_delete_categories@[j] == category,
            decreases self.permanent_delete_categories@.len() - i,
        {
            if self.permanent_delete_categories[i] == category {
                found = true;
            }
            i = i + 1;
        }
        if !found {
            let mut categories = self.permanent_delete_categories.clone();
            assert(categories@ =~= before) by {
                assert forall|j: int| 0 <= j < categories@.len() implies categories@[j]
                    == before[j] by {
                    assert(cloned(before[j], categories@[j]));
                }
            }
            categories.push(category);
            assert forall|j: int| 0 <= j < categories@.len() implies spec_supports_permanent_delete(
                #[trigger] categories@[j],
            ) by {
                if j < before.len() {
                    assert(spec_supports_permanent_delete(before[j]));
                }
            }
            self.permanent_delete_categories = categories;
            assert(self.permanent_delete_categories@.to_set() =~= before.to_set().insert(category))
                by {
                assert forall|c: CleanupCategory|
                    self.permanent_delete_categories@.to_set().contains(c) implies before.to_set().insert(
                    c,
                ).contains(c) by {}
                assert forall|c: CleanupCategory| #[trigger]
                    before.to_set().insert(category).contains(c) implies self.permanent_delete_categories@.contains(
                    c,
                ) by {
                    if c != category {
                        let j = choose|j: int| 0 <= j < before.len() && before[j] == c;
                        assert(self.permanent_delete_categories@[j] == c);
                    } else {
                        assert(self.permanent_delete_categories@[before.len() as int] == c);
                    }
                }
            }
        } else {
            assert(before.to_set().insert(category) =~= before.to_set()) by {
                let j = choose|j: int| 0 <= j < before.len() && before[j] == category;
                assert(before.contains(category));
            }
        }
        Ok(())
    }
}

impl Default for CategoryActionPolicy {
    fn default() -> (policy: Self)
        ensures
            policy.permanent_categories() == Set::<CleanupCategory>::empty(),
    {
        Self::trash_only()
    }
}

} // verus!
