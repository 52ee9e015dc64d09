//! Installed applications and the report of an inventory.
use vstd::prelude::*;

use crate::order::{
    DeterministicOrder, compare_chars, compare_paths, compare_paths_exec, compare_strings_exec,
    is_ordered, is_sign, lemma_compare_chars, lemma_compare_paths, sort_stable, stable_sorted,
};

verus! {

/// Where an application is installed.
#[derive(Debug, Clone, Copy, PartialEq, Eq, PartialOrd, Ord, Structural)]
pub enum ApplicationLocation {
    User,
    Local,
    System,
}

impl ApplicationLocation {
    /// The position of the location in its declared order.
    pub open spec fn rank(self) -> int {
        match self {
            ApplicationLocation::User => 0,
            ApplicationLocation::Local => 1,
            ApplicationLocation::System => 2,
        }
    }

    pub open spec fn spec_label(self) -> Seq<char> {
        match self {
            ApplicationLocation::User => "user"@,
            ApplicationLocation::Local => "local"@,
            ApplicationLocation::System => "system"@,
        }
    }

    /// A short name for the location.
    pub fn label(self) -> (label: &'static str)
        ensures
            label@ == self.spec_label(),
    {
        match self {
            ApplicationLocation::User => "user",
            ApplicationLocation::Local => "local",
            ApplicationLocation::System => "system",
        }
    }

    fn rank_exec(self) -> (r: i8)
        ensures
            r as int == self.rank(),
    {
        match self {
            ApplicationLocation::User => 0,
            ApplicationLocation::Local => 1,
            ApplicationLocation::System => 2,
        }
    }
}

/// A three-way comparison of integers.
pub open spec fn compare_int(a: int, b: int) -> int {
    if a < b {
        -1
    } else if a == b {
        0
    } else {
        1
    }
}

/// What an application bundle says about itself.
#[derive(Debug, Clone, PartialEq, Eq)]
pub struct ApplicationMetadata {
    pub bundle_identifier: Option<String>,
    pub bundle_version: Option<String>,
    pub short_version: Option<String>,
    pub team_identifier: Option<String>,
}

impl Default for ApplicationMetadata {
    /// Nothing known.
    fn default() -> (m: Self)
        ensures
            m.bundle_identifier is None,
            m.bundle_version is None,
            m.short_version is None,
            m.team_identifier is None,
    {
        ApplicationMetadata {
            bundle_identifier: None,
            bundle_version: None,
            short_version: None,
            team_identifier: None,
        }
    }
}

/// One installed application.
#[derive(Debug, Clone, PartialEq, Eq)]
pub struct InstalledApplication {
    pub path: String,
    pub name: String,
    pub location: ApplicationLocation,
    pub metadata: ApplicationMetadata,
}

impl InstalledApplication {
    /// An application with no metadata known.
    pub fn new(path: String, name: String, location: ApplicationLocation) -> (app: Self)
        ensures
            app.path == path,
            app.name == name,
            app.location == location,
            app.metadata.bundle_identifier is None,
            app.metadata.bundle_version is None,
            app.metadata.short_version is None,
            app.metadata.team_identifier is None,
    {
        InstalledApplication { path, name, location, metadata: ApplicationMetadata::default() }
    }

    /// The same application with the given metadata.
    pub fn with_metadata(self, metadata: ApplicationMetadata) -> (app: Self)
        ensures
            app.path == self.path,
            app.name == self.name,
            app.location == self.location,
            app.metadata == metadata,
    {
        InstalledApplication { metadata, ..self }
    }
}

impl DeterministicOrder for InstalledApplication {
    /// By path, then location, then name.
    open spec fn order(self, other: Self) -> int {
        let by_path = compare_paths(self.path@, other.path@);
        let by_location = compare_int(self.location.rank(), other.location.rank());
        if by_path != 0 {
            by_path
        } else if by_location != 0 {
            by_location
        } else {
            compare_chars(self.name@, other.name@)
        }
    }

    proof fn lemma_order(a: Self, b: Self, c: Self) {
        lemma_compare_paths(a.path@, b.path@, c.path@);
        lemma_compare_paths(b.path@, c.path@, a.path@);
        lemma_compare_paths(a.path@, c.path@, b.path@);
        lemma_compare_paths(c.path@, b.path@, a.path@);
        lemma_compare_paths(b.path@, a.path@, c.path@);
        lemma_compare_paths(c.path@, a.path@, b.path@);
        lemma_compare_chars(a.name@, b.name@, c.name@);
        lemma_compare_chars(b.name@, a.name@, c.name@);
        lemma_compare_chars(a.name@, c.name@, b.name@);
        lemma_compare_chars(c.name@, b.name@, a.name@);
    }

    fn compare_with(&self, other: &Self) -> (r: i8) {
        let by_path = compare_paths_exec(self.path.as_str(), other.path.as_str());
        if by_path != 0 {
            return by_path;
        }
        let a = self.location.rank_exec();
        let b = other.location.rank_exec();
        if a < b {
            return -1;
        }
        if a > b {
            return 1;
        }
        compare_strings_exec(self.name.as_str(), other.name.as_str())
    }
}

/// Something the inventory could not read.
#[derive(Debug, Clone, PartialEq, Eq)]
pub struct ApplicationInventoryIssue {
    pub path: String,
    pub message: String,
}

impl ApplicationInventoryIssue {
    pub fn new(path: String, message: String) -> (issue: Self)
        ensures
            issue.path == path,
            issue.message == message,
    {
        ApplicationInventoryIssue { path, message }
    }
}

impl DeterministicOrder for ApplicationInventoryIssue {
    /// By path, then message.
    open spec fn order(self, other: Self) -> int {
        let by_path = compare_paths(self.path@, other.path@);
        if by_path != 0 {
            by_path
        } else {
            compare_chars(self.message@, other.message@)
        }
    }

    proof fn lemma_order(a: Self, b: Self, c: Self) {
        lemma_compare_paths(a.path@, b.path@, c.path@);
        lemma_compare_paths(b.path@, c.path@, a.path@);
        lemma_compare_paths(a.path@, c.path@, b.path@);
        lemma_compare_paths(c.path@, b.path@, a.path@);
        lemma_compare_paths(b.path@, a.path@, c.path@);
        lemma_compare_paths(c.path@, a.path@, b.path@);
        lemma_compare_chars(a.message@, b.message@, c.message@);
        lemma_compare_chars(b.message@, a.message@, c.message@);
        lemma_compare_chars(a.message@, c.message@, b.message@);
    }

    fn compare_with(&self, other: &Self) -> (r: i8) {
        let by_path = compare_paths_exec(self.path.as_str(), other.path.as_str());
        if by_path != 0 {
            return by_path;
        }
        compare_strings_exec(self.message.as_str(), other.message.as_str())
    }
}

/// The installed applications found, and what could not be read.
#[derive(Debug, Clone, Default, PartialEq, Eq)]
pub struct ApplicationInventoryReport {
    pub applications: Vec<InstalledApplication>,
    pub issues: Vec<ApplicationInventoryIssue>,
}

impl ApplicationInventoryReport {
    /// Puts applications in order of path, location and name, and issues in
    /// order of path and message, keeping every entry. The sort is stable: entries
    /// that compare equal keep their order, so sorting twice changes nothing.
    pub fn sort_deterministically(&mut self)
        ensures
            final(self).applications@ == stable_sorted(old(self).applications@),
            final(self).issues@ == stable_sorted(old(self).issues@),
            final(self).applications@.to_multiset() == old(self).applications@.to_multiset(),
            is_ordered(final(self).applications@),
            final(self).issues@.to_multiset() == old(self).issues@.to_multiset(),
            is_ordered(final(self).issues@),
    {
        let mut applications: Vec<InstalledApplication> = Vec::new();
        std::mem::swap(&mut applications, &mut self.applications);
        self.applications = sort_stable(applications);
        let mut issues: Vec<ApplicationInventoryIssue> = Vec::new();
        std::mem::swap(&mut issues, &mut self.issues);
        self.issues = sort_stable(issues);
    }
}

/// A source of installed-application inventories.
pub trait ApplicationInventory {
    fn inventory(&self) -> ApplicationInventoryReport;
}

} // verus!
