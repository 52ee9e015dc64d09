//! The scan targets of each category, built from a home directory.
use vstd::prelude::*;

use crate::model::CleanupCategory;
use crate::path::{join_path, path_join, string_views};
use crate::scanner::ScanRequest;

verus! {

/// Something that can be scanned as one category: its roots, and the roots under
/// them that must not be entered.
pub trait CategoryScanTarget {
    spec fn target_category(&self) -> CleanupCategory;

    spec fn target_roots(&self) -> Seq<Seq<char>>;

    spec fn target_excluded_roots(&self) -> Seq<Seq<char>>;

    fn category(&self) -> (c: CleanupCategory)
        ensures
            c == self.target_category(),
    ;

    fn roots(&self) -> (r: Vec<String>)
        ensures
            string_views(r@) == self.target_roots(),
    ;

    fn excluded_roots(&self) -> (r: Vec<String>)
        ensures
            string_views(r@) == self.target_excluded_roots(),
    ;

    /// The scan request for the target.
    fn request(&self) -> (r: ScanRequest)
        ensures
            r.category == self.target_category(),
            string_views(r.roots@) == self.target_roots(),
            string_views(r.excluded_roots@) == self.target_excluded_roots(),
    {
        ScanRequest {
            category: self.category(),
            roots: self.roots(),
            excluded_roots: self.excluded_roots(),
        }
    }
}

/// The request model of the user-cache target for `home`.
pub open spec fn user_cache_request(home: Seq<char>) -> (CleanupCategory, Seq<Seq<char>>, Seq<Seq<char>>) {
    (
        CleanupCategory::UserCache,
        seq![path_join(home, "Library/Caches"@)],
        seq![path_join(home, "Library/Caches/Homebrew"@)],
    )
}

/// The request model of the Xcode target for `home`.
pub open spec fn xcode_request(home: Seq<char>) -> (CleanupCategory, Seq<Seq<char>>, Seq<Seq<char>>) {
    (CleanupCategory::Xcode, seq![path_join(home, "Library/Developer/Xcode/DerivedData"@)], Seq::empty())
}

/// The request model of the Homebrew target for `home`.
pub open spec fn homebrew_request(home: Seq<char>) -> (CleanupCategory, Seq<Seq<char>>, Seq<Seq<char>>) {
    (CleanupCategory::Homebrew, seq![path_join(home, "Library/Caches/Homebrew"@)], Seq::empty())
}

/// The request model of the Node target for `home`.
pub open spec fn node_request(home: Seq<char>) -> (CleanupCategory, Seq<Seq<char>>, Seq<Seq<char>>) {
    (
        CleanupCategory::Node,
        seq![path_join(home, ".npm"@), path_join(home, "Library/pnpm/store"@)],
        Seq::empty(),
    )
}

/// The user's caches, less Homebrew's, which has a category of its own.
#[derive(Debug, Clone, PartialEq, Eq)]
pub struct UserCacheScan {
    home: String,
}

impl UserCacheScan {
    pub closed spec fn home(&self) -> Seq<char> {
        self.home@
    }

    pub fn new(home: String) -> (s: Self)
        ensures
            s.home() == home@,
    {
        UserCacheScan { home }
    }
}

impl CategoryScanTarget for UserCacheScan {
    open spec fn target_category(&self) -> CleanupCategory {
        CleanupCategory::UserCache
    }

    open spec fn target_roots(&self) -> Seq<Seq<char>> {
        seq![path_join(self.home(), "Library/Caches"@)]
    }

    open spec fn target_excluded_roots(&self) -> Seq<Seq<char>> {
        seq![path_join(self.home(), "Library/Caches/Homebrew"@)]
    }

    fn category(&self) -> (c: CleanupCategory) {
        CleanupCategory::UserCache
    }

    fn roots(&self) -> (r: Vec<String>) {
        let v = vec![join_path(self.home.as_str(), "Library/Caches")];
        assert(string_views(v@) =~= self.target_roots());
        v
    }

    fn excluded_roots(&self) -> (r: Vec<String>) {
        let v = vec![join_path(self.home.as_str(), "Library/Caches/Homebrew")];
        assert(string_views(v@) =~= self.target_excluded_roots());
        v
    }
}

/// Xcode's derived data.
#[derive(Debug, Clone, PartialEq, Eq)]
pub struct XcodeScan {
    home: String,
}

impl XcodeScan {
    pub closed spec fn home(&self) -> Seq<char> {
        self.home@
    }

    pub fn new(home: String) -> (s: Self)
        ensures
            s.home() == home@,
    {
        XcodeScan { home }
    }
}

impl CategoryScanTarget for XcodeScan {
    open spec fn target_category(&self) -> CleanupCategory {
        CleanupCategory::Xcode
    }

    open spec fn target_roots(&self) -> Seq<Seq<char>> {
        seq![path_join(self.home(), "Library/Developer/Xcode/DerivedData"@)]
    }

    open spec fn target_excluded_roots(&self) -> Seq<Seq<char>> {
        Seq::empty()
    }

    fn category(&self) -> (c: CleanupCategory) {
        CleanupCategory::Xcode
    }

    fn roots(&self) -> (r: Vec<String>) {
        let v = vec![join_path(self.home.as_str(), "Library/Developer/Xcode/DerivedData")];
        assert(string_views(v@) =~= self.target_roots());
        v
    }

    fn excluded_roots(&self) -> (r: Vec<String>) {
        let v: Vec<String> = Vec::new();
        assert(string_views(v@) =~= self.target_excluded_roots());
        v
    }
}

/// Homebrew's download cache.
#[derive(Debug, Clone, PartialEq, Eq)]
pub struct HomebrewScan {
    home: String,
}

impl HomebrewScan {
    pub closed spec fn home(&self) -> Seq<char> {
        self.home@
    }

    pub fn new(home: String) -> (s: Self)
        ensures
            s.home() == home@,
    {
        HomebrewScan { home }
    }
}

impl CategoryScanTarget for HomebrewScan {
    open spec fn target_category(&self) -> CleanupCategory {
        CleanupCategory::Homebrew
    }

    open spec fn target_roots(&self) -> Seq<Seq<char>> {
        seq![path_join(self.home(), "Library/Caches/Homebrew"@)]
    }

    open spec fn target_excluded_roots(&self) -> Seq<Seq<char>> {
        Seq::empty()
    }

    fn category(&self) -> (c: CleanupCategory) {
        CleanupCategory::Homebrew
    }

    fn roots(&self) -> (r: Vec<String>) {
        let v = vec![join_path(self.home.as_str(), "Library/Caches/Homebrew")];
        assert(string_views(v@) =~= self.target_roots());
        v
    }

    fn excluded_roots(&self) -> (r: Vec<String>) {
        let v: Vec<String> = Vec::new();
        assert(string_views(v@) =~= self.target_excluded_roots());
        v
    }
}

/// The npm and pnpm package stores.
#[derive(Debug, Clone, PartialEq, Eq)]
pub struct NodeScan {
    home: String,
}

impl NodeScan {
    pub closed spec fn home(&self) -> Seq<char> {
        self.home@
    }

    pub fn new(home: String) -> (s: Self)
        ensures
            s.home() == home@,
    {
        NodeScan { home }
    }
}

impl CategoryScanTarget for NodeScan {
    open spec fn target_category(&self) -> CleanupCategory {
        CleanupCategory::Node
    }

    open spec fn target_roots(&self) -> Seq<Seq<char>> {
        seq![path_join(self.home(), ".npm"@), path_join(self.home(), "Library/pnpm/store"@)]
    }

    open spec fn target_excluded_roots(&self) -> Seq<Seq<char>> {
        Seq::empty()
    }

    fn category(&self) -> (c: CleanupCategory) {
        CleanupCategory::Node
    }

    fn roots(&self) -> (r: Vec<String>) {
        let v = vec![
            join_path(self.home.as_str(), ".npm"),
            join_path(self.home.as_str(), "Library/pnpm/store"),
        ];
        assert(string_views(v@) =~= self.target_roots());
        v
    }

    fn excluded_roots(&self) -> (r: Vec<String>) {
        let v: Vec<String> = Vec::new();
        assert(string_views(v@) =~= self.target_excluded_roots());
        v
    }
}

} // verus!
