//! Windows: the known folders of a user, the caches found under them, and the
//! Recycle Bin's verdicts.
use vstd::prelude::*;

use crate::listing::{DirectoryEntry, EntryType};
use crate::model::CleanupCategory;
use crate::order::{dedup_by_path, is_ordered, sorted_unique_paths};
use crate::path::{PathStyle, join_path_in, string_views, win_path_join};
use crate::planner::EntryKind;
use crate::safety::{chars_eq_ignore_ascii_case, eq_ignore_ascii_case, is_ascii_letter, win_sep};
use crate::scanner::ScanRequest;
use crate::target::CategoryScanTarget;
use crate::text::{
    ascii_lowercase, chars_ends_with, chars_of, chars_starts_with, concat_str,
    to_ascii_lowercase_chars,
};

verus! {

/// The folders of the current Windows user that the cleaner works under.
#[derive(Debug, Clone, PartialEq, Eq)]
pub struct WindowsPaths {
    pub user_profile: String,
    pub local_app_data: String,
    pub program_data: String,
    pub system_root: String,
    pub temp: String,
}

/// Whether a path is absolute on Windows: a drive letter, a colon and a
/// separator, or two leading separators (a share or a device path).
pub open spec fn is_windows_absolute(p: Seq<char>) -> bool {
    ||| (p.len() >= 3 && is_ascii_letter(p[0]) && p[1] == ':' && win_sep(p[2]))
    ||| (p.len() >= 2 && win_sep(p[0]) && win_sep(p[1]))
}

/// Whether a path is absolute on Windows.
pub fn is_windows_absolute_path(p: &str) -> (r: bool)
    ensures
        r == is_windows_absolute(p@),
{
    let c = chars_of(p);
    let n = c.len();
    (n >= 3 && (('a' <= c[0] && c[0] <= 'z') || ('A' <= c[0] && c[0] <= 'Z')) && c[1] == ':' && (
    c[2] == '\\' || c[2] == '/')) || (n >= 2 && (c[0] == '\\' || c[0] == '/') && (c[1] == '\\'
        || c[1] == '/'))
}

/// The check of a known folder: non-empty and absolute, else the first failure.
pub open spec fn spec_validate_absolute(path: Seq<char>, label: Seq<char>) -> Result<Seq<char>, Seq<char>> {
    if path.len() == 0 {
        Err("empty "@ + label)
    } else if !is_windows_absolute(path) {
        Err(label + " must be absolute: "@ + path)
    } else {
        Ok(path)
    }
}

/// The model of a text result.
pub open spec fn string_result_view(r: Result<String, String>) -> Result<Seq<char>, Seq<char>> {
    match r {
        Ok(p) => Ok(p@),
        Err(e) => Err(e@),
    }
}

/// Accepts a known folder that is non-empty and absolute.
pub fn validate_absolute(path: String, label: &str) -> (r: Result<String, String>)
    ensures
        string_result_view(r) == spec_validate_absolute(path@, label@),
{
    if path.as_str().unicode_len() == 0 {
        return Err(concat_str("empty ", label));
    }
    if !is_windows_absolute_path(path.as_str()) {
        let t = concat_str(label, " must be absolute: ");
        return Err(concat_str(t.as_str(), path.as_str()));
    }
    Ok(path)
}

/// The value of the first entry of an environment snapshot whose name is the
/// given key ignoring ASCII case, as Windows compares variable names.
pub open spec fn lookup(env: Seq<(String, String)>, key: Seq<char>) -> Option<Seq<char>>
    decreases env.len(),
{
    if env.len() == 0 {
        None
    } else if eq_ignore_ascii_case(env[0].0@, key) {
        Some(env[0].1@)
    } else {
        lookup(env.drop_first(), key)
    }
}

fn lookup_exec(env: &Vec<(String, String)>, key: &str) -> (r: Option<String>)
    ensures
        crate::planner::opt_string_view(r) == lookup(env@, key@),
{
    let mut i: usize = 0;
    assert(env@.skip(0) =~= env@);
    while i < env.len()
        invariant
            i <= env@.len(),
            lookup(env@, key@) == lookup(env@.skip(i as int), key@),
        decreases env@.len() - i,
    {
        assert(env@.skip(i as int).drop_first() =~= env@.skip(i + 1));
        let name = chars_of(env[i].0.as_str());
        let wanted = chars_of(key);
        if chars_eq_ignore_ascii_case(name.as_slice(), wanted.as_slice()) {
            return Some(env[i].1.clone());
        }
        i = i + 1;
    }
    None
}

/// The check of a required folder variable: present, then as `validate_absolute`
/// with the label `Windows path variable <key>`.
pub open spec fn spec_required_absolute(env: Seq<(String, String)>, key: Seq<char>) -> Result<
    Seq<char>,
    Seq<char>,
> {
    match lookup(env, key) {
        None => Err("missing required Windows path variable: "@ + key),
        Some(p) => spec_validate_absolute(p, "Windows path variable "@ + key),
    }
}

fn required_absolute(env: &Vec<(String, String)>, key: &str) -> (r: Result<String, String>)
    ensures
        string_result_view(r) == spec_required_absolute(env@, key@),
{
    match lookup_exec(env, key) {
        None => Err(concat_str("missing required Windows path variable: ", key)),
        Some(p) => {
            let label = concat_str("Windows path variable ", key);
            validate_absolute(p, label.as_str())
        },
    }
}

/// The model of known folders.
pub open spec fn paths_view(p: WindowsPaths) -> (Seq<char>, Seq<char>, Seq<char>, Seq<char>, Seq<char>) {
    (p.user_profile@, p.local_app_data@, p.program_data@, p.system_root@, p.temp@)
}

/// The known folders read from an environment snapshot and the temporary
/// directory, or the first failure, in the order `USERPROFILE`, `LOCALAPPDATA`,
/// `PROGRAMDATA`, `SystemRoot`, then the temporary directory.
pub open spec fn spec_from_lookup(env: Seq<(String, String)>, temp: Seq<char>) -> Result<
    (Seq<char>, Seq<char>, Seq<char>, Seq<char>, Seq<char>),
    Seq<char>,
> {
    match spec_required_absolute(env, "USERPROFILE"@) {
        Err(e) => Err(e),
        Ok(user) => match spec_required_absolute(env, "LOCALAPPDATA"@) {
            Err(e) => Err(e),
            Ok(local) => match spec_required_absolute(env, "PROGRAMDATA"@) {
                Err(e) => Err(e),
                Ok(program) => match spec_required_absolute(env, "SystemRoot"@) {
                    Err(e) => Err(e),
                    Ok(system) => match spec_validate_absolute(temp, "Windows temporary directory"@) {
                        Err(e) => Err(e),
                        Ok(t) => Ok((user, local, program, system, t)),
                    },
                },
            },
        },
    }
}

/// The model of a discovery result.
pub open spec fn discovery_view(r: Result<WindowsPaths, String>) -> Result<
    (Seq<char>, Seq<char>, Seq<char>, Seq<char>, Seq<char>),
    Seq<char>,
> {
    match r {
        Ok(p) => Ok(paths_view(p)),
        Err(e) => Err(e@),
    }
}

impl WindowsPaths {
    /// Reads the known folders from `env`, a snapshot of the environment
    /// (`(name, value)` pairs, the first of a name counting), and `temp`, the
    /// temporary directory.
    pub fn from_lookup_and_temp(env: &Vec<(String, String)>, temp: String) -> (r: Result<Self, String>)
        ensures
            discovery_view(r) == spec_from_lookup(env@, temp@),
    {
        let user_profile = match required_absolute(env, "USERPROFILE") {
            Err(e) => {
                return Err(e);
            },
            Ok(p) => p,
        };
        let local_app_data = match required_absolute(env, "LOCALAPPDATA") {
            Err(e) => {
                return Err(e);
            },
            Ok(p) => p,
        };
        let program_data = match required_absolute(env, "PROGRAMDATA") {
            Err(e) => {
                return Err(e);
            },
            Ok(p) => p,
        };
        let system_root = match required_absolute(env, "SystemRoot") {
            Err(e) => {
                return Err(e);
            },
            Ok(p) => p,
        };
        let temp = match validate_absolute(temp, "Windows temporary directory") {
            Err(e) => {
                return Err(e);
            },
            Ok(p) => p,
        };
        Ok(WindowsPaths { user_profile, local_app_data, program_data, system_root, temp })
    }

    /// Discovers the known folders: only on Windows (`on_windows`), from the
    /// environment snapshot and temporary directory as `from_lookup_and_temp`.
    pub fn discover(on_windows: bool, env: &Vec<(String, String)>, temp: String) -> (r: Result<
        Self,
        String,
    >)
        ensures
            !on_windows ==> discovery_view(r) == Err::<
                (Seq<char>, Seq<char>, Seq<char>, Seq<char>, Seq<char>),
                Seq<char>,
            >("Windows path discovery is unavailable on this platform"@),
            on_windows ==> discovery_view(r) == spec_from_lookup(env@, temp@),
    {
        if !on_windows {
            return Err("Windows path discovery is unavailable on this platform".to_owned());
        }
        Self::from_lookup_and_temp(env, temp)
    }
}

/// The user's temporary directory.
#[derive(Debug, Clone, PartialEq, Eq)]
pub struct WindowsTempScan {
    temp: String,
}

impl WindowsTempScan {
    pub closed spec fn temp(&self) -> Seq<char> {
        self.temp@
    }

    pub fn new(paths: &WindowsPaths) -> (s: Self)
        ensures
            s.temp() == paths.temp@,
            target_request(s) == temp_request(*paths),
    {
        WindowsTempScan { temp: paths.temp.clone() }
    }
}

impl CategoryScanTarget for WindowsTempScan {
    open spec fn target_category(&self) -> CleanupCategory {
        CleanupCategory::UserCache
    }

    open spec fn target_roots(&self) -> Seq<Seq<char>> {
        seq![self.temp()]
    }

    open spec fn target_excluded_roots(&self) -> Seq<Seq<char>> {
        Seq::empty()
    }

    fn category(&self) -> (c: CleanupCategory) {
        CleanupCategory::UserCache
    }

    fn roots(&self) -> (r: Vec<String>) {
        let v = vec![self.temp.clone()];
        assert(string_views(v@) =~= self.target_roots());
        v
    }

    fn excluded_roots(&self) -> (r: Vec<String>) {
        let v: Vec<String> = Vec::new();
        assert(string_views(v@) =~= self.target_excluded_roots());
        v
    }
}

fn clone_strings(v: &Vec<String>) -> (r: Vec<String>)
    ensures
        r@ == v@,
{
    let mut r: Vec<String> = Vec::new();
    let mut i: usize = 0;
    while i < v.len()
        invariant
            i <= v@.len(),
            r@ == v@.take(i as int),
        decreases v@.len() - i,
    {
        r.push(v[i].clone());
        i = i + 1;
        assert(r@ =~= v@.take(i as int));
    }
    assert(v@.take(v@.len() as int) =~= v@);
    r
}

/// `<local>\Microsoft\Windows\WER`
pub open spec fn wer_dir(local: Seq<char>) -> Seq<char> {
    win_path_join(win_path_join(win_path_join(local, "Microsoft"@), "Windows"@), "WER"@)
}

/// The user's Windows Error Reporting archive and queue, not the rest of WER.
#[derive(Debug, Clone, PartialEq, Eq)]
pub struct WindowsWerCacheScan {
    roots: Vec<String>,
}

impl WindowsWerCacheScan {
    pub closed spec fn spec_roots(&self) -> Seq<Seq<char>> {
        string_views(self.roots@)
    }

    pub fn new(paths: &WindowsPaths) -> (s: Self)
        ensures
            s.spec_roots() == seq![
                win_path_join(wer_dir(paths.local_app_data@), "ReportArchive"@),
                win_path_join(wer_dir(paths.local_app_data@), "ReportQueue"@),
            ],
    {
        let m = join_path_in(PathStyle::Windows, paths.local_app_data.as_str(), "Microsoft");
        let w = join_path_in(PathStyle::Windows, m.as_str(), "Windows");
        let wer = join_path_in(PathStyle::Windows, w.as_str(), "WER");
        let roots = vec![
            join_path_in(PathStyle::Windows, wer.as_str(), "ReportArchive"),
            join_path_in(PathStyle::Windows, wer.as_str(), "ReportQueue"),
        ];
        let s = WindowsWerCacheScan { roots };
        assert(s.spec_roots() =~= seq![
            win_path_join(wer_dir(paths.local_app_data@), "ReportArchive"@),
            win_path_join(wer_dir(paths.local_app_data@), "ReportQueue"@),
        ]);
        s
    }
}

impl CategoryScanTarget for WindowsWerCacheScan {
    open spec fn target_category(&self) -> CleanupCategory {
        CleanupCategory::UserCache
    }

    open spec fn target_roots(&self) -> Seq<Seq<char>> {
        self.spec_roots()
    }

    open spec fn target_excluded_roots(&self) -> Seq<Seq<char>> {
        Seq::empty()
    }

    fn category(&self) -> (c: CleanupCategory) {
        CleanupCategory::UserCache
    }

    fn roots(&self) -> (r: Vec<String>) {
        clone_strings(&self.roots)
    }

    fn excluded_roots(&self) -> (r: Vec<String>) {
        let v: Vec<String> = Vec::new();
        assert(string_views(v@) =~= self.target_excluded_roots());
        v
    }
}

/// The npm, pnpm and Yarn caches.
#[derive(Debug, Clone, PartialEq, Eq)]
pub struct WindowsDevCacheScan {
    roots: Vec<String>,
}

impl WindowsDevCacheScan {
    pub closed spec fn spec_roots(&self) -> Seq<Seq<char>> {
        string_views(self.roots@)
    }

    pub fn new(paths: &WindowsPaths) -> (s: Self)
        ensures
            s.spec_roots() == seq![
                win_path_join(paths.local_app_data@, "npm-cache"@),
                win_path_join(win_path_join(paths.local_app_data@, "pnpm"@), "store"@),
                win_path_join(win_path_join(paths.local_app_data@, "Yarn"@), "Cache"@),
            ],
    {
        let l = paths.local_app_data.as_str();
        let w = PathStyle::Windows;
        let roots = vec![
            join_path_in(w, l, "npm-cache"),
            join_path_in(w, join_path_in(w, l, "pnpm").as_str(), "store"),
            join_path_in(w, join_path_in(w, l, "Yarn").as_str(), "Cache"),
        ];
        let s = WindowsDevCacheScan { roots };
        assert(s.spec_roots() =~= seq![
            win_path_join(paths.local_app_data@, "npm-cache"@),
            win_path_join(win_path_join(paths.local_app_data@, "pnpm"@), "store"@),
            win_path_join(win_path_join(paths.local_app_data@, "Yarn"@), "Cache"@),
        ]);
        s
    }
}

impl CategoryScanTarget for WindowsDevCacheScan {
    open spec fn target_category(&self) -> CleanupCategory {
        CleanupCategory::Node
    }

    open spec fn target_roots(&self) -> Seq<Seq<char>> {
        self.spec_roots()
    }

    open spec fn target_excluded_roots(&self) -> Seq<Seq<char>> {
        Seq::empty()
    }

    fn category(&self) -> (c: CleanupCategory) {
        CleanupCategory::Node
    }

    fn roots(&self) -> (r: Vec<String>) {
        clone_strings(&self.roots)
    }

    fn excluded_roots(&self) -> (r: Vec<String>) {
        let v: Vec<String> = Vec::new();
        assert(string_views(v@) =~= self.target_excluded_roots());
        v
    }
}

/// The NuGet HTTP cache and the Gradle caches.
#[derive(Debug, Clone, PartialEq, Eq)]
pub struct WindowsBuildCacheScan {
    roots: Vec<String>,
}

impl WindowsBuildCacheScan {
    pub closed spec fn spec_roots(&self) -> Seq<Seq<char>> {
        string_views(self.roots@)
    }

    pub fn new(paths: &WindowsPaths) -> (s: Self)
        ensures
            s.spec_roots() == seq![
                win_path_join(win_path_join(paths.local_app_data@, "NuGet"@), "v3-cache"@),
                win_path_join(win_path_join(paths.user_profile@, ".gradle"@), "caches"@),
            ],
    {
        let w = PathStyle::Windows;
        let nuget = join_path_in(w, paths.local_app_data.as_str(), "NuGet");
        let gradle = join_path_in(w, paths.user_profile.as_str(), ".gradle");
        let roots = vec![
            join_path_in(w, nuget.as_str(), "v3-cache"),
            join_path_in(w, gradle.as_str(), "caches"),
        ];
        let s = WindowsBuildCacheScan { roots };
        assert(s.spec_roots() =~= seq![
            win_path_join(win_path_join(paths.local_app_data@, "NuGet"@), "v3-cache"@),
            win_path_join(win_path_join(paths.user_profile@, ".gradle"@), "caches"@),
        ]);
        s
    }
}

impl CategoryScanTarget for WindowsBuildCacheScan {
    open spec fn target_category(&self) -> CleanupCategory {
        CleanupCategory::UserCache
    }

    open spec fn target_roots(&self) -> Seq<Seq<char>> {
        self.spec_roots()
    }

    open spec fn target_excluded_roots(&self) -> Seq<Seq<char>> {
        Seq::empty()
    }

    fn category(&self) -> (c: CleanupCategory) {
        CleanupCategory::UserCache
    }

    fn roots(&self) -> (r: Vec<String>) {
        clone_strings(&self.roots)
    }

    fn excluded_roots(&self) -> (r: Vec<String>) {
        let v: Vec<String> = Vec::new();
        assert(string_views(v@) =~= self.target_excluded_roots());
        v
    }
}

/// The candidates whose path was found to be a directory (not a symlink).
pub open spec fn existing_directories(candidates: Seq<String>, kinds: Seq<EntryKind>) -> Seq<String>
    decreases candidates.len(),
{
    if candidates.len() == 0 {
        Seq::empty()
    } else {
        let k = candidates.len() - 1;
        let rest = existing_directories(candidates.drop_last(), kinds);
        if kinds[k] == EntryKind::Directory {
            rest.push(candidates[k])
        } else {
            rest
        }
    }
}

/// Keeps the candidates found to be directories, ordered, each path once.
pub fn keep_existing_directories(candidates: Vec<String>, kinds: &Vec<EntryKind>) -> (r: Vec<String>)
    requires
        kinds@.len() == candidates@.len(),
    ensures
        exists|sorted: Seq<String>|
            sorted.to_multiset() == existing_directories(candidates@, kinds@).to_multiset()
                && is_ordered(sorted) && r@ == dedup_by_path(sorted),
{
    let ghost all = candidates@;
    let mut kept: Vec<String> = Vec::new();
    let mut k: usize = 0;
    let kinds_len = kinds.len();
    assert(all.take(0) =~= Seq::<String>::empty());
    for c in it: candidates
        invariant
            it.seq() == all,
            k == it.index(),
            k <= all.len(),
            kinds_len == kinds@.len(),
            kinds@.len() == all.len(),
            kept@ == existing_directories(all.take(k as int), kinds@),
    {
        assert(all.take(k + 1).drop_last() =~= all.take(k as int));
        let is_dir = match kinds[k] {
            EntryKind::Directory => true,
            _ => false,
        };
        if is_dir {
            kept.push(c);
        }
        k = k + 1;
    }
    assert(all.take(all.len() as int) =~= all);
    sorted_unique_paths(kept)
}

/// A scan target whose roots were discovered on disk.
pub open spec fn discovered_roots_from(roots: Seq<String>, found: Seq<String>) -> bool {
    exists|sorted: Seq<String>|
        sorted.to_multiset() == found.to_multiset() && is_ordered(sorted) && roots == dedup_by_path(
            sorted,
        )
}

/// `<local>\Packages`
pub open spec fn packages_dir(local: Seq<char>) -> Seq<char> {
    win_path_join(local, "Packages"@)
}

/// The `LocalCache` directory of each package directory listed (never a symlink).
pub open spec fn package_cache_candidates(entries: Seq<DirectoryEntry>) -> Seq<Seq<char>>
    decreases entries.len(),
{
    if entries.len() == 0 {
        Seq::empty()
    } else {
        let rest = package_cache_candidates(entries.drop_last());
        let e = entries.last();
        if e.entry_type == EntryType::Directory {
            rest.push(win_path_join(e.path@, "LocalCache"@))
        } else {
            rest
        }
    }
}

/// The per-package caches of Windows apps.
#[derive(Debug, Clone, PartialEq, Eq)]
pub struct WindowsLocalAppDataCacheScan {
    roots: Vec<String>,
}

impl WindowsLocalAppDataCacheScan {
    pub closed spec fn spec_roots(&self) -> Seq<String> {
        self.roots@
    }

    /// The directory whose entries are packages.
    pub fn packages_directory(paths: &WindowsPaths) -> (r: String)
        ensures
            r@ == packages_dir(paths.local_app_data@),
    {
        join_path_in(PathStyle::Windows, paths.local_app_data.as_str(), "Packages")
    }

    /// The paths to look at: the `LocalCache` of each package directory in the
    /// listing of the packages directory (empty where it does not exist).
    pub fn candidates(entries: &Vec<DirectoryEntry>) -> (r: Vec<String>)
        ensures
            string_views(r@) == package_cache_candidates(entries@),
    {
        let mut r: Vec<String> = Vec::new();
        let mut i: usize = 0;
        while i < entries.len()
            invariant
                i <= entries@.len(),
                string_views(r@) == package_cache_candidates(entries@.take(i as int)),
            decreases entries@.len() - i,
        {
            assert(entries@.take(i + 1).drop_last() =~= entries@.take(i as int));
            let is_dir = match entries[i].entry_type {
                EntryType::Directory => true,
                _ => false,
            };
            if is_dir {
                let ghost before = string_views(r@);
                r.push(join_path_in(PathStyle::Windows, entries[i].path.as_str(), "LocalCache"));
                assert(string_views(r@) =~= before.push(
                    win_path_join(entries@[i as int].path@, "LocalCache"@),
                ));
            }
            i = i + 1;
        }
        assert(entries@.take(entries@.len() as int) =~= entries@);
        r
    }

    /// The target, from the candidates and what the file system reports for
    /// each: those that are directories, ordered, each once.
    pub fn from_candidates(candidates: Vec<String>, kinds: &Vec<EntryKind>) -> (s: Self)
        requires
            kinds@.len() == candidates@.len(),
        ensures
            discovered_roots_from(s.spec_roots(), existing_directories(candidates@, kinds@)),
    {
        WindowsLocalAppDataCacheScan { roots: keep_existing_directories(candidates, kinds) }
    }
}

impl CategoryScanTarget for WindowsLocalAppDataCacheScan {
    open spec fn target_category(&self) -> CleanupCategory {
        CleanupCategory::UserCache
    }

    open spec fn target_roots(&self) -> Seq<Seq<char>> {
        string_views(self.spec_roots())
    }

    open spec fn target_excluded_roots(&self) -> Seq<Seq<char>> {
        Seq::empty()
    }

    fn category(&self) -> (c: CleanupCategory) {
        CleanupCategory::UserCache
    }

    fn roots(&self) -> (r: Vec<String>) {
        clone_strings(&self.roots)
    }

    fn excluded_roots(&self) -> (r: Vec<String>) {
        let v: Vec<String> = Vec::new();
        assert(string_views(v@) =~= self.target_excluded_roots());
        v
    }
}

/// `<local>\Microsoft\Windows\Explorer`
pub open spec fn explorer_dir(local: Seq<char>) -> Seq<char> {
    win_path_join(win_path_join(win_path_join(local, "Microsoft"@), "Windows"@), "Explorer"@)
}

/// Whether an entry name is an Explorer thumbnail or icon cache database:
/// `thumbcache_*.db` or `iconcache_*.db`, in any ASCII case.
pub open spec fn is_explorer_cache_name(name: Seq<char>) -> bool {
    let lower = ascii_lowercase(name);
    ("thumbcache_"@.is_prefix_of(lower) || "iconcache_"@.is_prefix_of(lower)) && ".db"@.is_suffix_of(
        lower,
    )
}

/// The Explorer cache databases among the entries: files, never symlinks.
pub open spec fn explorer_cache_files(entries: Seq<DirectoryEntry>) -> Seq<String>
    decreases entries.len(),
{
    if entries.len() == 0 {
        Seq::empty()
    } else {
        let rest = explorer_cache_files(entries.drop_last());
        let e = entries.last();
        if e.entry_type == EntryType::File && e.name is Some && is_explorer_cache_name(e.name->0@) {
            rest.push(e.path)
        } else {
            rest
        }
    }
}

/// The thumbnail and icon caches of Windows Explorer.
#[derive(Debug, Clone, PartialEq, Eq)]
pub struct WindowsExplorerCacheScan {
    roots: Vec<String>,
}

impl WindowsExplorerCacheScan {
    pub closed spec fn spec_roots(&self) -> Seq<String> {
        self.roots@
    }

    /// The directory listed.
    pub fn explorer_directory(paths: &WindowsPaths) -> (r: String)
        ensures
            r@ == explorer_dir(paths.local_app_data@),
    {
        let m = join_path_in(PathStyle::Windows, paths.local_app_data.as_str(), "Microsoft");
        let w = join_path_in(PathStyle::Windows, m.as_str(), "Windows");
        join_path_in(PathStyle::Windows, w.as_str(), "Explorer")
    }

    /// The target, from the listing of the Explorer directory (empty where it
    /// does not exist): its cache databases, ordered, each once.
    pub fn from_listing(entries: Vec<DirectoryEntry>) -> (s: Self)
        ensures
            discovered_roots_from(s.spec_roots(), explorer_cache_files(entries@)),
    {
        let ghost all = entries@;
        let thumb = chars_of("thumbcache_");
        let icon = chars_of("iconcache_");
        let db = chars_of(".db");
        let mut found: Vec<String> = Vec::new();
        assert(all.take(0) =~= Seq::<DirectoryEntry>::empty());
        for e in it: entries
            invariant
                it.seq() == all,
                thumb@ == "thumbcache_"@,
                icon@ == "iconcache_"@,
                db@ == ".db"@,
                found@ == explorer_cache_files(all.take(it.index() as int)),
        {
            let ghost k = it.index() as int;
            assert(all.take(k + 1).drop_last() =~= all.take(k));
            let DirectoryEntry { path, name, entry_type } = e;
            let is_file = match entry_type {
                EntryType::File => true,
                _ => false,
            };
            if is_file {
                match name {
                    Some(n) => {
                        let lower = to_ascii_lowercase_chars(n.as_str());
                        if (chars_starts_with(lower.as_slice(), thumb.as_slice()) || chars_starts_with(
                            lower.as_slice(),
                            icon.as_slice(),
                        )) && chars_ends_with(lower.as_slice(), db.as_slice()) {
                            found.push(path);
                        }
                    },
                    None => {},
                }
            }
        }
        assert(all.take(all.len() as int) =~= all);
        WindowsExplorerCacheScan { roots: sorted_unique_paths(found) }
    }
}

impl CategoryScanTarget for WindowsExplorerCacheScan {
    open spec fn target_category(&self) -> CleanupCategory {
        CleanupCategory::UserCache
    }

    open spec fn target_roots(&self) -> Seq<Seq<char>> {
        string_views(self.spec_roots())
    }

    open spec fn target_excluded_roots(&self) -> Seq<Seq<char>> {
        Seq::empty()
    }

    fn category(&self) -> (c: CleanupCategory) {
        CleanupCategory::UserCache
    }

    fn roots(&self) -> (r: Vec<String>) {
        clone_strings(&self.roots)
    }

    fn excluded_roots(&self) -> (r: Vec<String>) {
        let v: Vec<String> = Vec::new();
        assert(string_views(v@) =~= self.target_excluded_roots());
        v
    }
}

/// The user-data directories of Chrome and Edge.
pub open spec fn browser_user_data_dirs(local: Seq<char>) -> Seq<Seq<char>> {
    seq![
        win_path_join(win_path_join(win_path_join(local, "Google"@), "Chrome"@), "User Data"@),
        win_path_join(win_path_join(win_path_join(local, "Microsoft"@), "Edge"@), "User Data"@),
    ]
}

/// Whether a directory name is a browser profile: `Default` or `Profile <n>`.
pub open spec fn is_profile_name(name: Seq<char>) -> bool {
    name == "Default"@ || "Profile "@.is_prefix_of(name)
}

/// The caches of one listed profile directory.
pub open spec fn profile_caches(profile: Seq<char>) -> Seq<Seq<char>> {
    seq![
        win_path_join(profile, "Cache"@),
        win_path_join(profile, "Code Cache"@),
        win_path_join(profile, "GPUCache"@),
    ]
}

/// The cache directories to look at for the profiles among the entries of a
/// user-data directory: directories, never symlinks, named as profiles.
pub open spec fn profile_cache_candidates(entries: Seq<DirectoryEntry>) -> Seq<Seq<char>>
    decreases entries.len(),
{
    if entries.len() == 0 {
        Seq::empty()
    } else {
        let rest = profile_cache_candidates(entries.drop_last());
        let e = entries.last();
        if e.entry_type == EntryType::Directory && e.name is Some && is_profile_name(e.name->0@) {
            rest + profile_caches(e.path@)
        } else {
            rest
        }
    }
}

/// The disk caches of the Chrome and Edge profiles.
#[derive(Debug, Clone, PartialEq, Eq)]
pub struct WindowsBrowserCacheScan {
    roots: Vec<String>,
}

impl WindowsBrowserCacheScan {
    pub closed spec fn spec_roots(&self) -> Seq<String> {
        self.roots@
    }

    /// The user-data directories to list, Chrome's then Edge's.
    pub fn user_data_directories(paths: &WindowsPaths) -> (r: Vec<String>)
        ensures
            string_views(r@) == browser_user_data_dirs(paths.local_app_data@),
    {
        let l = paths.local_app_data.as_str();
        let w = PathStyle::Windows;
        let google = join_path_in(w, l, "Google");
        let chrome = join_path_in(w, join_path_in(w, google.as_str(), "Chrome").as_str(), "User Data");
        let microsoft = join_path_in(w, l, "Microsoft");
        let edge = join_path_in(w, join_path_in(w, microsoft.as_str(), "Edge").as_str(), "User Data");
        let v = vec![chrome, edge];
        assert(string_views(v@) =~= browser_user_data_dirs(paths.local_app_data@));
        v
    }

    /// The cache directories to look at, from the listing of one user-data
    /// directory (empty where it does not exist).
    pub fn candidates(entries: &Vec<DirectoryEntry>) -> (r: Vec<String>)
        ensures
            string_views(r@) == profile_cache_candidates(entries@),
    {
        let mut r: Vec<String> = Vec::new();
        let default_name = chars_of("Default");
        let profile = chars_of("Profile ");
        let mut i: usize = 0;
        while i < entries.len()
            invariant
                i <= entries@.len(),
                default_name@ == "Default"@,
                profile@ == "Profile "@,
                string_views(r@) == profile_cache_candidates(entries@.take(i as int)),
            decreases entries@.len() - i,
        {
            assert(entries@.take(i + 1).drop_last() =~= entries@.take(i as int));
            let e = &entries[i];
            let is_dir = match e.entry_type {
                EntryType::Directory => true,
                _ => false,
            };
            if is_dir {
                match &e.name {
                    Some(n) => {
                        let nc = chars_of(n.as_str());
                        if crate::text::chars_eq(nc.as_slice(), default_name.as_slice())
                            || chars_starts_with(nc.as_slice(), profile.as_slice()) {
                            let ghost before = string_views(r@);
                            let p = e.path.as_str();
                            r.push(join_path_in(PathStyle::Windows, p, "Cache"));
                            r.push(join_path_in(PathStyle::Windows, p, "Code Cache"));
                            r.push(join_path_in(PathStyle::Windows, p, "GPUCache"));
                            assert(string_views(r@) =~= before + profile_caches(e.path@));
                        }
                    },
                    None => {},
                }
            }
            i = i + 1;
        }
        assert(entries@.take(entries@.len() as int) =~= entries@);
        r
    }

    /// The target, from the candidates of both browsers and what the file
    /// system reports for each: those that are directories, ordered, each once.
    pub fn from_candidates(candidates: Vec<String>, kinds: &Vec<EntryKind>) -> (s: Self)
        requires
            kinds@.len() == candidates@.len(),
        ensures
            discovered_roots_from(s.spec_roots(), existing_directories(candidates@, kinds@)),
    {
        WindowsBrowserCacheScan { roots: keep_existing_directories(candidates, kinds) }
    }
}

impl CategoryScanTarget for WindowsBrowserCacheScan {
    open spec fn target_category(&self) -> CleanupCategory {
        CleanupCategory::UserCache
    }

    open spec fn target_roots(&self) -> Seq<Seq<char>> {
        string_views(self.spec_roots())
    }

    open spec fn target_excluded_roots(&self) -> Seq<Seq<char>> {
        Seq::empty()
    }

    fn category(&self) -> (c: CleanupCategory) {
        CleanupCategory::UserCache
    }

    fn roots(&self) -> (r: Vec<String>) {
        clone_strings(&self.roots)
    }

    fn excluded_roots(&self) -> (r: Vec<String>) {
        let v: Vec<String> = Vec::new();
        assert(string_views(v@) =~= self.target_excluded_roots());
        v
    }
}

/// The model of a scan request: category, roots and excluded roots.
pub open spec fn request_view(r: ScanRequest) -> (CleanupCategory, Seq<Seq<char>>, Seq<Seq<char>>) {
    (r.category, string_views(r.roots@), string_views(r.excluded_roots@))
}

/// The models of a list of requests.
pub open spec fn request_views(s: Seq<ScanRequest>) -> Seq<(CleanupCategory, Seq<Seq<char>>, Seq<Seq<char>>)> {
    s.map_values(|r: ScanRequest| request_view(r))
}

/// The requests that have at least one root, in order.
pub open spec fn with_roots(s: Seq<(CleanupCategory, Seq<Seq<char>>, Seq<Seq<char>>)>) -> Seq<
    (CleanupCategory, Seq<Seq<char>>, Seq<Seq<char>>),
>
    decreases s.len(),
{
    if s.len() == 0 {
        Seq::empty()
    } else {
        let rest = with_roots(s.drop_last());
        if s.last().1.len() > 0 {
            rest.push(s.last())
        } else {
            rest
        }
    }
}

/// The model of a target's request.
pub open spec fn target_request<T: CategoryScanTarget>(t: T) -> (CleanupCategory, Seq<Seq<char>>, Seq<Seq<char>>) {
    (t.target_category(), t.target_roots(), t.target_excluded_roots())
}

/// The request of the temporary directory.
pub open spec fn temp_request(paths: WindowsPaths) -> (CleanupCategory, Seq<Seq<char>>, Seq<Seq<char>>) {
    (CleanupCategory::UserCache, seq![paths.temp@], Seq::empty())
}

/// The request of the error-report archive and queue.
pub open spec fn wer_request(paths: WindowsPaths) -> (CleanupCategory, Seq<Seq<char>>, Seq<Seq<char>>) {
    (
        CleanupCategory::UserCache,
        seq![
            win_path_join(wer_dir(paths.local_app_data@), "ReportArchive"@),
            win_path_join(wer_dir(paths.local_app_data@), "ReportQueue"@),
        ],
        Seq::empty(),
    )
}

/// The request of the package-manager caches.
pub open spec fn dev_request(paths: WindowsPaths) -> (CleanupCategory, Seq<Seq<char>>, Seq<Seq<char>>) {
    (
        CleanupCategory::Node,
        seq![
            win_path_join(paths.local_app_data@, "npm-cache"@),
            win_path_join(win_path_join(paths.local_app_data@, "pnpm"@), "store"@),
            win_path_join(win_path_join(paths.local_app_data@, "Yarn"@), "Cache"@),
        ],
        Seq::empty(),
    )
}

/// The request of the build caches.
pub open spec fn build_request(paths: WindowsPaths) -> (CleanupCategory, Seq<Seq<char>>, Seq<Seq<char>>) {
    (
        CleanupCategory::UserCache,
        seq![
            win_path_join(win_path_join(paths.local_app_data@, "NuGet"@), "v3-cache"@),
            win_path_join(win_path_join(paths.user_profile@, ".gradle"@), "caches"@),
        ],
        Seq::empty(),
    )
}

/// Every Windows scan request of a Smart Scan.
#[derive(Debug, Clone)]
pub struct WindowsScanSet {
    requests: Vec<ScanRequest>,
}

impl WindowsScanSet {
    pub closed spec fn spec_requests(&self) -> Seq<ScanRequest> {
        self.requests@
    }

    /// The scan set: the temporary, error-report, developer and build caches,
    /// then the discovered package, Explorer and browser caches; a request with
    /// no root is dropped.
    pub fn from_targets(
        paths: &WindowsPaths,
        local: &WindowsLocalAppDataCacheScan,
        explorer: &WindowsExplorerCacheScan,
        browser: &WindowsBrowserCacheScan,
    ) -> (s: Self)
        ensures
            request_views(s.spec_requests()) == with_roots(
                seq![
                    temp_request(*paths),
                    wer_request(*paths),
                    dev_request(*paths),
                    build_request(*paths),
                    target_request(*local),
                    target_request(*explorer),
                    target_request(*browser),
                ],
            ),
    {
        let all = vec![
            WindowsTempScan::new(paths).request(),
            WindowsWerCacheScan::new(paths).request(),
            WindowsDevCacheScan::new(paths).request(),
            WindowsBuildCacheScan::new(paths).request(),
            local.request(),
            explorer.request(),
            browser.request(),
        ];
        let ghost models = request_views(all@);
        assert(models =~= seq![
            temp_request(*paths),
            wer_request(*paths),
            dev_request(*paths),
            build_request(*paths),
            target_request(*local),
            target_request(*explorer),
            target_request(*browser),
        ]);
        let mut requests: Vec<ScanRequest> = Vec::new();
        let mut k: usize = 0;
        assert(models.take(0) =~= Seq::<(CleanupCategory, Seq<Seq<char>>, Seq<Seq<char>>)>::empty());
        for r in it: all
            invariant
                request_views(it.seq()) == models,
                models.len() == 7,
                k == it.index(),
                k <= 7,
                request_views(requests@) == with_roots(models.take(k as int)),
        {
            assert(models.take(k + 1).drop_last() =~= models.take(k as int));
            assert(models.take(k + 1).last() == request_view(r));
            assert(string_views(r.roots@).len() == r.roots@.len());
            if r.roots.len() > 0 {
                let ghost before = request_views(requests@);
                requests.push(r);
                assert(request_views(requests@) =~= before.push(request_view(r)));
            }
            k = k + 1;
        }
        assert(models.take(models.len() as int) =~= models);
        WindowsScanSet { requests }
    }

    /// The requests.
    pub fn requests(&self) -> (r: &[ScanRequest])
        ensures
            r@ == self.spec_requests(),
    {
        self.requests.as_slice()
    }

    /// The requests, owned.
    pub fn into_requests(self) -> (r: Vec<ScanRequest>)
        ensures
            r@ == self.spec_requests(),
    {
        self.requests
    }
}

} // verus!
