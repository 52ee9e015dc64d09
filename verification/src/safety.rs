//! Broad system roots that are never scanned or cleaned as a whole.
use vstd::prelude::*;

use crate::path::{path_has_root, path_model, path_parts, views, PathModel, PathStyle};
use crate::text::{chars_of, string_of};

verus! {

/// Name for what `str::to_lowercase` returns: the Unicode lower-case mapping
/// of a string, which depends on the string alone.
pub uninterp spec fn lowercase_of(s: Seq<char>) -> Seq<char>;

/// `str::to_lowercase`: its result is the lower-case mapping named by `lowercase_of`.
#[verifier::external_body]
fn to_lowercase(s: &str) -> (r: String)
    ensures
        r@ == lowercase_of(s@),
{
    s.to_lowercase()
}

/// Lexical normalisation of path components: `..` removes the component before
/// it (there being none, it is dropped), every other component is lower-cased.
pub open spec fn normalize_parts(parts: Seq<Seq<char>>) -> Seq<Seq<char>>
    decreases parts.len(),
{
    if parts.len() == 0 {
        Seq::empty()
    } else {
        let prev = normalize_parts(parts.drop_last());
        if parts.last() == seq!['.', '.'] {
            if prev.len() > 0 {
                prev.drop_last()
            } else {
                prev
            }
        } else {
            prev.push(lowercase_of(parts.last()))
        }
    }
}

/// The key under which the safety policy compares two paths.
pub open spec fn policy_key(p: Seq<char>) -> (bool, Seq<Seq<char>>) {
    (path_has_root(p), normalize_parts(path_parts(p)))
}

/// The broad roots of a Unix system that the cleaner refuses as a whole.
pub open spec fn protected_broad_roots() -> Seq<Seq<char>> {
    seq![
        "/"@,
        "/Applications"@,
        "/Library"@,
        "/System"@,
        "/Users"@,
        "/bin"@,
        "/private"@,
        "/sbin"@,
        "/usr"@,
    ]
}

/// Whether an already resolved path is, lexically and ignoring case, one of the broad roots.
pub open spec fn is_protected_resolved(resolved: Seq<char>) -> bool {
    exists|i: int|
        0 <= i < protected_broad_roots().len() && policy_key(resolved) == policy_key(
            #[trigger] protected_broad_roots()[i],
        )
}

/// The path the policy judges: the file system's resolution of `path` where there
/// is one, else `path` itself.
pub open spec fn policy_target(path: Seq<char>, resolved: Option<Seq<char>>) -> Seq<char> {
    match resolved {
        Some(r) => r,
        None => path,
    }
}

/// The view of an optional string slice.
pub open spec fn opt_view(o: Option<&str>) -> Option<Seq<char>> {
    match o {
        Some(s) => Some(s@),
        None => None,
    }
}

/// Whether `path` is a protected broad root, given what the file system resolved it to.
pub open spec fn spec_is_protected_broad_root(path: Seq<char>, resolved: Option<Seq<char>>) -> bool {
    is_protected_resolved(policy_target(path, resolved))
}

fn protected_root_at(i: usize) -> (r: &'static str)
    requires
        i < 9,
    ensures
        r@ == protected_broad_roots()[i as int],
{
    match i {
        0 => "/",
        1 => "/Applications",
        2 => "/Library",
        3 => "/System",
        4 => "/Users",
        5 => "/bin",
        6 => "/private",
        7 => "/sbin",
        _ => "/usr",
    }
}

/// Lower-cases one component.
fn lowercase_part(part: &Vec<char>) -> (r: Vec<char>)
    ensures
        r@ == lowercase_of(part@),
{
    let s = string_of(part.as_slice());
    let lower = to_lowercase(s.as_str());
    chars_of(lower.as_str())
}

/// Lexically normalises path components (`..` handling and lower case).
pub fn normalize_path_parts(parts: &Vec<Vec<char>>) -> (r: Vec<Vec<char>>)
    ensures
        views(r@) == normalize_parts(views(parts@)),
{
    let mut out: Vec<Vec<char>> = Vec::new();
    let mut i: usize = 0;
    while i < parts.len()
        invariant
            i <= parts@.len(),
            views(out@) == normalize_parts(views(parts@).take(i as int)),
        decreases parts@.len() - i,
    {
        let ghost taken = views(parts@).take(i as int);
        assert(views(parts@).take(i + 1).drop_last() =~= taken);
        assert(views(parts@).take(i + 1).last() == parts@[i as int]@);
        let part = &parts[i];
        if part.len() == 2 && part[0] == '.' && part[1] == '.' {
            assert(part@ =~= seq!['.', '.']);
            if out.len() > 0 {
                let ghost before = views(out@);
                out.pop();
                assert(views(out@) =~= before.drop_last());
            }
        } else {
            assert(part@ != seq!['.', '.']);
            let lower = lowercase_part(part);
            let ghost before = views(out@);
            out.push(lower);
            assert(views(out@) =~= before.push(lowercase_of(part@)));
        }
        i = i + 1;
    }
    assert(views(parts@).take(parts@.len() as int) =~= views(parts@));
    out
}

/// The policy key of a path as an executable value.
fn policy_model(p: &str) -> (m: PathModel)
    ensures
        (m.rooted, views(m.parts@)) == policy_key(p@),
{
    let model = path_model(p);
    let parts = normalize_path_parts(&model.parts);
    PathModel { rooted: model.rooted, parts }
}

/// Whether an already resolved path is one of the protected broad roots.
pub fn is_protected_resolved_path(resolved: &str) -> (r: bool)
    ensures
        r == is_protected_resolved(resolved@),
{
    let candidate = policy_model(resolved);
    let mut i: usize = 0;
    while i < 9
        invariant
            i <= 9,
            (candidate.rooted, views(candidate.parts@)) == policy_key(resolved@),
            forall|j: int|
                0 <= j < i ==> policy_key(resolved@) != policy_key(
                    #[trigger] protected_broad_roots()[j],
                ),
        decreases 9 - i,
    {
        let root = protected_root_at(i);
        let key = policy_model(root);
        if candidate.rooted == key.rooted && crate::path::parts_eq(&candidate.parts, &key.parts) {
            assert(policy_key(resolved@) == policy_key(protected_broad_roots()[i as int]));
            return true;
        }
        i = i + 1;
    }
    assert(protected_broad_roots().len() == 9);
    false
}

/// Whether `path` is a protected broad root. `resolved` is what the file system
/// resolved `path` to (`fs::canonicalize`), or `None` where it could not.
pub fn is_protected_broad_root(path: &str, resolved: Option<&str>) -> (r: bool)
    ensures
        r == spec_is_protected_broad_root(path@, opt_view(resolved)),
{
    match resolved {
        Some(target) => is_protected_resolved_path(target),
        None => is_protected_resolved_path(path),
    }
}

/// A Windows path separator.
pub open spec fn win_sep(c: char) -> bool {
    c == '\\' || c == '/'
}

/// The index of the first separator at or after `from`, or the length.
pub open spec fn next_win_sep(p: Seq<char>, from: nat) -> nat
    decreases p.len() - from,
{
    if from >= p.len() {
        p.len()
    } else if win_sep(p[from as int]) {
        from
    } else {
        next_win_sep(p, from + 1)
    }
}

/// Whether a character is an ASCII letter.
pub open spec fn is_ascii_letter(c: char) -> bool {
    ('a' <= c && c <= 'z') || ('A' <= c && c <= 'Z')
}

/// The length of a Windows path prefix: a drive (`C:`) or a share (`\\server\share`).
pub open spec fn win_prefix_len(p: Seq<char>) -> nat {
    if p.len() >= 2 && is_ascii_letter(p[0]) && p[1] == ':' {
        2
    } else if p.len() >= 2 && win_sep(p[0]) && win_sep(p[1]) {
        let a = next_win_sep(p, 2);
        if a >= p.len() {
            p.len()
        } else {
            next_win_sep(p, a + 1)
        }
    } else {
        0
    }
}

/// Splitting state of a Windows path body, as `split_state` with both separators.
pub open spec fn win_split_state(p: Seq<char>) -> (Seq<Seq<char>>, Seq<char>)
    decreases p.len(),
{
    if p.len() == 0 {
        (Seq::empty(), Seq::empty())
    } else {
        let prev = win_split_state(p.drop_last());
        if win_sep(p.last()) {
            (crate::path::flush_segment(prev.0, prev.1), Seq::empty())
        } else {
            (prev.0, prev.1.push(p.last()))
        }
    }
}

/// The path after its prefix.
pub open spec fn win_body(p: Seq<char>) -> Seq<char> {
    p.subrange(win_prefix_len(p) as int, p.len() as int)
}

/// The normal components of a Windows path after its prefix and root.
pub open spec fn win_parts(p: Seq<char>) -> Seq<Seq<char>> {
    crate::path::flush_segment(win_split_state(win_body(p)).0, win_split_state(win_body(p)).1)
}

/// ASCII case folding of one character.
pub open spec fn ascii_fold(c: char) -> u32 {
    if 'A' <= c && c <= 'Z' {
        (c as u32 + 32) as u32
    } else {
        c as u32
    }
}

/// `eq_ignore_ascii_case`.
pub open spec fn eq_ignore_ascii_case(a: Seq<char>, b: Seq<char>) -> bool {
    a.len() == b.len() && forall|i: int| 0 <= i < a.len() ==> ascii_fold(a[i]) == ascii_fold(b[i])
}

/// The top-level directories of a Windows volume that are never cleaned as a whole.
pub open spec fn windows_protected_top_level() -> Seq<Seq<char>> {
    seq![
        "windows"@,
        "program files"@,
        "program files (x86)"@,
        "program files (arm)"@,
        "programdata"@,
        "users"@,
    ]
}

/// Whether an already resolved Windows path is a volume or share root, or a
/// protected top-level directory of one.
pub open spec fn is_windows_protected_resolved(p: Seq<char>) -> bool {
    let body = win_body(p);
    let parts = normalize_parts(win_parts(p));
    &&& win_prefix_len(p) > 0
    &&& body.len() > 0 && win_sep(body[0])
    &&& parts.len() == 0 || (parts.len() == 1 && exists|i: int|
        0 <= i < windows_protected_top_level().len() && eq_ignore_ascii_case(
            parts[0],
            #[trigger] windows_protected_top_level()[i],
        ))
}

fn windows_top_level_at(i: usize) -> (r: &'static str)
    requires
        i < 6,
    ensures
        r@ == windows_protected_top_level()[i as int],
{
    match i {
        0 => "windows",
        1 => "program files",
        2 => "program files (x86)",
        3 => "program files (arm)",
        4 => "programdata",
        _ => "users",
    }
}

pub(crate) fn is_win_sep(c: char) -> (r: bool)
    ensures
        r == win_sep(c),
{
    c == '\\' || c == '/'
}

fn next_win_sep_exec(p: &Vec<char>, from: usize) -> (r: usize)
    requires
        from <= p@.len(),
    ensures
        r == next_win_sep(p@, from as nat),
        from <= r <= p@.len(),
    decreases p@.len() - from,
{
    if from >= p.len() {
        p.len()
    } else if is_win_sep(p[from]) {
        from
    } else {
        next_win_sep_exec(p, from + 1)
    }
}

pub(crate) fn win_prefix_len_exec(p: &Vec<char>) -> (r: usize)
    ensures
        r == win_prefix_len(p@),
        r <= p@.len(),
{
    if p.len() >= 2 && (('a' <= p[0] && p[0] <= 'z') || ('A' <= p[0] && p[0] <= 'Z'))
        && p[1] == ':' {
        2
    } else if p.len() >= 2 && is_win_sep(p[0]) && is_win_sep(p[1]) {
        let a = next_win_sep_exec(p, 2);
        if a >= p.len() {
            p.len()
        } else {
            next_win_sep_exec(p, a + 1)
        }
    } else {
        0
    }
}

pub(crate) fn win_split(body: &Vec<char>) -> (r: Vec<Vec<char>>)
    ensures
        views(r@) == crate::path::flush_segment(
            win_split_state(body@).0,
            win_split_state(body@).1,
        ),
{
    let mut done: Vec<Vec<char>> = Vec::new();
    let mut cur: Vec<char> = Vec::new();
    let mut i: usize = 0;
    while i < body.len()
        invariant
            i <= body@.len(),
            (views(done@), cur@) == win_split_state(body@.take(i as int)),
        decreases body@.len() - i,
    {
        let c = body[i];
        let ghost prefix = body@.take(i as int);
        assert(body@.take(i + 1).drop_last() =~= prefix);
        assert(body@.take(i + 1).last() == c);
        if is_win_sep(c) {
            if !(cur.len() == 0 || (cur.len() == 1 && cur[0] == '.')) {
                let ghost before = views(done@);
                done.push(cur);
                assert(views(done@) =~= before.push(win_split_state(prefix).1));
            } else {
                assert(cur@.len() == 0 || cur@ =~= seq!['.']);
            }
            cur = Vec::new();
            assert(cur@ =~= Seq::<char>::empty());
        } else {
            cur.push(c);
        }
        i = i + 1;
    }
    assert(body@.take(body@.len() as int) =~= body@);
    if !(cur.len() == 0 || (cur.len() == 1 && cur[0] == '.')) {
        let ghost before = views(done@);
        let ghost last = cur@;
        done.push(cur);
        assert(views(done@) =~= before.push(last));
    } else {
        assert(cur@.len() == 0 || cur@ =~= seq!['.']);
    }
    done
}

fn ascii_fold_exec(c: char) -> (r: u32)
    ensures
        r == ascii_fold(c),
{
    if 'A' <= c && c <= 'Z' {
        c as u32 + 32
    } else {
        c as u32
    }
}

/// `eq_ignore_ascii_case` on character vectors.
pub fn chars_eq_ignore_ascii_case(a: &[char], b: &[char]) -> (r: bool)
    ensures
        r == eq_ignore_ascii_case(a@, b@),
{
    if a.len() != b.len() {
        return false;
    }
    let mut i: usize = 0;
    while i < a.len()
        invariant
            a@.len() == b@.len(),
            i <= a@.len(),
            forall|j: int| 0 <= j < i ==> ascii_fold(a@[j]) == ascii_fold(b@[j]),
        decreases a@.len() - i,
    {
        if ascii_fold_exec(a[i]) != ascii_fold_exec(b[i]) {
            return false;
        }
        i = i + 1;
    }
    true
}

/// Whether an already resolved Windows path is protected.
pub fn is_windows_protected_resolved_path(p: &str) -> (r: bool)
    ensures
        r == is_windows_protected_resolved(p@),
{
    let cs = chars_of(p);
    let prefix_len = win_prefix_len_exec(&cs);
    if prefix_len == 0 {
        return false;
    }
    let body = crate::text::chars_slice(cs.as_slice(), prefix_len, cs.len());
    assert(body@ == win_body(p@));
    if !(body.len() > 0 && is_win_sep(body[0])) {
        return false;
    }
    let parts = win_split(&body);
    let normalized = normalize_path_parts(&parts);
    if normalized.len() == 0 {
        return true;
    }
    if normalized.len() != 1 {
        return false;
    }
    let ghost first = views(normalized@)[0];
    assert(views(parts@) == win_parts(p@));
    let mut i: usize = 0;
    while i < 6
        invariant
            i <= 6,
            win_prefix_len(p@) > 0,
            win_body(p@).len() > 0 && win_sep(win_body(p@)[0]),
            normalized@.len() == 1,
            views(normalized@) == normalize_parts(win_parts(p@)),
            first == normalized@[0]@,
            forall|j: int|
                0 <= j < i ==> !eq_ignore_ascii_case(
                    first,
                    #[trigger] windows_protected_top_level()[j],
                ),
        decreases 6 - i,
    {
        let name = chars_of(windows_top_level_at(i));
        if chars_eq_ignore_ascii_case(normalized[0].as_slice(), name.as_slice()) {
            assert(eq_ignore_ascii_case(first, windows_protected_top_level()[i as int]));
            return true;
        }
        i = i + 1;
    }
    assert(windows_protected_top_level().len() == 6);
    false
}

/// The Windows form of the broad-root check: a drive or share root, or one of its
/// protected top-level directories, compared ignoring ASCII case after lexical
/// normalisation. `resolved` is what the file system resolved `path` to, if anything.
pub fn is_windows_protected_broad_root(path: &str, resolved: Option<&str>) -> (r: bool)
    ensures
        r == is_windows_protected_resolved(policy_target(path@, opt_view(resolved))),
{
    match resolved {
        Some(target) => is_windows_protected_resolved_path(target),
        None => is_windows_protected_resolved_path(path),
    }
}

/// Whether an already resolved path is protected under the conventions of
/// `style`: one of the Unix broad roots, or a Windows volume or share root or one
/// of its protected top-level directories.
pub open spec fn is_protected_resolved_in(style: PathStyle, resolved: Seq<char>) -> bool {
    match style {
        PathStyle::Unix => is_protected_resolved(resolved),
        PathStyle::Windows => is_windows_protected_resolved(resolved),
    }
}

/// Whether `path` is a protected broad root under the conventions of `style`,
/// given what the file system resolved it to.
pub open spec fn spec_is_protected_broad_root_in(
    style: PathStyle,
    path: Seq<char>,
    resolved: Option<Seq<char>>,
) -> bool {
    is_protected_resolved_in(style, policy_target(path, resolved))
}

/// Whether an already resolved path is protected under the conventions of `style`.
pub fn is_protected_resolved_path_in(style: PathStyle, resolved: &str) -> (r: bool)
    ensures
        r == is_protected_resolved_in(style, resolved@),
{
    match style {
        PathStyle::Unix => is_protected_resolved_path(resolved),
        PathStyle::Windows => is_windows_protected_resolved_path(resolved),
    }
}

/// The broad-root check under the conventions of `style`: the Unix list on Unix,
/// the Windows rule on Windows.
pub fn is_protected_broad_root_in(style: PathStyle, path: &str, resolved: Option<&str>) -> (r: bool)
    ensures
        r == spec_is_protected_broad_root_in(style, path@, opt_view(resolved)),
{
    match resolved {
        Some(target) => is_protected_resolved_path_in(style, target),
        None => is_protected_resolved_path_in(style, path),
    }
}

} // verus!
