//! Paths held as strings, read by the conventions of Unix or of Windows.
//!
//! A Unix path is a string whose components are separated by `/`. Its model is
//! whether it starts at the root, and the sequence of its non-empty segments
//! other than `.`; `..` is kept as a segment. Two paths are the same path when
//! their models are equal, as `std::path::Path` compares paths component by
//! component.
//!
//! A Windows path may start with a prefix, a drive (`C:`) or a share
//! (`\\server\share`), and separates its components by `\` or `/`. Its model is
//! the prefix (a drive letter in upper case, or the share's segments), whether a
//! separator follows the prefix, and the segments after it.
use vstd::prelude::*;

use crate::safety::{
    is_ascii_letter, is_win_sep, win_body, win_parts, win_prefix_len, win_prefix_len_exec, win_sep,
    win_split, win_split_state,
};
use crate::text::{chars_eq, chars_of, chars_slice, concat_str, string_of};

verus! {

/// Adds a finished segment to the list, unless it is empty or `.`.
pub open spec fn flush_segment(done: Seq<Seq<char>>, cur: Seq<char>) -> Seq<Seq<char>> {
    if cur.len() == 0 || cur == seq!['.'] {
        done
    } else {
        done.push(cur)
    }
}

/// The segments finished so far, and the segment being read, after reading `p`.
pub open spec fn split_state(p: Seq<char>) -> (Seq<Seq<char>>, Seq<char>)
    decreases p.len(),
{
    if p.len() == 0 {
        (Seq::empty(), Seq::empty())
    } else {
        let prev = split_state(p.drop_last());
        if p.last() == '/' {
            (flush_segment(prev.0, prev.1), Seq::empty())
        } else {
            (prev.0, prev.1.push(p.last()))
        }
    }
}

/// The non-root components of a path.
pub open spec fn path_parts(p: Seq<char>) -> Seq<Seq<char>> {
    flush_segment(split_state(p).0, split_state(p).1)
}

/// Whether the path starts at the root.
pub open spec fn path_has_root(p: Seq<char>) -> bool {
    p.len() > 0 && p[0] == '/'
}

/// Whether two strings name the same path, component by component.
pub open spec fn same_path(a: Seq<char>, b: Seq<char>) -> bool {
    path_has_root(a) == path_has_root(b) && path_parts(a) == path_parts(b)
}

/// Whether `base` is a leading run of the components of `p` (`Path::starts_with`).
pub open spec fn path_starts_with(p: Seq<char>, base: Seq<char>) -> bool {
    path_has_root(p) == path_has_root(base) && path_parts(base).is_prefix_of(path_parts(p))
}

/// `Path::join`: an absolute child replaces the base; otherwise the child is
/// appended after a separator, unless the base is empty or already ends in one.
pub open spec fn path_join(base: Seq<char>, child: Seq<char>) -> Seq<char> {
    if path_has_root(child) {
        child
    } else if base.len() == 0 || base.last() == '/' {
        base + child
    } else {
        base + seq!['/'] + child
    }
}

/// The views of a list of character vectors.
pub open spec fn views(v: Seq<Vec<char>>) -> Seq<Seq<char>> {
    v.map_values(|x: Vec<char>| x@)
}

/// The views of a list of strings.
pub open spec fn string_views(v: Seq<String>) -> Seq<Seq<char>> {
    v.map_values(|x: String| x@)
}

/// The model of a path as an executable value: whether it is rooted, and its parts.
pub struct PathModel {
    pub rooted: bool,
    pub parts: Vec<Vec<char>>,
}

impl PathModel {
    pub open spec fn is_model_of(&self, p: Seq<char>) -> bool {
        &&& self.rooted == path_has_root(p)
        &&& views(self.parts@) == path_parts(p)
    }
}

/// Splits a path into its model.
pub fn path_model(p: &str) -> (m: PathModel)
    ensures
        m.is_model_of(p@),
{
    let cs = chars_of(p);
    let mut done: Vec<Vec<char>> = Vec::new();
    let mut cur: Vec<char> = Vec::new();
    let mut i: usize = 0;
    while i < cs.len()
        invariant
            i <= cs@.len(),
            cs@ == p@,
            (views(done@), cur@) == split_state(cs@.take(i as int)),
        decreases cs@.len() - i,
    {
        let c = cs[i];
        let ghost prefix = cs@.take(i as int);
        assert(cs@.take(i + 1).drop_last() =~= prefix);
        assert(cs@.take(i + 1).last() == c);
        if c == '/' {
            if !(cur.len() == 0 || (cur.len() == 1 && cur[0] == '.')) {
                let ghost before = views(done@);
                done.push(cur);
                assert(views(done@) =~= before.push(split_state(prefix).1));
            } else {
                assert(cur@.len() == 0 || cur@ =~= seq!['.']);
            }
            cur = Vec::new();
            assert(cur@ =~= Seq::<char>::empty());
        } else {
            cur.push(c);
        }
        i = i + 1;
    }
    assert(cs@.take(cs@.len() as int) =~= cs@);
    if !(cur.len() == 0 || (cur.len() == 1 && cur[0] == '.')) {
        let ghost before = views(done@);
        let ghost last = cur@;
        done.push(cur);
        assert(views(done@) =~= before.push(last));
    } else {
        assert(cur@.len() == 0 || cur@ =~= seq!['.']);
    }
    let rooted = cs.len() > 0 && cs[0] == '/';
    PathModel { rooted, parts: done }
}

/// Equality of two lists of components.
pub fn parts_eq(a: &Vec<Vec<char>>, b: &Vec<Vec<char>>) -> (r: bool)
    ensures
        r == (views(a@) == views(b@)),
{
    if a.len() != b.len() {
        assert(views(a@).len() != views(b@).len());
        return false;
    }
    let mut i: usize = 0;
    while i < a.len()
        invariant
            a@.len() == b@.len(),
            i <= a@.len(),
            forall|j: int| 0 <= j < i ==> a@[j]@ == b@[j]@,
        decreases a@.len() - i,
    {
        if !chars_eq(a[i].as_slice(), b[i].as_slice()) {
            assert(views(a@)[i as int] != views(b@)[i as int]);
            return false;
        }
        i = i + 1;
    }
    assert(views(a@) =~= views(b@));
    true
}

/// Whether the components of `base` are a leading run of those of `p`.
pub fn parts_prefix(p: &Vec<Vec<char>>, base: &Vec<Vec<char>>) -> (r: bool)
    ensures
        r == views(base@).is_prefix_of(views(p@)),
{
    if base.len() > p.len() {
        return false;
    }
    let mut i: usize = 0;
    while i < base.len()
        invariant
            base@.len() <= p@.len(),
            i <= base@.len(),
            forall|j: int| 0 <= j < i ==> base@[j]@ == p@[j]@,
        decreases base@.len() - i,
    {
        if !chars_eq(base[i].as_slice(), p[i].as_slice()) {
            assert(views(base@)[i as int] != views(p@)[i as int]);
            return false;
        }
        i = i + 1;
    }
    assert forall|j: int| 0 <= j < views(base@).len() implies views(base@)[j] == views(
        p@,
    )[j] by {}
    true
}

/// Whether two strings name the same path (`Path == Path`).
pub fn paths_equal(a: &str, b: &str) -> (r: bool)
    ensures
        r == same_path(a@, b@),
{
    let ma = path_model(a);
    let mb = path_model(b);
    ma.rooted == mb.rooted && parts_eq(&ma.parts, &mb.parts)
}

/// `Path::starts_with`: whether `base`'s components lead the components of `p`.
pub fn starts_with_path(p: &str, base: &str) -> (r: bool)
    ensures
        r == path_starts_with(p@, base@),
{
    let mp = path_model(p);
    let mb = path_model(base);
    mp.rooted == mb.rooted && parts_prefix(&mp.parts, &mb.parts)
}

/// `Path::join`.
pub fn join_path(base: &str, child: &str) -> (r: String)
    ensures
        r@ == path_join(base@, child@),
{
    let b = chars_of(base);
    let c = chars_of(child);
    if c.len() > 0 && c[0] == '/' {
        return string_of(c.as_slice());
    }
    if b.len() == 0 || b[b.len() - 1] == '/' {
        concat_str(base, child)
    } else {
        let with_sep = concat_str(base, "/");
        proof {
            reveal_strlit("/");
        }
        let r = concat_str(with_sep.as_str(), child);
        assert(r@ =~= base@ + seq!['/'] + child@);
        r
    }
}

/// Whether the path starts at the root (`Path::is_absolute` on Unix).
pub fn is_absolute_path(p: &str) -> (r: bool)
    ensures
        r == path_has_root(p@),
{
    let cs = chars_of(p);
    cs.len() > 0 && cs[0] == '/'
}

/// The path conventions of a platform: how separators, prefixes and joins read.
#[derive(Debug, Clone, Copy, PartialEq, Eq, Structural)]
pub enum PathStyle {
    Unix,
    Windows,
}

/// The upper-case form of an ASCII letter; every other character stays.
pub open spec fn ascii_upper(c: char) -> char {
    if 'a' <= c && c <= 'z' {
        ((c as u32) - 32) as char
    } else {
        c
    }
}

/// The prefix of a Windows path as paths compare it: none (0), a drive (1) with
/// its letter in upper case, or a share (2) with its segments.
pub open spec fn win_prefix_key(p: Seq<char>) -> (nat, Seq<Seq<char>>) {
    let n = win_prefix_len(p);
    if n == 0 {
        (0, Seq::empty())
    } else if is_ascii_letter(p[0]) && p[1] == ':' {
        (1, seq![seq![ascii_upper(p[0])]])
    } else {
        let st = win_split_state(p.take(n as int));
        (2, flush_segment(st.0, st.1))
    }
}

/// Whether a separator follows the prefix of a Windows path.
pub open spec fn win_has_root(p: Seq<char>) -> bool {
    win_body(p).len() > 0 && win_sep(win_body(p)[0])
}

/// Whether two Windows paths are the same path, component by component.
pub open spec fn win_same_path(a: Seq<char>, b: Seq<char>) -> bool {
    &&& win_prefix_key(a) == win_prefix_key(b)
    &&& win_has_root(a) == win_has_root(b)
    &&& win_parts(a) == win_parts(b)
}

/// Whether `base` leads the components of the Windows path `p`.
pub open spec fn win_path_starts_with(p: Seq<char>, base: Seq<char>) -> bool {
    &&& win_prefix_key(p) == win_prefix_key(base)
    &&& win_has_root(p) == win_has_root(base)
    &&& win_parts(base).is_prefix_of(win_parts(p))
}

/// `Path::join` on Windows: a child with a prefix replaces the base; a child that
/// starts with a separator keeps only the base's prefix; otherwise the child is
/// appended, after `\\` unless the base is empty, ends in a separator, or is a
/// bare drive.
pub open spec fn win_path_join(base: Seq<char>, child: Seq<char>) -> Seq<char> {
    if win_prefix_len(child) > 0 {
        child
    } else if child.len() > 0 && win_sep(child[0]) {
        base.take(win_prefix_len(base) as int) + child
    } else if base.len() == 0 || win_sep(base.last()) || (base.len() == 2 && is_ascii_letter(base[0])
        && base[1] == ':') {
        base + child
    } else {
        base + seq!['\\'] + child
    }
}

/// Whether two strings name the same path under the conventions of `style`.
pub open spec fn same_path_in(style: PathStyle, a: Seq<char>, b: Seq<char>) -> bool {
    match style {
        PathStyle::Unix => same_path(a, b),
        PathStyle::Windows => win_same_path(a, b),
    }
}

/// `Path::starts_with` under the conventions of `style`.
pub open spec fn path_starts_with_in(style: PathStyle, p: Seq<char>, base: Seq<char>) -> bool {
    match style {
        PathStyle::Unix => path_starts_with(p, base),
        PathStyle::Windows => win_path_starts_with(p, base),
    }
}

/// `Path::join` under the conventions of `style`.
pub open spec fn path_join_in(style: PathStyle, base: Seq<char>, child: Seq<char>) -> Seq<char> {
    match style {
        PathStyle::Unix => path_join(base, child),
        PathStyle::Windows => win_path_join(base, child),
    }
}

fn ascii_upper_exec(c: char) -> (r: char)
    ensures
        r == ascii_upper(c),
{
    if 'a' <= c && c <= 'z' {
        let code: u8 = c as u8;
        assert(code == c as u32);
        (code - 32) as char
    } else {
        c
    }
}

/// The model of a Windows path as an executable value.
struct WinPathModel {
    prefix_kind: u8,
    prefix_parts: Vec<Vec<char>>,
    rooted: bool,
    parts: Vec<Vec<char>>,
}

impl WinPathModel {
    spec fn is_model_of(&self, p: Seq<char>) -> bool {
        &&& (self.prefix_kind as nat, views(self.prefix_parts@)) == win_prefix_key(p)
        &&& self.rooted == win_has_root(p)
        &&& views(self.parts@) == win_parts(p)
    }
}

fn win_path_model(p: &str) -> (m: WinPathModel)
    ensures
        m.is_model_of(p@),
{
    let cs = chars_of(p);
    let n = win_prefix_len_exec(&cs);
    let body = chars_slice(cs.as_slice(), n, cs.len());
    assert(body@ == win_body(p@));
    let parts = win_split(&body);
    let rooted = body.len() > 0 && is_win_sep(body[0]);
    if n == 0 {
        let m = WinPathModel { prefix_kind: 0, prefix_parts: Vec::new(), rooted, parts };
        assert(views(m.prefix_parts@) =~= Seq::<Seq<char>>::empty());
        m
    } else if (('a' <= cs[0] && cs[0] <= 'z') || ('A' <= cs[0] && cs[0] <= 'Z')) && cs[1] == ':' {
        let upper = ascii_upper_exec(cs[0]);
        let letter = vec![upper];
        assert(letter@ =~= seq![ascii_upper(p@[0])]);
        let prefix_parts = vec![letter];
        assert(views(prefix_parts@)[0] == seq![ascii_upper(p@[0])]);
        assert(views(prefix_parts@) =~= seq![seq![ascii_upper(p@[0])]]);
        WinPathModel { prefix_kind: 1, prefix_parts, rooted, parts }
    } else {
        let prefix = chars_slice(cs.as_slice(), 0, n);
        assert(prefix@ =~= p@.take(n as int));
        let prefix_parts = win_split(&prefix);
        WinPathModel { prefix_kind: 2, prefix_parts, rooted, parts }
    }
}

/// Whether two strings name the same path under the conventions of `style`.
pub fn paths_equal_in(style: PathStyle, a: &str, b: &str) -> (r: bool)
    ensures
        r == same_path_in(style, a@, b@),
{
    match style {
        PathStyle::Unix => paths_equal(a, b),
        PathStyle::Windows => {
            let ma = win_path_model(a);
            let mb = win_path_model(b);
            ma.prefix_kind == mb.prefix_kind && parts_eq(&ma.prefix_parts, &mb.prefix_parts)
                && ma.rooted == mb.rooted && parts_eq(&ma.parts, &mb.parts)
        },
    }
}

/// `Path::starts_with` under the conventions of `style`.
pub fn starts_with_path_in(style: PathStyle, p: &str, base: &str) -> (r: bool)
    ensures
        r == path_starts_with_in(style, p@, base@),
{
    match style {
        PathStyle::Unix => starts_with_path(p, base),
        PathStyle::Windows => {
            let mp = win_path_model(p);
            let mb = win_path_model(base);
            mp.prefix_kind == mb.prefix_kind && parts_eq(&mp.prefix_parts, &mb.prefix_parts)
                && mp.rooted == mb.rooted && parts_prefix(&mp.parts, &mb.parts)
        },
    }
}

/// `Path::join` under the conventions of `style`.
pub fn join_path_in(style: PathStyle, base: &str, child: &str) -> (r: String)
    ensures
        r@ == path_join_in(style, base@, child@),
{
    match style {
        PathStyle::Unix => join_path(base, child),
        PathStyle::Windows => {
            let b = chars_of(base);
            let c = chars_of(child);
            if win_prefix_len_exec(&c) > 0 {
                return string_of(c.as_slice());
            }
            if c.len() > 0 && is_win_sep(c[0]) {
                let n = win_prefix_len_exec(&b);
                let head = chars_slice(b.as_slice(), 0, n);
                assert(head@ =~= base@.take(n as int));
                let head_str = string_of(head.as_slice());
                return concat_str(head_str.as_str(), child);
            }
            if b.len() == 0 || is_win_sep(b[b.len() - 1]) || (b.len() == 2 && (('a' <= b[0]
                && b[0] <= 'z') || ('A' <= b[0] && b[0] <= 'Z')) && b[1] == ':') {
                concat_str(base, child)
            } else {
                let with_sep = concat_str(base, "\\");
                proof {
                    reveal_strlit("\\");
                }
                let r = concat_str(with_sep.as_str(), child);
                assert(r@ =~= base@ + seq!['\\'] + child@);
                r
            }
        },
    }
}

} // verus!
