//! Deterministic orders for reports, and a stable sort over them.
use vstd::prelude::*;

use crate::path::{path_has_root, path_model, path_parts, views};
use crate::text::chars_of;

verus! {

broadcast use vstd::seq_lib::group_to_multiset_ensures;

/// A three-way comparison: -1, 0 or 1.
pub open spec fn is_sign(c: int) -> bool {
    c == -1 || c == 0 || c == 1
}

/// A three-way comparison of characters by code point.
pub open spec fn compare_char(a: char, b: char) -> int {
    if (a as u32) < (b as u32) {
        -1
    } else if a == b {
        0
    } else {
        1
    }
}

/// Lexicographic comparison of character sequences (the order of `str`).
pub open spec fn compare_chars(a: Seq<char>, b: Seq<char>) -> int
    decreases a.len(),
{
    if a.len() == 0 {
        if b.len() == 0 {
            0
        } else {
            -1
        }
    } else if b.len() == 0 {
        1
    } else if compare_char(a[0], b[0]) != 0 {
        compare_char(a[0], b[0])
    } else {
        compare_chars(a.drop_first(), b.drop_first())
    }
}

pub proof fn lemma_compare_char(a: char, b: char, c: char)
    ensures
        is_sign(compare_char(a, b)),
        compare_char(a, b) == -compare_char(b, a),
        compare_char(a, b) == 0 <==> a == b,
        compare_char(a, b) <= 0 && compare_char(b, c) <= 0 ==> compare_char(a, c) <= 0,
{
    assert((a as u32) == (b as u32) ==> a == b);
    assert((b as u32) == (c as u32) ==> b == c);
    assert((a as u32) == (c as u32) ==> a == c);
}

/// Lexicographic comparison of character sequences is an order.
pub proof fn lemma_compare_chars(a: Seq<char>, b: Seq<char>, c: Seq<char>)
    ensures
        is_sign(compare_chars(a, b)),
        compare_chars(a, b) == -compare_chars(b, a),
        compare_chars(a, b) == 0 <==> a == b,
        compare_chars(a, b) <= 0 && compare_chars(b, c) <= 0 ==> compare_chars(a, c) <= 0,
    decreases a.len(),
{
    if a.len() > 0 && b.len() > 0 {
        lemma_compare_char(a[0], b[0], if c.len() > 0 { c[0] } else { a[0] });
        lemma_compare_char(b[0], a[0], a[0]);
        if c.len() > 0 {
            lemma_compare_char(a[0], c[0], b[0]);
            lemma_compare_char(b[0], c[0], a[0]);
            lemma_compare_char(c[0], b[0], a[0]);
            lemma_compare_char(c[0], a[0], b[0]);
            lemma_compare_char(b[0], a[0], c[0]);
            lemma_compare_char(a[0], b[0], c[0]);
        }
        lemma_compare_chars(a.drop_first(), b.drop_first(), if c.len() > 0 {
            c.drop_first()
        } else {
            c
        });
        if compare_char(a[0], b[0]) == 0 && compare_chars(a.drop_first(), b.drop_first()) == 0 {
            assert(a =~= seq![a[0]] + a.drop_first());
            assert(b =~= seq![b[0]] + b.drop_first());
        }
        if a == b {
            assert(a.drop_first() == b.drop_first());
        }
    } else if a.len() == 0 && b.len() == 0 {
        assert(a =~= b);
    }
}

/// Comparison of path components: `..` first, the rest as strings.
pub open spec fn compare_part(a: Seq<char>, b: Seq<char>) -> int {
    let dots = seq!['.', '.'];
    if a == dots && b == dots {
        0
    } else if a == dots {
        -1
    } else if b == dots {
        1
    } else {
        compare_chars(a, b)
    }
}

pub proof fn lemma_compare_part(a: Seq<char>, b: Seq<char>, c: Seq<char>)
    ensures
        is_sign(compare_part(a, b)),
        compare_part(a, b) == -compare_part(b, a),
        compare_part(a, b) == 0 <==> a == b,
        compare_part(a, b) <= 0 && compare_part(b, c) <= 0 ==> compare_part(a, c) <= 0,
{
    lemma_compare_chars(a, b, c);
    lemma_compare_chars(b, a, c);
    lemma_compare_chars(a, c, b);
}

/// Lexicographic comparison of component lists.
pub open spec fn compare_parts(a: Seq<Seq<char>>, b: Seq<Seq<char>>) -> int
    decreases a.len(),
{
    if a.len() == 0 {
        if b.len() == 0 {
            0
        } else {
            -1
        }
    } else if b.len() == 0 {
        1
    } else if compare_part(a[0], b[0]) != 0 {
        compare_part(a[0], b[0])
    } else {
        compare_parts(a.drop_first(), b.drop_first())
    }
}

pub proof fn lemma_compare_parts(a: Seq<Seq<char>>, b: Seq<Seq<char>>, c: Seq<Seq<char>>)
    ensures
        is_sign(compare_parts(a, b)),
        compare_parts(a, b) == -compare_parts(b, a),
        compare_parts(a, b) == 0 <==> a == b,
        compare_parts(a, b) <= 0 && compare_parts(b, c) <= 0 ==> compare_parts(a, c) <= 0,
    decreases a.len(),
{
    if a.len() > 0 && b.len() > 0 {
        let c0 = if c.len() > 0 {
            c[0]
        } else {
            a[0]
        };
        lemma_compare_part(a[0], b[0], c0);
        lemma_compare_part(b[0], a[0], c0);
        lemma_compare_part(a[0], c0, b[0]);
        lemma_compare_part(b[0], c0, a[0]);
        lemma_compare_part(c0, b[0], a[0]);
        lemma_compare_part(c0, a[0], b[0]);
        lemma_compare_part(b[0], a[0], c0);
        lemma_compare_parts(a.drop_first(), b.drop_first(), if c.len() > 0 {
            c.drop_first()
        } else {
            c
        });
        if compare_part(a[0], b[0]) == 0 && compare_parts(a.drop_first(), b.drop_first()) == 0 {
            assert(a =~= seq![a[0]] + a.drop_first());
            assert(b =~= seq![b[0]] + b.drop_first());
        }
        if a == b {
            assert(a.drop_first() == b.drop_first());
        }
    } else if a.len() == 0 && b.len() == 0 {
        assert(a =~= b);
    }
}

/// The order of `Path`: a rooted path before a relative one, then component by component.
pub open spec fn compare_paths(a: Seq<char>, b: Seq<char>) -> int {
    if path_has_root(a) && !path_has_root(b) {
        -1
    } else if !path_has_root(a) && path_has_root(b) {
        1
    } else {
        compare_parts(path_parts(a), path_parts(b))
    }
}

pub proof fn lemma_compare_paths(a: Seq<char>, b: Seq<char>, c: Seq<char>)
    ensures
        is_sign(compare_paths(a, b)),
        compare_paths(a, b) == -compare_paths(b, a),
        compare_paths(a, b) == 0 <==> crate::path::same_path(a, b),
        compare_paths(a, b) <= 0 && compare_paths(b, c) <= 0 ==> compare_paths(a, c) <= 0,
{
    lemma_compare_parts(path_parts(a), path_parts(b), path_parts(c));
    lemma_compare_parts(path_parts(b), path_parts(a), path_parts(c));
    lemma_compare_parts(path_parts(a), path_parts(c), path_parts(b));
}

/// A three-way comparison of component lists.
pub fn compare_parts_exec(a: &Vec<Vec<char>>, b: &Vec<Vec<char>>) -> (r: i8)
    ensures
        r as int == compare_parts(views(a@), views(b@)),
{
    assert(views(a@).skip(0) =~= views(a@));
    assert(views(b@).skip(0) =~= views(b@));
    let mut i: usize = 0;
    while i < a.len() && i < b.len()
        invariant
            i <= a@.len(),
            i <= b@.len(),
            compare_parts(views(a@), views(b@)) == compare_parts(
                views(a@).skip(i as int),
                views(b@).skip(i as int),
            ),
        decreases a@.len() - i,
    {
        let c = compare_part_exec(&a[i], &b[i]);
        assert(views(a@).skip(i as int)[0] == a@[i as int]@);
        assert(views(b@).skip(i as int)[0] == b@[i as int]@);
        if c != 0 {
            return c;
        }
        assert(views(a@).skip(i as int).drop_first() =~= views(a@).skip(i + 1));
        assert(views(b@).skip(i as int).drop_first() =~= views(b@).skip(i + 1));
        i = i + 1;
    }
    if i < a.len() {
        1
    } else if i < b.len() {
        -1
    } else {
        0
    }
}

/// A three-way comparison of character sequences.
pub fn compare_chars_exec(a: &[char], b: &[char]) -> (r: i8)
    ensures
        r as int == compare_chars(a@, b@),
{
    assert(a@.skip(0) =~= a@);
    assert(b@.skip(0) =~= b@);
    let mut i: usize = 0;
    while i < a.len() && i < b.len()
        invariant
            i <= a@.len(),
            i <= b@.len(),
            compare_chars(a@, b@) == compare_chars(a@.skip(i as int), b@.skip(i as int)),
        decreases a@.len() - i,
    {
        let x = a[i];
        let y = b[i];
        assert(a@.skip(i as int)[0] == x);
        assert(b@.skip(i as int)[0] == y);
        if (x as u32) < (y as u32) {
            return -1;
        }
        if x != y {
            return 1;
        }
        assert(a@.skip(i as int).drop_first() =~= a@.skip(i + 1));
        assert(b@.skip(i as int).drop_first() =~= b@.skip(i + 1));
        i = i + 1;
    }
    if i < a.len() {
        1
    } else if i < b.len() {
        -1
    } else {
        0
    }
}

fn compare_part_exec(a: &Vec<char>, b: &Vec<char>) -> (r: i8)
    ensures
        r as int == compare_part(a@, b@),
{
    let a_dots = a.len() == 2 && a[0] == '.' && a[1] == '.';
    let b_dots = b.len() == 2 && b[0] == '.' && b[1] == '.';
    assert(a_dots == (a@ == seq!['.', '.'])) by {
        if a@.len() == 2 && a@[0] == '.' && a@[1] == '.' {
            assert(a@ =~= seq!['.', '.']);
        }
    }
    assert(b_dots == (b@ == seq!['.', '.'])) by {
        if b@.len() == 2 && b@[0] == '.' && b@[1] == '.' {
            assert(b@ =~= seq!['.', '.']);
        }
    }
    if a_dots && b_dots {
        0
    } else if a_dots {
        -1
    } else if b_dots {
        1
    } else {
        compare_chars_exec(a.as_slice(), b.as_slice())
    }
}

/// A three-way comparison of paths in the order of `Path`.
pub fn compare_paths_exec(a: &str, b: &str) -> (r: i8)
    ensures
        r as int == compare_paths(a@, b@),
{
    let ma = path_model(a);
    let mb = path_model(b);
    if ma.rooted && !mb.rooted {
        -1
    } else if !ma.rooted && mb.rooted {
        1
    } else {
        compare_parts_exec(&ma.parts, &mb.parts)
    }
}

/// A three-way comparison of strings.
pub fn compare_strings_exec(a: &str, b: &str) -> (r: i8)
    ensures
        r as int == compare_chars(a@, b@),
{
    let ca = chars_of(a);
    let cb = chars_of(b);
    compare_chars_exec(ca.as_slice(), cb.as_slice())
}

/// Values with a deterministic total preorder, given as a three-way comparison.
pub trait DeterministicOrder: Sized {
    /// The comparison: negative, zero or positive.
    spec fn order(self, other: Self) -> int;

    /// The comparison is antisymmetric and its `<= 0` relation transitive.
    proof fn lemma_order(a: Self, b: Self, c: Self)
        ensures
            is_sign(Self::order(a, b)),
            Self::order(a, b) == -Self::order(b, a),
            Self::order(a, b) <= 0 && Self::order(b, c) <= 0 ==> Self::order(a, c) <= 0,
    ;

    /// The comparison, computed.
    fn compare_with(&self, other: &Self) -> (r: i8)
        ensures
            r as int == Self::order(*self, *other),
    ;
}

/// Whether the sequence is in non-decreasing order.
pub open spec fn is_ordered<T: DeterministicOrder>(s: Seq<T>) -> bool {
    forall|i: int, j: int| 0 <= i < j < s.len() ==> T::order(#[trigger] s[i], #[trigger] s[j]) <= 0
}

proof fn lemma_insert_multiset<T>(s: Seq<T>, p: int, x: T)
    requires
        0 <= p <= s.len(),
    ensures
        s.insert(p, x).to_multiset() =~= s.to_multiset().insert(x),
{
    let t = s.insert(p, x);
    assert(t.remove(p) =~= s);
    assert(t[p] == x);
    assert(t.remove(p).to_multiset() =~= t.to_multiset().remove(x));
    assert(t.to_multiset().count(x) > 0) by {
        assert(t.contains(x));
    }
}

/// Where a stable insertion puts `x` into `out`: before the first element that
/// follows it, or at the end.
pub open spec fn insert_position<T: DeterministicOrder>(out: Seq<T>, x: T) -> int
    decreases out.len(),
{
    if out.len() == 0 {
        0
    } else if T::order(out[0], x) > 0 {
        0
    } else {
        1 + insert_position(out.drop_first(), x)
    }
}

/// The stable sort of `s`: each element, in turn, is inserted after every element
/// already placed that does not follow it, so elements that compare equal keep
/// the order they had.
pub open spec fn stable_sorted<T: DeterministicOrder>(s: Seq<T>) -> Seq<T>
    decreases s.len(),
{
    if s.len() == 0 {
        s
    } else {
        let out = stable_sorted(s.drop_last());
        out.insert(insert_position(out, s.last()), s.last())
    }
}

proof fn lemma_insert_position<T: DeterministicOrder>(out: Seq<T>, x: T, p: int)
    requires
        0 <= p <= out.len(),
        forall|j: int| 0 <= j < p ==> T::order(#[trigger] out[j], x) <= 0,
        p < out.len() ==> T::order(out[p], x) > 0,
    ensures
        insert_position(out, x) == p,
    decreases out.len(),
{
    if out.len() > 0 && p > 0 {
        assert(T::order(out[0], x) <= 0);
        assert forall|j: int| 0 <= j < p - 1 implies T::order(
            #[trigger] out.drop_first()[j],
            x,
        ) <= 0 by {
            assert(out.drop_first()[j] == out[j + 1]);
        }
        if p < out.len() {
            assert(out.drop_first()[p - 1] == out[p]);
        }
        lemma_insert_position(out.drop_first(), x, p - 1);
    }
}

/// Sorting a sequence that is already in order changes nothing; since a sort
/// leaves its result in order, sorting a second time changes nothing either.
pub proof fn sorting_an_ordered_sequence_changes_nothing<T: DeterministicOrder>(s: Seq<T>)
    requires
        is_ordered(s),
    ensures
        stable_sorted(s) == s,
    decreases s.len(),
{
    if s.len() > 0 {
        let prefix = s.drop_last();
        assert(is_ordered(prefix)) by {
            assert forall|i: int, j: int| 0 <= i < j < prefix.len() implies T::order(
                #[trigger] prefix[i],
                #[trigger] prefix[j],
            ) <= 0 by {
                assert(prefix[i] == s[i] && prefix[j] == s[j]);
            }
        }
        sorting_an_ordered_sequence_changes_nothing(prefix);
        assert forall|j: int| 0 <= j < prefix.len() implies T::order(
            #[trigger] prefix[j],
            s.last(),
        ) <= 0 by {
            assert(prefix[j] == s[j]);
            assert(s.last() == s[s.len() - 1]);
        }
        lemma_insert_position(prefix, s.last(), prefix.len() as int);
        assert(prefix.insert(prefix.len() as int, s.last()) =~= s);
    }
}

/// Sorts by the order: the result holds the same elements, in non-decreasing order.
/// Each element is inserted after every element already placed that does not
/// follow it, as a stable sort does.
pub fn sort_stable<T: DeterministicOrder>(v: Vec<T>) -> (r: Vec<T>)
    ensures
        r@ == stable_sorted(v@),
        r@.to_multiset() == v@.to_multiset(),
        is_ordered(r@),
{
    let ghost input = v@;
    let mut out: Vec<T> = Vec::new();
    for x in it: v
        invariant
            it.seq() == input,
            out@.to_multiset() == input.take(it.index() as int).to_multiset(),
            out@ == stable_sorted(input.take(it.index() as int)),
            is_ordered(out@),
    {
        let ghost before = out@;
        let mut p: usize = 0;
        while p < out.len() && out[p].compare_with(&x) <= 0
            invariant
                p <= out@.len(),
                out@ == before,
                forall|j: int| 0 <= j < p ==> T::order(#[trigger] out@[j], x) <= 0,
            decreases out@.len() - p,
        {
            p = p + 1;
        }
        proof {
            if p < out@.len() {
                assert(T::order(out@[p as int], x) > 0);
            }
            lemma_insert_position(before, x, p as int);
        }
        out.insert(p, x);
        proof {
            lemma_insert_multiset(before, p as int, x);
            assert(input.take(it.index() + 1) =~= input.take(it.index() as int).push(x));
            assert(input.take(it.index() + 1).drop_last() =~= input.take(it.index() as int));
            assert forall|i: int, j: int| 0 <= i < j < out@.len() implies T::order(
                #[trigger] out@[i],
                #[trigger] out@[j],
            ) <= 0 by {
                if i < p && j == p {
                } else if i == p && j > p {
                    if p < before.len() {
                        T::lemma_order(x, before[p as int], before[j - 1]);
                        T::lemma_order(before[p as int], x, before[j - 1]);
                        if j - 1 > p {
                            assert(T::order(before[p as int], before[j - 1]) <= 0);
                        }
                    }
                } else if i < p && j > p {
                    assert(out@[i] == before[i]);
                    assert(out@[j] == before[j - 1]);
                } else if j < p {
                } else {
                    assert(out@[i] == before[i - 1]);
                    assert(out@[j] == before[j - 1]);
                }
            }
        }
        assert(out@.to_multiset() == input.take(it.index() + 1).to_multiset());
    }
    assert(input.take(input.len() as int) =~= input);
    out
}

/// Values that carry a path.
pub trait HasPath {
    spec fn path_view(&self) -> Seq<char>;

    fn path_str(&self) -> (r: &str)
        ensures
            r@ == self.path_view(),
    ;
}

/// Removes each element whose path is the same path as that of the element kept
/// just before it (`Vec::dedup_by` on path equality).
pub open spec fn dedup_by_path<T: HasPath>(s: Seq<T>) -> Seq<T>
    decreases s.len(),
{
    if s.len() == 0 {
        s
    } else {
        let prev = dedup_by_path(s.drop_last());
        if prev.len() > 0 && crate::path::same_path(prev.last().path_view(), s.last().path_view()) {
            prev
        } else {
            prev.push(s.last())
        }
    }
}

/// `Vec::dedup_by` on path equality.
pub fn dedup_paths<T: HasPath>(v: Vec<T>) -> (r: Vec<T>)
    ensures
        r@ == dedup_by_path(v@),
{
    let ghost input = v@;
    let mut out: Vec<T> = Vec::new();
    for x in it: v
        invariant
            it.seq() == input,
            out@ == dedup_by_path(input.take(it.index() as int)),
    {
        assert(input.take(it.index() + 1).drop_last() =~= input.take(it.index() as int));
        let keep = if out.len() == 0 {
            true
        } else {
            let last = out.len() - 1;
            !crate::path::paths_equal(out[last].path_str(), x.path_str())
        };
        if keep {
            out.push(x);
        }
    }
    assert(input.take(input.len() as int) =~= input);
    out
}

impl DeterministicOrder for String {
    /// Paths compared component by component.
    open spec fn order(self, other: Self) -> int {
        compare_paths(self@, other@)
    }

    proof fn lemma_order(a: Self, b: Self, c: Self) {
        lemma_compare_paths(a@, b@, c@);
    }

    fn compare_with(&self, other: &Self) -> (r: i8) {
        compare_paths_exec(self.as_str(), other.as_str())
    }
}

impl HasPath for String {
    open spec fn path_view(&self) -> Seq<char> {
        self@
    }

    fn path_str(&self) -> (r: &str) {
        self.as_str()
    }
}

/// Paths ordered component by component, each path kept once (`sort` then
/// `dedup` on `PathBuf`s).
pub fn sorted_unique_paths(v: Vec<String>) -> (r: Vec<String>)
    ensures
        exists|sorted: Seq<String>|
            sorted.to_multiset() == v@.to_multiset() && is_ordered(sorted) && r@ == dedup_by_path(
                sorted,
            ),
{
    let sorted = sort_stable(v);
    let ghost s = sorted@;
    let r = dedup_paths(sorted);
    assert(s.to_multiset() == v@.to_multiset() && is_ordered(s) && r@ == dedup_by_path(s));
    r
}

/// Whether an order puts paths first: `a` before `b` only if `a`'s path is not
/// after `b`'s.
pub open spec fn orders_by_path_first<T: DeterministicOrder + HasPath>() -> bool {
    forall|a: T, b: T|
        #[trigger] T::order(a, b) <= 0 ==> compare_paths(a.path_view(), b.path_view()) <= 0
}

/// The elements kept by deduplication are elements of the sequence.
pub proof fn lemma_dedup_elements<T: HasPath>(s: Seq<T>)
    ensures
        forall|i: int|
            0 <= i < dedup_by_path(s).len() ==> exists|m: int|
                0 <= m < s.len() && #[trigger] dedup_by_path(s)[i] == s[m],
    decreases s.len(),
{
    if s.len() > 0 {
        let p = s.drop_last();
        lemma_dedup_elements(p);
        let d = dedup_by_path(p);
        let r = dedup_by_path(s);
        assert forall|i: int| 0 <= i < r.len() implies exists|m: int|
            0 <= m < s.len() && #[trigger] r[i] == s[m] by {
            if i < d.len() {
                let m = choose|m: int| 0 <= m < p.len() && d[i] == p[m];
                assert(p[m] == s[m]);
                assert(r[i] == d[i]);
            } else {
                assert(r[i] == s[s.len() - 1]);
            }
        }
    }
}

proof fn lemma_ordered_prefix<T: DeterministicOrder>(s: Seq<T>)
    requires
        is_ordered(s),
        s.len() > 0,
    ensures
        is_ordered(s.drop_last()),
        forall|i: int| 0 <= i < s.len() - 1 ==> T::order(#[trigger] s.drop_last()[i], s.last()) <= 0,
{
    let p = s.drop_last();
    assert forall|i: int, j: int| 0 <= i < j < p.len() implies T::order(
        #[trigger] p[i],
        #[trigger] p[j],
    ) <= 0 by {
        assert(p[i] == s[i] && p[j] == s[j]);
    }
    assert forall|i: int| 0 <= i < s.len() - 1 implies T::order(#[trigger] p[i], s.last()) <= 0 by {
        assert(p[i] == s[i]);
    }
}

/// Every element kept after deduplication of an ordered sequence is not after
/// the last element.
proof fn lemma_dedup_before_last<T: DeterministicOrder + HasPath>(s: Seq<T>)
    requires
        is_ordered(s),
        s.len() > 0,
    ensures
        forall|i: int|
            0 <= i < dedup_by_path(s.drop_last()).len() ==> T::order(
                #[trigger] dedup_by_path(s.drop_last())[i],
                s.last(),
            ) <= 0,
{
    let p = s.drop_last();
    lemma_ordered_prefix(s);
    lemma_dedup_elements(p);
    let d = dedup_by_path(p);
    assert forall|i: int| 0 <= i < d.len() implies T::order(#[trigger] d[i], s.last()) <= 0 by {
        let m = choose|m: int| 0 <= m < p.len() && d[i] == p[m];
    }
}

/// Deduplicating an ordered sequence keeps it ordered.
pub proof fn lemma_dedup_keeps_order<T: DeterministicOrder + HasPath>(s: Seq<T>)
    requires
        is_ordered(s),
    ensures
        is_ordered(dedup_by_path(s)),
    decreases s.len(),
{
    if s.len() > 0 {
        let p = s.drop_last();
        lemma_ordered_prefix(s);
        lemma_dedup_keeps_order(p);
        lemma_dedup_before_last(s);
        let d = dedup_by_path(p);
        let r = dedup_by_path(s);
        assert forall|i: int, j: int| 0 <= i < j < r.len() implies T::order(
            #[trigger] r[i],
            #[trigger] r[j],
        ) <= 0 by {
            if j < d.len() {
                assert(r[i] == d[i] && r[j] == d[j]);
            } else {
                assert(r[i] == d[i] && r[j] == s.last());
            }
        }
    }
}

/// Deduplicating a sequence ordered with paths first keeps each path once.
#[verifier::rlimit(40)]
pub proof fn lemma_dedup_unique_paths<T: DeterministicOrder + HasPath>(s: Seq<T>)
    requires
        is_ordered(s),
        orders_by_path_first::<T>(),
    ensures
        forall|i: int, j: int|
            0 <= i < j < dedup_by_path(s).len() ==> !crate::path::same_path(
                (#[trigger] dedup_by_path(s)[i]).path_view(),
                (#[trigger] dedup_by_path(s)[j]).path_view(),
            ),
    decreases s.len(),
{
    if s.len() > 0 {
        let p = s.drop_last();
        let x = s.last();
        lemma_ordered_prefix(s);
        lemma_dedup_unique_paths(p);
        lemma_dedup_keeps_order(p);
        lemma_dedup_before_last(s);
        let d = dedup_by_path(p);
        let r = dedup_by_path(s);
        if !(d.len() > 0 && crate::path::same_path(d.last().path_view(), x.path_view())) {
            assert forall|i: int, j: int| 0 <= i < j < r.len() implies !crate::path::same_path(
                (#[trigger] r[i]).path_view(),
                (#[trigger] r[j]).path_view(),
            ) by {
                if j < d.len() {
                    assert(r[i] == d[i] && r[j] == d[j]);
                } else {
                    assert(r[i] == d[i] && r[j] == x);
                    let dl = d.len() - 1;
                    if i < dl && crate::path::same_path(d[i].path_view(), x.path_view()) {
                        let a = d[i].path_view();
                        let b = d[dl].path_view();
                        let c = x.path_view();
                        assert(T::order(d[i], d[dl]) <= 0);
                        assert(T::order(d[dl], x) <= 0);
                        assert(compare_paths(a, b) <= 0);
                        assert(compare_paths(b, c) <= 0);
                        lemma_compare_paths(a, c, b);
                        lemma_compare_paths(b, c, a);
                        assert(false);
                    }
                }
            }
        }
    }
}

/// Deduplicating an ordered sequence keeps, for every element, an element of the
/// same path that is not after it.
pub proof fn lemma_dedup_keeps_first_of_each_path<T: DeterministicOrder + HasPath>(s: Seq<T>)
    requires
        is_ordered(s),
    ensures
        forall|k: int|
            0 <= k < s.len() ==> exists|i: int|
                0 <= i < dedup_by_path(s).len() && crate::path::same_path(
                    dedup_by_path(s)[i].path_view(),
                    (#[trigger] s[k]).path_view(),
                ) && T::order(dedup_by_path(s)[i], s[k]) <= 0,
    decreases s.len(),
{
    if s.len() > 0 {
        let p = s.drop_last();
        let x = s.last();
        lemma_ordered_prefix(s);
        lemma_dedup_keeps_first_of_each_path(p);
        lemma_dedup_before_last(s);
        T::lemma_order(x, x, x);
        let d = dedup_by_path(p);
        let r = dedup_by_path(s);
        assert forall|k: int| 0 <= k < s.len() implies exists|i: int|
            0 <= i < r.len() && crate::path::same_path(r[i].path_view(), (#[trigger] s[k]).path_view())
                && T::order(r[i], s[k]) <= 0 by {
            if k < p.len() {
                assert(s[k] == p[k]);
                let i = choose|i: int|
                    0 <= i < d.len() && crate::path::same_path(d[i].path_view(), p[k].path_view())
                        && T::order(d[i], p[k]) <= 0;
                assert(r[i] == d[i]);
            } else if d.len() > 0 && crate::path::same_path(d.last().path_view(), x.path_view()) {
                assert(r[d.len() - 1] == d[d.len() - 1]);
                assert(T::order(d[d.len() - 1], x) <= 0);
            } else {
                assert(r[d.len() as int] == x);
            }
        }
    }
}

} // verus!
