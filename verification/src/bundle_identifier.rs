//! Bundle identifiers that may safely become path components.
use vstd::prelude::*;

use crate::text::{chars_eq, chars_of, chars_starts_with};

verus! {

/// A character allowed inside a bundle identifier component.
pub open spec fn is_bundle_char(c: char) -> bool {
    ('a' <= c && c <= 'z') || ('A' <= c && c <= 'Z') || ('0' <= c && c <= '9') || c == '-' || c
        == '_'
}

/// A non-empty run of ASCII letters, digits, `-` and `_` components joined by single dots.
pub open spec fn spec_is_safe_bundle_identifier(s: Seq<char>) -> bool {
    &&& s.len() > 0
    &&& s[0] != '.'
    &&& s.last() != '.'
    &&& forall|i: int| 0 <= i < s.len() ==> is_bundle_char(#[trigger] s[i]) || s[i] == '.'
    &&& forall|i: int| 0 <= i < s.len() - 1 ==> !(#[trigger] s[i] == '.' && s[i + 1] == '.')
}

/// Apple's own namespace: `com.apple` and everything below `com.apple.`.
pub open spec fn spec_is_apple_bundle_identifier(s: Seq<char>) -> bool {
    s == "com.apple"@ || "com.apple."@.is_prefix_of(s)
}

fn is_bundle_char_exec(c: char) -> (r: bool)
    ensures
        r == is_bundle_char(c),
{
    ('a' <= c && c <= 'z') || ('A' <= c && c <= 'Z') || ('0' <= c && c <= '9') || c == '-' || c
        == '_'
}

/// Whether the identifier can be joined onto a directory without escaping it:
/// non-empty, no leading, trailing or doubled dot, and every other character an
/// ASCII letter, digit, `-` or `_`.
pub fn is_safe_bundle_identifier(identifier: &str) -> (r: bool)
    ensures
        r == spec_is_safe_bundle_identifier(identifier@),
{
    let s = chars_of(identifier);
    let n = s.len();
    if n == 0 || s[0] == '.' || s[n - 1] == '.' {
        return false;
    }
    let mut i: usize = 0;
    while i < n
        invariant
            n == s@.len(),
            s@ == identifier@,
            i <= n,
            forall|j: int| 0 <= j < i ==> is_bundle_char(#[trigger] s@[j]) || s@[j] == '.',
            forall|j: int| 0 <= j < i && j < n - 1 ==> !(#[trigger] s@[j] == '.' && s@[j + 1] == '.'),
        decreases n - i,
    {
        let c = s[i];
        if !(is_bundle_char_exec(c) || c == '.') {
            return false;
        }
        if c == '.' && i + 1 < n && s[i + 1] == '.' {
            assert(s@[i as int] == '.' && s@[i + 1] == '.');
            return false;
        }
        i = i + 1;
    }
    true
}

/// Whether the identifier is in Apple's namespace (`com.apple` or below `com.apple.`).
pub fn is_apple_bundle_identifier(identifier: &str) -> (r: bool)
    ensures
        r == spec_is_apple_bundle_identifier(identifier@),
{
    let s = chars_of(identifier);
    let exact = chars_of("com.apple");
    let prefix = chars_of("com.apple.");
    chars_eq(s.as_slice(), exact.as_slice()) || chars_starts_with(s.as_slice(), prefix.as_slice())
}

/// A safe bundle identifier has no `/`, and is neither `.` nor `..`.
pub proof fn safe_bundle_identifier_stays_in_directory(s: Seq<char>)
    requires
        spec_is_safe_bundle_identifier(s),
    ensures
        !s.contains('/'),
        s != seq!['.'],
        s != seq!['.', '.'],
{
    if s.contains('/') {
        let i = choose|i: int| 0 <= i < s.len() && s[i] == '/';
        assert(is_bundle_char(s[i]) || s[i] == '.');
    }
}

} // verus!
