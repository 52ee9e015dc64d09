//! What the signing diagnostics and the property list of an application bundle
//! say about it.
use vstd::prelude::*;

use crate::planner::opt_string_view;
use crate::text::{chars_of, chars_starts_with, chars_eq, chars_slice, string_of, trim_chars, trim_ws};

verus! {

/// Drops one carriage return at the end of a line.
pub open spec fn strip_cr(line: Seq<char>) -> Seq<char> {
    if line.len() > 0 && line.last() == '\r' {
        line.drop_last()
    } else {
        line
    }
}

/// The lines finished so far, and the line being read, after reading `s`.
pub open spec fn line_state(s: Seq<char>) -> (Seq<Seq<char>>, Seq<char>)
    decreases s.len(),
{
    if s.len() == 0 {
        (Seq::empty(), Seq::empty())
    } else {
        let prev = line_state(s.drop_last());
        if s.last() == '\n' {
            (prev.0.push(strip_cr(prev.1)), Seq::empty())
        } else {
            (prev.0, prev.1.push(s.last()))
        }
    }
}

/// The lines of a text (`str::lines`): split at each line feed, a carriage return
/// before it dropped; a last line without a line feed counts when it is not empty.
pub open spec fn text_lines(s: Seq<char>) -> Seq<Seq<char>> {
    let st = line_state(s);
    if st.1.len() > 0 {
        st.0.push(st.1)
    } else {
        st.0
    }
}

/// `TeamIdentifier=`
pub open spec fn team_key() -> Seq<char> {
    seq!['T', 'e', 'a', 'm', 'I', 'd', 'e', 'n', 't', 'i', 'f', 'i', 'e', 'r', '=']
}

/// `not set`
pub open spec fn not_set() -> Seq<char> {
    seq!['n', 'o', 't', ' ', 's', 'e', 't']
}

/// The team identifier that one line of signing diagnostics names, if any.
pub open spec fn team_identifier_in_line(line: Seq<char>) -> Option<Seq<char>> {
    if team_key().is_prefix_of(line) {
        let value = trim_ws(line.skip(team_key().len() as int));
        if value.len() > 0 && value != not_set() {
            Some(value)
        } else {
            None
        }
    } else {
        None
    }
}

/// The team identifier named by the first line that names one.
pub open spec fn first_team_identifier(lines: Seq<Seq<char>>) -> Option<Seq<char>>
    decreases lines.len(),
{
    if lines.len() == 0 {
        None
    } else {
        match team_identifier_in_line(lines[0]) {
            Some(v) => Some(v),
            None => first_team_identifier(lines.drop_first()),
        }
    }
}

/// The views of a list of character vectors.
pub open spec fn line_views(v: Seq<Vec<char>>) -> Seq<Seq<char>> {
    v.map_values(|l: Vec<char>| l@)
}

fn split_lines(s: &str) -> (r: Vec<Vec<char>>)
    ensures
        line_views(r@) == text_lines(s@),
{
    let cs = chars_of(s);
    let mut done: Vec<Vec<char>> = Vec::new();
    let mut cur: Vec<char> = Vec::new();
    let mut i: usize = 0;
    while i < cs.len()
        invariant
            i <= cs@.len(),
            cs@ == s@,
            (line_views(done@), cur@) == line_state(cs@.take(i as int)),
        decreases cs@.len() - i,
    {
        let c = cs[i];
        assert(cs@.take(i + 1).drop_last() =~= cs@.take(i as int));
        assert(cs@.take(i + 1).last() == c);
        let ghost before = line_views(done@);
        let ghost cur_before = cur@;
        if c == '\n' {
            let mut line = Vec::new();
            std::mem::swap(&mut line, &mut cur);
            if line.len() > 0 && line[line.len() - 1] == '\r' {
                line.pop();
            }
            assert(line@ == strip_cr(cur_before));
            done.push(line);
            assert(line_views(done@) =~= before.push(strip_cr(cur_before)));
            assert(cur@ =~= Seq::<char>::empty());
        } else {
            cur.push(c);
        }
        i = i + 1;
    }
    assert(cs@.take(cs@.len() as int) =~= cs@);
    if cur.len() > 0 {
        let ghost before = line_views(done@);
        let ghost last = cur@;
        done.push(cur);
        assert(line_views(done@) =~= before.push(last));
    }
    done
}

/// The team identifier in `codesign` diagnostics: the trimmed value of the first
/// `TeamIdentifier=` line whose value is neither empty nor `not set`.
pub fn parse_team_identifier(diagnostics: &str) -> (r: Option<String>)
    ensures
        opt_string_view(r) == first_team_identifier(text_lines(diagnostics@)),
{
    let lines = split_lines(diagnostics);
    let ghost views = line_views(lines@);
    let key = chars_of("TeamIdentifier=");
    let unset = chars_of("not set");
    proof {
        reveal_strlit("TeamIdentifier=");
        reveal_strlit("not set");
        assert(key@ =~= team_key());
        assert(unset@ =~= not_set());
    }
    let mut i: usize = 0;
    assert(views.skip(0) =~= views);
    while i < lines.len()
        invariant
            i <= lines@.len(),
            views == line_views(lines@),
            views == text_lines(diagnostics@),
            key@ == team_key(),
            unset@ == not_set(),
            first_team_identifier(views) == first_team_identifier(views.skip(i as int)),
        decreases lines@.len() - i,
    {
        let line = &lines[i];
        assert(views.skip(i as int)[0] == line@);
        assert(views.skip(i as int).drop_first() =~= views.skip(i + 1));
        if chars_starts_with(line.as_slice(), key.as_slice()) {
            let rest = chars_slice(line.as_slice(), key.len(), line.len());
            assert(rest@ =~= line@.skip(team_key().len() as int));
            let value = trim_chars(rest.as_slice());
            if value.len() > 0 && !chars_eq(value.as_slice(), unset.as_slice()) {
                assert(team_identifier_in_line(line@) == Some(value@));
                assert(first_team_identifier(views.skip(i as int)) == Some(value@));
                let out = string_of(value.as_slice());
                return Some(out);
            }
        }
        i = i + 1;
    }
    assert(views.skip(i as int) =~= Seq::<Seq<char>>::empty());
    None
}

/// What a byte string says when read as UTF-8 (`String::from_utf8`), if it is UTF-8.
pub uninterp spec fn utf8_decoded(bytes: Seq<u8>) -> Option<Seq<char>>;

/// `String::from_utf8`.
#[verifier::external_body]
fn decode_utf8(bytes: &[u8]) -> (r: Option<String>)
    ensures
        opt_string_view(r) == utf8_decoded(bytes@),
{
    String::from_utf8(bytes.to_vec()).ok()
}

/// A tool's output as text: the UTF-8 text trimmed of white space, unless it is
/// not UTF-8 or nothing is left.
pub fn non_empty_utf8(bytes: &[u8]) -> (r: Option<String>)
    ensures
        opt_string_view(r) == match utf8_decoded(bytes@) {
            Some(t) => if trim_ws(t).len() > 0 {
                Some(trim_ws(t))
            } else {
                None
            },
            None => None,
        },
{
    match decode_utf8(bytes) {
        None => None,
        Some(text) => {
            let cs = chars_of(text.as_str());
            let trimmed = trim_chars(cs.as_slice());
            if trimmed.len() > 0 {
                Some(string_of(trimmed.as_slice()))
            } else {
                None
            }
        },
    }
}

} // verus!
