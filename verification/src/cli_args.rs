//! The command-line arguments of the cleaner and of its LaunchAgent helper.
use vstd::prelude::*;

use crate::model::CleanupCategory;
use crate::path::{join_path, path_join, string_views};
use crate::text::{chars_of, concat_str, str_eq};

verus! {

/// The index of the first argument equal to `name`, or the number of arguments.
pub open spec fn first_position(args: Seq<Seq<char>>, name: Seq<char>) -> int
    decreases args.len(),
{
    if args.len() == 0 {
        0
    } else if args[0] == name {
        0
    } else {
        1 + first_position(args.drop_first(), name)
    }
}

proof fn lemma_first_position(args: Seq<Seq<char>>, name: Seq<char>, k: int)
    requires
        0 <= k <= args.len(),
        k < args.len() ==> args[k] == name,
        forall|j: int| 0 <= j < k ==> args[j] != name,
    ensures
        first_position(args, name) == k,
    decreases args.len(),
{
    if args.len() > 0 && k > 0 {
        assert forall|j: int| 0 <= j < k - 1 implies args.drop_first()[j] != name by {
            assert(args.drop_first()[j] == args[j + 1]);
        }
        lemma_first_position(args.drop_first(), name, k - 1);
    }
}

/// The index of the first argument equal to `name`, if any.
pub fn position(args: &Vec<String>, name: &str) -> (r: Option<usize>)
    ensures
        match r {
            Some(i) => i < args@.len() && i == first_position(string_views(args@), name@),
            None => first_position(string_views(args@), name@) == args@.len(),
        },
{
    let ghost views = string_views(args@);
    let mut i: usize = 0;
    while i < args.len()
        invariant
            i <= args@.len(),
            views == string_views(args@),
            forall|j: int| 0 <= j < i ==> views[j] != name@,
        decreases args@.len() - i,
    {
        if str_eq(args[i].as_str(), name) {
            proof {
                lemma_first_position(views, name@, i as int);
            }
            return Some(i);
        }
        i = i + 1;
    }
    proof {
        lemma_first_position(views, name@, args@.len() as int);
    }
    None
}

/// The category a command-line name stands for.
pub open spec fn category_named(value: Seq<char>) -> Option<CleanupCategory> {
    if value == "user"@ || value == "cache"@ {
        Some(CleanupCategory::UserCache)
    } else if value == "system"@ {
        Some(CleanupCategory::SystemCache)
    } else if value == "dev"@ || value == "xcode"@ {
        Some(CleanupCategory::Xcode)
    } else if value == "brew"@ || value == "homebrew"@ {
        Some(CleanupCategory::Homebrew)
    } else if value == "node"@ {
        Some(CleanupCategory::Node)
    } else if value == "docker"@ {
        Some(CleanupCategory::Docker)
    } else if value == "large"@ {
        Some(CleanupCategory::LargeFiles)
    } else {
        None
    }
}

/// The names that `--category` accepts, with the category each one chooses.
pub open spec fn category_name_table() -> Seq<(Seq<char>, CleanupCategory)> {
    seq![
        ("user"@, CleanupCategory::UserCache),
        ("cache"@, CleanupCategory::UserCache),
        ("system"@, CleanupCategory::SystemCache),
        ("dev"@, CleanupCategory::Xcode),
        ("xcode"@, CleanupCategory::Xcode),
        ("brew"@, CleanupCategory::Homebrew),
        ("homebrew"@, CleanupCategory::Homebrew),
        ("node"@, CleanupCategory::Node),
        ("docker"@, CleanupCategory::Docker),
        ("large"@, CleanupCategory::LargeFiles),
    ]
}

/// A name of the table chooses its category; any other name chooses none.
pub proof fn category_names_follow_the_table(value: Seq<char>)
    ensures
        forall|i: int|
            0 <= i < category_name_table().len() && value == (#[trigger] category_name_table()[i]).0
                ==> category_named(value) == Some(category_name_table()[i].1),
        (forall|i: int| 0 <= i < category_name_table().len() ==> value != (
        #[trigger] category_name_table()[i]).0) ==> category_named(value) is None,
{
    reveal_strlit("user");
    reveal_strlit("cache");
    reveal_strlit("system");
    reveal_strlit("dev");
    reveal_strlit("xcode");
    reveal_strlit("brew");
    reveal_strlit("homebrew");
    reveal_strlit("node");
    reveal_strlit("docker");
    reveal_strlit("large");
    let t = category_name_table();
    assert forall|i: int| 0 <= i < t.len() && value == (#[trigger] t[i]).0 implies category_named(value)
        == Some(t[i].1) by {
        let names = seq![
            "user"@,
            "cache"@,
            "system"@,
            "dev"@,
            "xcode"@,
            "brew"@,
            "homebrew"@,
            "node"@,
            "docker"@,
            "large"@,
        ];
        assert(t[i].0 == names[i]);
        assert(value.len() == names[i].len());
        assert(value[0] == names[i][0]);
        assert(names[0][0] == 'u' && names[1][0] == 'c' && names[2][0] == 's' && names[3][0] == 'd'
            && names[4][0] == 'x' && names[5][0] == 'b' && names[6][0] == 'h' && names[7][0] == 'n'
            && names[8][0] == 'd' && names[9][0] == 'l');
        assert(names[0].len() == 4 && names[1].len() == 5 && names[2].len() == 6 && names[3].len() == 3
            && names[4].len() == 5 && names[5].len() == 4 && names[6].len() == 8 && names[7].len() == 4
            && names[8].len() == 6 && names[9].len() == 5);
        if value == "user"@ { assert(value[0] == 'u'); }
        if value == "cache"@ { assert(value[0] == 'c'); }
        if value == "system"@ { assert(value[0] == 's'); }
        if value == "dev"@ { assert(value[0] == 'd' && value.len() == 3); }
        if value == "xcode"@ { assert(value[0] == 'x'); }
        if value == "brew"@ { assert(value[0] == 'b'); }
        if value == "homebrew"@ { assert(value[0] == 'h'); }
        if value == "node"@ { assert(value[0] == 'n'); }
        if value == "docker"@ { assert(value[0] == 'd' && value.len() == 6); }
    }
    if forall|i: int| 0 <= i < t.len() ==> value != (#[trigger] t[i]).0 {
        assert(value != t[0].0 && value != t[1].0 && value != t[2].0 && value != t[3].0 && value
            != t[4].0 && value != t[5].0 && value != t[6].0 && value != t[7].0 && value != t[8].0
            && value != t[9].0);
    }
}

/// The category chosen by `--category <name>`: user caches when the option is
/// absent; refused when it has no value or names no category.
pub open spec fn spec_parse_category(args: Seq<Seq<char>>) -> Result<CleanupCategory, Seq<char>> {
    let i = first_position(args, "--category"@);
    if i >= args.len() {
        Ok(CleanupCategory::UserCache)
    } else if i + 1 >= args.len() {
        Err("--category requires a value"@)
    } else {
        match category_named(args[i + 1]) {
            Some(c) => Ok(c),
            None => Err("unknown category: "@ + args[i + 1]),
        }
    }
}

/// `--category` chooses by the table: without the option, user caches; with the
/// option last, an error asking for a value; otherwise the category the table
/// gives the argument after the first `--category`, or an error naming an
/// argument the table does not hold.
pub proof fn parse_category_reads_the_value_after_the_option(args: Seq<Seq<char>>, i: int)
    requires
        0 <= i <= args.len(),
        i < args.len() ==> args[i] == "--category"@,
        forall|j: int| 0 <= j < i ==> args[j] != "--category"@,
    ensures
        i == args.len() ==> spec_parse_category(args) == Ok::<CleanupCategory, Seq<char>>(
            CleanupCategory::UserCache,
        ),
        i == args.len() - 1 ==> spec_parse_category(args) == Err::<CleanupCategory, Seq<char>>(
            "--category requires a value"@,
        ),
        i + 1 < args.len() ==> forall|t: int|
            0 <= t < category_name_table().len() && args[i + 1] == (
            #[trigger] category_name_table()[t]).0 ==> spec_parse_category(args) == Ok::<
                CleanupCategory,
                Seq<char>,
            >(category_name_table()[t].1),
        i + 1 < args.len() && (forall|t: int|
            0 <= t < category_name_table().len() ==> args[i + 1] != (
            #[trigger] category_name_table()[t]).0) ==> spec_parse_category(args) == Err::<
            CleanupCategory,
            Seq<char>,
        >("unknown category: "@ + args[i + 1]),
{
    lemma_first_position(args, "--category"@, i);
    if i + 1 < args.len() {
        category_names_follow_the_table(args[i + 1]);
    }
}

fn category_from_name(value: &str) -> (r: Option<CleanupCategory>)
    ensures
        r == category_named(value@),
{
    if str_eq(value, "user") || str_eq(value, "cache") {
        Some(CleanupCategory::UserCache)
    } else if str_eq(value, "system") {
        Some(CleanupCategory::SystemCache)
    } else if str_eq(value, "dev") || str_eq(value, "xcode") {
        Some(CleanupCategory::Xcode)
    } else if str_eq(value, "brew") || str_eq(value, "homebrew") {
        Some(CleanupCategory::Homebrew)
    } else if str_eq(value, "node") {
        Some(CleanupCategory::Node)
    } else if str_eq(value, "docker") {
        Some(CleanupCategory::Docker)
    } else if str_eq(value, "large") {
        Some(CleanupCategory::LargeFiles)
    } else {
        None
    }
}

/// Reads the category to scan from the arguments.
pub fn parse_category(args: &Vec<String>) -> (r: Result<CleanupCategory, String>)
    ensures
        match spec_parse_category(string_views(args@)) {
            Ok(c) => r == Ok::<CleanupCategory, String>(c),
            Err(m) => r is Err && r->Err_0@ == m,
        },
{
    let index = match position(args, "--category") {
        None => {
            return Ok(CleanupCategory::UserCache);
        },
        Some(i) => i,
    };
    let count = args.len();
    if index + 1 >= count {
        return Err("--category requires a value".to_owned());
    }
    let value = args[index + 1].as_str();
    match category_from_name(value) {
        Some(c) => Ok(c),
        None => Err(concat_str("unknown category: ", value)),
    }
}

/// The roots scanned by default for a category, under the user's home; refused
/// when the home is unknown or the category has no roots yet.
pub open spec fn spec_default_roots(category: CleanupCategory, home: Option<Seq<char>>) -> Result<
    Seq<Seq<char>>,
    Seq<char>,
> {
    match home {
        None => Err("HOME is not set"@),
        Some(h) => match category {
            CleanupCategory::UserCache => Ok(seq![path_join(h, "Library/Caches"@)]),
            CleanupCategory::Xcode => Ok(seq![path_join(h, "Library/Developer/Xcode/DerivedData"@)]),
            CleanupCategory::Homebrew => Ok(seq![path_join(h, "Library/Caches/Homebrew"@)]),
            CleanupCategory::Node => Ok(
                seq![path_join(h, ".npm"@), path_join(h, "Library/pnpm/store"@)],
            ),
            _ => Err("category '"@ + category.spec_label() + "' is not implemented in M0"@),
        },
    }
}

/// The default scan roots of `category` for the user whose home is `home`.
pub fn default_roots(category: CleanupCategory, home: Option<&str>) -> (r: Result<Vec<String>, String>)
    ensures
        match spec_default_roots(category, crate::safety::opt_view(home)) {
            Ok(roots) => r is Ok && string_views(r->Ok_0@) == roots,
            Err(m) => r is Err && r->Err_0@ == m,
        },
{
    let home = match home {
        None => {
            return Err("HOME is not set".to_owned());
        },
        Some(h) => h,
    };
    match category {
        CleanupCategory::UserCache => {
            let v = vec![join_path(home, "Library/Caches")];
            assert(string_views(v@) =~= seq![path_join(home@, "Library/Caches"@)]);
            Ok(v)
        },
        CleanupCategory::Xcode => {
            let v = vec![join_path(home, "Library/Developer/Xcode/DerivedData")];
            assert(string_views(v@) =~= seq![path_join(home@, "Library/Developer/Xcode/DerivedData"@)]);
            Ok(v)
        },
        CleanupCategory::Homebrew => {
            let v = vec![join_path(home, "Library/Caches/Homebrew")];
            assert(string_views(v@) =~= seq![path_join(home@, "Library/Caches/Homebrew"@)]);
            Ok(v)
        },
        CleanupCategory::Node => {
            let v = vec![join_path(home, ".npm"), join_path(home, "Library/pnpm/store")];
            assert(string_views(v@) =~= seq![
                path_join(home@, ".npm"@),
                path_join(home@, "Library/pnpm/store"@),
            ]);
            Ok(v)
        },
        _ => {
            let t = concat_str("category '", category.label());
            Err(concat_str(t.as_str(), "' is not implemented in M0"))
        },
    }
}

/// The value of a decimal digit.
pub open spec fn digit_value(c: char) -> int {
    (c as u32) - ('0' as u32)
}

/// Whether every character is a decimal digit.
pub open spec fn all_digits(s: Seq<char>) -> bool {
    forall|i: int| 0 <= i < s.len() ==> '0' <= #[trigger] s[i] && s[i] <= '9'
}

/// The number a run of decimal digits writes.
pub open spec fn digits_value(s: Seq<char>) -> int
    decreases s.len(),
{
    if s.len() == 0 {
        0
    } else {
        digits_value(s.drop_last()) * 10 + digit_value(s.last())
    }
}

/// What `u64::from_str` accepts: an optional `+`, then one or more decimal digits
/// writing a number that fits in 64 bits.
pub open spec fn spec_parse_u64(s: Seq<char>) -> Option<u64> {
    let body = if s.len() > 0 && s[0] == '+' {
        s.drop_first()
    } else {
        s
    };
    if body.len() > 0 && all_digits(body) && digits_value(body) <= u64::MAX {
        Some(digits_value(body) as u64)
    } else {
        None
    }
}

proof fn lemma_digits_value_nonneg(s: Seq<char>)
    requires
        all_digits(s),
    ensures
        digits_value(s) >= 0,
    decreases s.len(),
{
    if s.len() > 0 {
        assert(all_digits(s.drop_last())) by {
            assert forall|i: int| 0 <= i < s.drop_last().len() implies '0' <= #[trigger] s.drop_last()[i]
                && s.drop_last()[i] <= '9' by {
                assert(s.drop_last()[i] == s[i]);
            }
        }
        lemma_digits_value_nonneg(s.drop_last());
        assert('0' <= s[s.len() - 1]);
    }
}

/// Reads an unsigned 64-bit number written in decimal (`str::parse::<u64>`).
pub fn parse_u64(s: &str) -> (r: Option<u64>)
    ensures
        r == spec_parse_u64(s@),
{
    let cs = chars_of(s);
    let n = cs.len();
    let start: usize = if n > 0 && cs[0] == '+' {
        1
    } else {
        0
    };
    let ghost body = if s@.len() > 0 && s@[0] == '+' {
        s@.drop_first()
    } else {
        s@
    };
    assert(body =~= cs@.subrange(start as int, n as int));
    if start == n {
        return None;
    }
    let limit: u128 = 18446744073709551616;
    let mut acc: u128 = 0;
    let mut i: usize = start;
    while i < n
        invariant
            start <= i <= n,
            n == cs@.len(),
            body == cs@.subrange(start as int, n as int),
            cs@ == s@,
            body == (if s@.len() > 0 && s@[0] == '+' {
                s@.drop_first()
            } else {
                s@
            }),
            limit == u64::MAX + 1,
            all_digits(cs@.subrange(start as int, i as int)),
            digits_value(cs@.subrange(start as int, i as int)) >= 0,
            acc == if digits_value(cs@.subrange(start as int, i as int)) < limit {
                digits_value(cs@.subrange(start as int, i as int))
            } else {
                limit as int
            },
        decreases n - i,
    {
        let c = cs[i];
        let ghost prefix = cs@.subrange(start as int, i as int);
        let ghost next = cs@.subrange(start as int, i + 1);
        assert(next.drop_last() =~= prefix);
        assert(next.last() == c);
        if !('0' <= c && c <= '9') {
            assert(!all_digits(body)) by {
                assert(body[i - start] == c);
            }
            return None;
        }
        assert(all_digits(next)) by {
            assert forall|k: int| 0 <= k < next.len() implies '0' <= #[trigger] next[k] && next[k]
                <= '9' by {
                if k < prefix.len() {
                    assert(next[k] == prefix[k]);
                }
            }
        }
        let d: u128 = if c == '0' {
            0
        } else if c == '1' {
            1
        } else if c == '2' {
            2
        } else if c == '3' {
            3
        } else if c == '4' {
            4
        } else if c == '5' {
            5
        } else if c == '6' {
            6
        } else if c == '7' {
            7
        } else if c == '8' {
            8
        } else {
            9
        };
        assert(d == digit_value(c));
        if acc < limit {
            let v = acc * 10 + d;
            acc = if v < limit {
                v
            } else {
                limit
            };
        }
        i = i + 1;
    }
    assert(cs@.subrange(start as int, n as int) == body);
    if acc < limit {
        Some(acc as u64)
    } else {
        None
    }
}

/// The path following `name` in the arguments; refused when `name` is absent or
/// nothing follows it.
pub fn required_path_arg(args: &Vec<String>, name: &str) -> (r: Result<String, String>)
    ensures
        ({
            let views = string_views(args@);
            let i = first_position(views, name@);
            if i >= args@.len() {
                r is Err && r->Err_0@ == name@ + " is required"@
            } else if i + 1 >= args@.len() {
                r is Err && r->Err_0@ == name@ + " requires a path"@
            } else {
                r is Ok && r->Ok_0@ == views[i + 1]
            }
        }),
{
    let index = match position(args, name) {
        None => {
            return Err(concat_str(name, " is required"));
        },
        Some(i) => i,
    };
    let count = args.len();
    if index + 1 >= count {
        return Err(concat_str(name, " requires a path"));
    }
    Ok(args[index + 1].clone())
}

/// The schedule in seconds given by `--interval <seconds>`: one day when absent;
/// refused when it has no value or the value is not a number of seconds.
pub fn interval_arg(args: &Vec<String>) -> (r: Result<u64, String>)
    ensures
        ({
            let views = string_views(args@);
            let i = first_position(views, "--interval"@);
            if i >= args@.len() {
                r == Ok::<u64, String>(86400)
            } else if i + 1 >= args@.len() {
                r is Err && r->Err_0@ == "--interval requires seconds"@
            } else {
                match spec_parse_u64(views[i + 1]) {
                    Some(v) => r == Ok::<u64, String>(v),
                    None => r is Err && r->Err_0@
                        == "--interval must be an integer number of seconds"@,
                }
            }
        }),
{
    let index = match position(args, "--interval") {
        None => {
            return Ok(24 * 60 * 60);
        },
        Some(i) => i,
    };
    let count = args.len();
    if index + 1 >= count {
        return Err("--interval requires seconds".to_owned());
    }
    match parse_u64(args[index + 1].as_str()) {
        Some(v) => Ok(v),
        None => Err("--interval must be an integer number of seconds".to_owned()),
    }
}

} // verus!
