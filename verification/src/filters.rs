use vstd::prelude::*;

use crate::cli::Cli;
use crate::size::{parse_size, result_view, size_fits, size_spec, try_parse_size};
use crate::text::strs;

verus! {

/// Whether some string of `v` has the characters `s`.
pub open spec fn has_str(v: Seq<String>, s: Seq<char>) -> bool {
    exists|i: int| 0 <= i < v.len() && #[trigger] v[i]@ == s
}

/// Whether `v` holds a string equal to `s`.
pub fn contains_string(v: &Vec<String>, s: &String) -> (r: bool)
    ensures
        r == has_str(v@, s@),
{
    let mut i: usize = 0;
    while i < v.len()
        invariant
            i <= v.len(),
            forall|k: int| 0 <= k < i ==> #[trigger] v@[k]@ != s@,
        decreases v.len() - i,
    {
        if v[i] == *s {
            assert(v@[i as int]@ == s@);
            return true;
        }
        i = i + 1;
    }
    false
}

/// Whether a directory (or file) name hides the entry below it: `.` and
/// `..` never do; a name starting with `.` does unless hidden entries are
/// wanted; a name listed under `--exclude-dir` does.
pub open spec fn dir_excluded(name: Seq<char>, cli: Cli) -> bool {
    if name == seq!['.'] || name == seq!['.', '.'] {
        false
    } else if !cli.hidden && name.len() > 0 && name[0] == '.' {
        true
    } else {
        has_str(cli.exclude_dirs@, name)
    }
}

/// Whether the directory named `name` is left out of the search.
pub fn is_dir_excluded(name: &str, cli: &Cli) -> (r: bool)
    ensures
        r == dir_excluded(name@, *cli),
{
    let n = name.unicode_len();
    if n == 1 && name.get_char(0) == '.' {
        assert(name@ =~= seq!['.']);
        return false;
    }
    if n == 2 && name.get_char(0) == '.' && name.get_char(1) == '.' {
        assert(name@ =~= seq!['.', '.']);
        return false;
    }
    if n == 1 {
        assert(name@ != seq!['.', '.']);
    }
    if n == 2 {
        assert(name@ != seq!['.']);
    }
    if !cli.hidden && n > 0 && name.get_char(0) == '.' {
        return true;
    }
    let owned = String::from_str(name);
    contains_string(&cli.exclude_dirs, &owned)
}

/// Whether some component of a path names an excluded directory.
pub open spec fn path_hidden(components: Seq<Seq<char>>, cli: Cli) -> bool {
    exists|i: int| 0 <= i < components.len() && dir_excluded(#[trigger] components[i], cli)
}

/// Whether some component of a path (given as the texts of its components,
/// in order) is a directory that the search leaves out (see
/// `is_dir_excluded`).
pub fn is_path_excluded(components: &Vec<String>, cli: &Cli) -> (r: bool)
    ensures
        r == path_hidden(strs(components@), *cli),
{
    let ghost parts = strs(components@);
    let mut i: usize = 0;
    while i < components.len()
        invariant
            i <= components@.len(),
            parts == strs(components@),
            forall|k: int| 0 <= k < i ==> !dir_excluded(#[trigger] parts[k], *cli),
        decreases components@.len() - i,
    {
        assert(parts[i as int] == components@[i as int]@);
        if is_dir_excluded(components[i].as_str(), cli) {
            return true;
        }
        i = i + 1;
    }
    false
}

/// Whether a size limit given on the command line lets a file of `len`
/// bytes through, for a limit of the kind `at_least` (minimum) or not
/// (maximum); a limit that does not parse lets every file through.
pub open spec fn size_limit_ok(limit: Option<String>, len: u64, at_least: bool) -> bool {
    match limit {
        Some(s) => match size_spec(s@) {
            Ok(b) => if at_least {
                len >= b
            } else {
                len <= b
            },
            Err(_) => true,
        },
        None => true,
    }
}

/// Whether a file with extension `ext` (if any) gets past `--extension`
/// (its extension is listed, when a list is given) and
/// `--exclude-extension` (its extension is not listed there).
pub open spec fn extensions_pass(ext: Option<Seq<char>>, cli: Cli) -> bool {
    &&& (cli.extensions@.len() > 0 ==> (ext matches Some(e) && has_str(cli.extensions@, e)))
    &&& (cli.exclude_extensions@.len() > 0 ==> !(ext matches Some(e) && has_str(
        cli.exclude_extensions@,
        e,
    )))
}

/// Whether every size limit that the filters read for this file fits in a
/// `u64`: the minimum is read once the extension filters pass, and the
/// maximum once the minimum lets the file through as well.
pub open spec fn read_limits_fit(ext: Option<Seq<char>>, len: u64, cli: Cli) -> bool {
    extensions_pass(ext, cli) ==> (size_limit_fits(cli.min_size) && (size_limit_ok(
        cli.min_size,
        len,
        true,
    ) ==> size_limit_fits(cli.max_size)))
}

/// Whether a size limit, if any, has a value that fits in a `u64`.
pub open spec fn size_limit_fits(limit: Option<String>) -> bool {
    match limit {
        Some(s) => size_fits(s@),
        None => true,
    }
}

/// Whether a file passes the filters of `cli` that do not read its
/// contents: the extension lists, the size limits and the age limits.
/// `ext` is the extension of the file's name, if it has one; `age` is the
/// time since the file was modified, in nanoseconds, where it is known.
pub open spec fn passes_filters(ext: Option<Seq<char>>, len: u64, age: Option<u128>, cli: Cli) -> bool {
    &&& extensions_pass(ext, cli)
    &&& size_limit_ok(cli.min_size, len, true)
    &&& size_limit_ok(cli.max_size, len, false)
    &&& match (cli.changed_within, age) {
        (Some(w), Some(a)) => a <= w,
        _ => true,
    }
    &&& match (cli.changed_before, age) {
        (Some(b), Some(a)) => a >= b,
        _ => true,
    }
}

fn size_limit_passes(limit: &Option<String>, len: u64, at_least: bool) -> (r: bool)
    requires
        size_limit_fits(*limit),
    ensures
        r == size_limit_ok(*limit, len, at_least),
{
    match limit {
        Some(s) => match parse_size(s.as_str()) {
            Ok(b) => {
                proof {
                    assert(result_view(Ok(b)) == size_spec(s@));
                }
                if at_least {
                    len >= b
                } else {
                    len <= b
                }
            },
            Err(_) => true,
        },
        None => true,
    }
}

/// The characters of an optional string.
pub open spec fn opt_view(s: Option<String>) -> Option<Seq<char>> {
    match s {
        Some(t) => Some(t@),
        None => None,
    }
}

/// Whether a file whose name has the extension `ext` (if any), of `len`
/// bytes and modified `age` nanoseconds ago (where known), passes the
/// extension, size and age filters of `cli`.
pub fn file_passes_filters(ext: &Option<String>, len: u64, age: Option<u128>, cli: &Cli) -> (r: bool)
    requires
        read_limits_fit(opt_view(*ext), len, *cli),
    ensures
        r == passes_filters(opt_view(*ext), len, age, *cli),
{
    let ext_listed = match ext {
        Some(e) => contains_string(&cli.extensions, e),
        None => false,
    };
    let ext_excluded = match ext {
        Some(e) => contains_string(&cli.exclude_extensions, e),
        None => false,
    };
    if cli.extensions.len() > 0 && !ext_listed {
        return false;
    }
    if cli.exclude_extensions.len() > 0 && ext_excluded {
        return false;
    }
    if !size_limit_passes(&cli.min_size, len, true) {
        return false;
    }
    if !size_limit_passes(&cli.max_size, len, false) {
        return false;
    }
    if let Some(w) = cli.changed_within {
        if let Some(a) = age {
            if a > w {
                return false;
            }
        }
    }
    if let Some(b) = cli.changed_before {
        if let Some(a) = age {
            if a < b {
                return false;
            }
        }
    }
    true
}

/// Whether a size limit, if any, has a value that fits in a `u64`.
pub fn limit_fits(limit: &Option<String>) -> (r: bool)
    ensures
        r == size_limit_fits(*limit),
{
    match limit {
        Some(s) => try_parse_size(s.as_str()).is_some(),
        None => true,
    }
}

/// `file_passes_filters`, except where a size limit that the filters read
/// for this file overflows a `u64` (see `read_limits_fit`): then `None`.
pub fn checked_file_passes_filters(ext: &Option<String>, len: u64, age: Option<u128>, cli: &Cli) -> (r: Option<bool>)
    ensures
        r is Some <==> read_limits_fit(opt_view(*ext), len, *cli),
        r matches Some(b) ==> b == passes_filters(opt_view(*ext), len, age, *cli),
{
    let ext_listed = match ext {
        Some(e) => contains_string(&cli.extensions, e),
        None => false,
    };
    let ext_excluded = match ext {
        Some(e) => contains_string(&cli.exclude_extensions, e),
        None => false,
    };
    if (cli.extensions.len() > 0 && !ext_listed) || (cli.exclude_extensions.len() > 0 && ext_excluded) {
        return Some(false);
    }
    if !limit_fits(&cli.min_size) {
        return None;
    }
    if !size_limit_passes(&cli.min_size, len, true) {
        return Some(false);
    }
    if !limit_fits(&cli.max_size) {
        return None;
    }
    Some(file_passes_filters(ext, len, age, cli))
}

/// The path to show for a file: its canonical absolute form when
/// `--absolute-path` is given and that form is known, else `path` itself.
pub fn format_path(path: &str, canonical: Option<String>, cli: &Cli) -> (r: String)
    ensures
        r@ == (if cli.absolute_path && canonical is Some {
            canonical->0@
        } else {
            path@
        }),
{
    if cli.absolute_path {
        if let Some(abs) = canonical {
            return abs;
        }
    }
    String::from_str(path)
}


/// Hidden entries: without `--hidden`, every name starting with `.` other
/// than `.` and `..` is left out; `.` and `..` never are.
pub proof fn law_hidden_names_excluded(name: Seq<char>, cli: Cli)
    ensures
        !cli.hidden && name.len() > 0 && name[0] == '.' && name != seq!['.'] && name != seq!['.', '.']
            ==> dir_excluded(name, cli),
        name == seq!['.'] || name == seq!['.', '.'] ==> !dir_excluded(name, cli),
{
}

/// A path is left out exactly when one of its components, whichever it is
/// (the file's own name, the last one, included), is an excluded name; in
/// particular, without `--hidden` a path whose own name starts with `.`
/// (and is not `.` or `..`) is left out.
pub proof fn law_every_component_counts(components: Seq<Seq<char>>, cli: Cli)
    ensures
        forall|i: int| 0 <= i < components.len() && #[trigger] dir_excluded(components[i], cli) ==> path_hidden(components, cli),
        (forall|i: int| 0 <= i < components.len() ==> !#[trigger] dir_excluded(components[i], cli)) ==> !path_hidden(components, cli),
        ({
            let name = components.last();
            components.len() > 0 && !cli.hidden && name.len() > 0 && name[0] == '.' && name != seq!['.']
                && name != seq!['.', '.']
        }) ==> path_hidden(components, cli),
{
    if components.len() > 0 {
        let last = components.len() - 1;
        assert(dir_excluded(components[last], cli) ==> path_hidden(components, cli));
    }
}

} // verus!
