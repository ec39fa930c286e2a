use vstd::prelude::*;

use crate::cli::Cli;
use crate::text::{lemma_strs_push, strs};

verus! {

/// `regex::Regex`, a compiled regex, opaque here.
#[verifier::external_type_specification]
#[verifier::external_body]
pub struct ExRegex(regex::Regex);

/// Whether `regex::Regex::new` accepts a pattern (it is valid and within the
/// default size limit).
pub uninterp spec fn regex_accepts(pattern: Seq<char>) -> bool;

/// The message (`Display`) of the error `regex::Regex::new` gives for a
/// pattern it rejects.
pub uninterp spec fn regex_error_text(pattern: Seq<char>) -> Seq<char>;

/// The texts of the successive non-overlapping leftmost-first matches that
/// the regex compiled from `pattern` finds in `text`, as `Regex::find_iter`
/// yields them.
pub uninterp spec fn regex_find_all(pattern: Seq<char>, text: Seq<char>) -> Seq<Seq<char>>;

/// The parts of `text` between the matches that the regex compiled from
/// `pattern` finds, as `Regex::split` yields them (one more part than
/// there are matches).
pub uninterp spec fn regex_split(pattern: Seq<char>, text: Seq<char>) -> Seq<Seq<char>>;

/// The text made of the parts `p` with the matches `m` between them:
/// `p[0] m[0] p[1] … m[last] p[last]`.
pub open spec fn interleave(p: Seq<Seq<char>>, m: Seq<Seq<char>>) -> Seq<char>
    decreases m.len(),
{
    if m.len() == 0 {
        if p.len() > 0 {
            p[0]
        } else {
            seq![]
        }
    } else {
        interleave(p.drop_last(), m.drop_last()) + m.last() + p.last()
    }
}

/// Whether `char::is_uppercase` holds of a character (the Unicode
/// `Uppercase` property).
pub uninterp spec fn char_is_uppercase(c: char) -> bool;

/// A compiled regular expression together with the pattern text it was
/// compiled from.  Values are only made by `Matcher::compile`, which keeps
/// the two fields in step.
pub struct Matcher {
    pattern: String,
    regex: regex::Regex,
}

impl Matcher {
    /// The pattern text this matcher was compiled from.
    pub closed spec fn source(&self) -> Seq<char> {
        self.pattern@
    }

    /// Compiles `pattern` with `regex::Regex::new`, its error turned into
    /// its message.
    /// Claimed: it succeeds exactly when `regex_accepts(pattern)`, the
    /// matcher it gives has `pattern` as its source, and the message is
    /// `regex_error_text(pattern)`.
    #[verifier::external_body]
    fn compile(pattern: &String) -> (r: Result<Matcher, String>)
        ensures
            r is Ok <==> regex_accepts(pattern@),
            r matches Ok(m) ==> m.source() == pattern@,
            r matches Err(msg) ==> msg@ == regex_error_text(pattern@),
    {
        match regex::Regex::new(pattern) {
            Ok(regex) => Ok(Matcher { pattern: pattern.clone(), regex }),
            Err(e) => Err(e.to_string()),
        }
    }

    /// The texts of all matches in `text`, by `regex::Regex::find_iter`.
    /// Claimed: they are `regex_find_all` of the matcher's source and `text`.
    #[verifier::external_body]
    fn find_all(&self, text: &str) -> (r: Vec<String>)
        ensures
            strs(r@) == regex_find_all(self.source(), text@),
    {
        self.regex.find_iter(text).map(|m| m.as_str().to_string()).collect()
    }

    /// The parts of `text` between matches, by `regex::Regex::split`.
    /// Claimed: they are `regex_split` of the matcher's source and `text`;
    /// there is one more part than there are matches (`find_iter` and
    /// `split` walk the same matches), and the parts with the matches between
    /// them make up `text`.
    #[verifier::external_body]
    fn split_parts(&self, text: &str) -> (r: Vec<String>)
        ensures
            strs(r@) == regex_split(self.source(), text@),
            strs(r@).len() == regex_find_all(self.source(), text@).len() + 1,
            interleave(strs(r@), regex_find_all(self.source(), text@)) == text@,
    {
        self.regex.split(text).map(|part| part.to_string()).collect()
    }

    /// The matches in `text` and the parts between them (see
    /// `regex_find_all` and `regex_split`).
    pub fn match_parts(&self, text: &str) -> (r: (Vec<String>, Vec<String>))
        ensures
            strs(r.0@) == regex_split(self.source(), text@),
            strs(r.1@) == regex_find_all(self.source(), text@),
            strs(r.0@).len() == strs(r.1@).len() + 1,
            interleave(strs(r.0@), strs(r.1@)) == text@,
    {
        let parts = self.split_parts(text);
        let found = self.find_all(text);
        (parts, found)
    }
}

/// Whether a character is uppercase: `A`..`Z` among ASCII characters,
/// `char_is_uppercase` beyond them.
pub open spec fn uppercase(c: char) -> bool {
    if c <= '\x7f' {
        'A' <= c <= 'Z'
    } else {
        char_is_uppercase(c)
    }
}

/// Whether `char::is_uppercase` holds of `c`.
/// Claimed: the result is `char_is_uppercase(c)`, and among ASCII
/// characters exactly `A`..`Z` are uppercase.
#[verifier::external_body]
fn is_uppercase(c: char) -> (r: bool)
    ensures
        r == char_is_uppercase(c),
        c <= '\x7f' ==> r == ('A' <= c <= 'Z'),
{
    c.is_uppercase()
}

/// The characters that `regex::escape` puts a backslash in front of.
pub open spec fn is_meta_character(c: char) -> bool {
    c == '\\' || c == '.' || c == '+' || c == '*' || c == '?' || c == '(' || c == ')' || c == '|'
        || c == '[' || c == ']' || c == '{' || c == '}' || c == '^' || c == '$' || c == '#'
        || c == '&' || c == '-' || c == '~'
}

/// `s` with a backslash before each meta character.
pub open spec fn escaped(s: Seq<char>) -> Seq<char>
    decreases s.len(),
{
    if s.len() == 0 {
        seq![]
    } else {
        escaped(s.drop_last()) + if is_meta_character(s.last()) {
            seq!['\\', s.last()]
        } else {
            seq![s.last()]
        }
    }
}

/// Escapes the regex meta characters of `s` with `regex::escape`.
/// Claimed: each meta character (`\ . + * ? ( ) | [ ] { } ^ $ # & - ~`) gets a
/// backslash in front of it, and every other character is kept as is.
#[verifier::external_body]
fn regex_escape(s: &String) -> (r: String)
    ensures
        r@ == escaped(s@),
{
    regex::escape(s)
}

/// Whether some pattern has an uppercase character.
pub open spec fn has_uppercase(patterns: Seq<String>) -> bool {
    exists|i: int, j: int|
        0 <= i < patterns.len() && 0 <= j < patterns[i]@.len() && uppercase(
            #[trigger] patterns[i]@[j],
        )
}

/// Whether the search ignores case: always with `--ignore-case`, never with
/// `--case-sensitive`, and otherwise (smart case, the default) when no
/// pattern has an uppercase character.
pub open spec fn case_insensitive(patterns: Seq<String>, cli: Cli) -> bool {
    if cli.ignore_case {
        true
    } else if cli.case_sensitive {
        false
    } else {
        !has_uppercase(patterns)
    }
}

/// The regex text searched for one pattern: escaped with `--fixed-strings`,
/// wrapped in `\b…\b` with `--word-regexp` or else in `^…$` with
/// `--line-regexp`, and prefixed with `(?i)` when case is ignored and
/// `--case-sensitive` is not given.
pub open spec fn regex_source(pattern: Seq<char>, cli: Cli, insensitive: bool) -> Seq<char> {
    let s = if cli.fixed_strings {
        escaped(pattern)
    } else {
        pattern
    };
    let s = if cli.word_regexp {
        "\\b"@ + s + "\\b"@
    } else if cli.line_regexp {
        "^"@ + s + "$"@
    } else {
        s
    };
    if insensitive && !cli.case_sensitive {
        "(?i)"@ + s
    } else {
        s
    }
}

/// The regex texts searched for the patterns, in order.
pub open spec fn regex_sources(patterns: Seq<String>, cli: Cli) -> Seq<Seq<char>> {
    patterns.map_values(|p: String| regex_source(p@, cli, case_insensitive(patterns, cli)))
}

fn any_uppercase(patterns: &[String]) -> (r: bool)
    ensures
        r == has_uppercase(patterns@),
{
    let mut i: usize = 0;
    while i < patterns.len()
        invariant
            i <= patterns.len(),
            forall|a: int, b: int|
                0 <= a < i && 0 <= b < patterns@[a]@.len() ==> !uppercase(
                    #[trigger] patterns@[a]@[b],
                ),
        decreases patterns.len() - i,
    {
        let p = patterns[i].as_str();
        let n = p.unicode_len();
        let mut j: usize = 0;
        while j < n
            invariant
                i < patterns.len(),
                p@ == patterns@[i as int]@,
                n == p@.len(),
                j <= n,
                forall|b: int| 0 <= b < j ==> !uppercase(#[trigger] patterns@[i as int]@[b]),
            decreases n - j,
        {
            if is_uppercase(p.get_char(j)) {
                assert(uppercase(patterns@[i as int]@[j as int]));
                return true;
            }
            j = j + 1;
        }
        i = i + 1;
    }
    false
}

fn literal(s: &str) -> (r: String)
    ensures
        r@ == s@,
{
    String::from_str(s)
}

/// The regex text searched for `pattern` (see `regex_source`).
pub fn build_regex_source(pattern: &String, cli: &Cli, insensitive: bool) -> (r: String)
    ensures
        r@ == regex_source(pattern@, *cli, insensitive),
{
    let s = if cli.fixed_strings {
        regex_escape(pattern)
    } else {
        pattern.clone()
    };
    let s = if cli.word_regexp {
        literal("\\b").concat(s.as_str()).concat("\\b")
    } else if cli.line_regexp {
        literal("^").concat(s.as_str()).concat("$")
    } else {
        s
    };
    if insensitive && !cli.case_sensitive {
        literal("(?i)").concat(s.as_str())
    } else {
        s
    }
}

/// Compiles each pattern into a matcher, in order (see `regex_source` for
/// how a pattern becomes a regex).  Fails with the compiler's message for
/// the first pattern whose regex does not compile.
pub fn build_regex_set(patterns: &[String], cli: &Cli) -> (r: Result<Vec<Matcher>, String>)
    ensures
        r matches Err(msg) ==> exists|j: int|
            0 <= j < patterns@.len() && !regex_accepts(#[trigger] regex_sources(patterns@, *cli)[j])
                && (forall|k: int| 0 <= k < j ==> regex_accepts(regex_sources(patterns@, *cli)[k]))
                && msg@ == regex_error_text(regex_sources(patterns@, *cli)[j]),
        r is Ok <==> (forall|i: int|
            0 <= i < patterns@.len() ==> regex_accepts(#[trigger] regex_sources(patterns@, *cli)[i])),
        r matches Ok(ms) ==> ms@.len() == patterns@.len() && (forall|i: int|
            0 <= i < ms@.len() ==> (#[trigger] ms@[i]).source() == regex_sources(patterns@, *cli)[i]),
{
    let insensitive = if cli.ignore_case {
        true
    } else if cli.case_sensitive {
        false
    } else {
        !any_uppercase(patterns)
    };
    let ghost sources = regex_sources(patterns@, *cli);
    let mut regexes: Vec<Matcher> = Vec::new();
    let mut i: usize = 0;
    while i < patterns.len()
        invariant
            i <= patterns.len(),
            sources == regex_sources(patterns@, *cli),
            insensitive == case_insensitive(patterns@, *cli),
            regexes@.len() == i,
            forall|k: int| 0 <= k < i ==> regex_accepts(#[trigger] sources[k]),
            forall|k: int| 0 <= k < i ==> (#[trigger] regexes@[k]).source() == sources[k],
        decreases patterns.len() - i,
    {
        let regex_str = build_regex_source(&patterns[i], cli, insensitive);
        assert(regex_str@ == sources[i as int]);
        match Matcher::compile(&regex_str) {
            Ok(m) => {
                regexes.push(m);
            },
            Err(msg) => {
                assert(!regex_accepts(sources[i as int]));
                return Err(msg);
            },
        }
        i = i + 1;
    }
    Ok(regexes)
}

/// All the sequences of `s`, one after another.
pub open spec fn flatten(s: Seq<Seq<Seq<char>>>) -> Seq<Seq<char>>
    decreases s.len(),
{
    if s.len() == 0 {
        seq![]
    } else {
        flatten(s.drop_last()) + s.last()
    }
}

/// What a line gives, from the matches each regex found in it: whether it
/// counts as a match (it has some match, or, with `invert`, it has none),
/// and the matched texts (none when inverted).
pub open spec fn line_verdict(found: Seq<Seq<Seq<char>>>, invert: bool) -> (bool, Seq<Seq<char>>) {
    let all = flatten(found);
    if invert {
        (all.len() == 0, seq![])
    } else {
        (all.len() > 0, all)
    }
}

/// The matches of a line, regex by regex, as the regexes found them.
pub open spec fn found_in(regexes: Seq<Matcher>, content: Seq<char>) -> Seq<Seq<Seq<char>>> {
    regexes.map_values(|m: Matcher| regex_find_all(m.source(), content))
}

/// Combines the matches that each regex found in a line (see `line_verdict`).
pub fn combine_matches(found: Vec<Vec<String>>, invert: bool) -> (r: (bool, Vec<String>))
    ensures
        (r.0, strs(r.1@)) == line_verdict(found@.map_values(|v: Vec<String>| strs(v@)), invert),
{
    let ghost views = found@.map_values(|v: Vec<String>| strs(v@));
    let mut matches: Vec<String> = Vec::new();
    let mut i: usize = 0;
    while i < found.len()
        invariant
            i <= found.len(),
            views == found@.map_values(|v: Vec<String>| strs(v@)),
            strs(matches@) == flatten(views.take(i as int)),
        decreases found.len() - i,
    {
        let ghost before = strs(matches@);
        let mut j: usize = 0;
        while j < found[i].len()
            invariant
                i < found.len(),
                j <= found@[i as int]@.len(),
                strs(matches@) == before + strs(found@[i as int]@.take(j as int)),
            decreases found@[i as int]@.len() - j,
        {
            proof {
                lemma_strs_push(matches@, found@[i as int]@[j as int]);
                assert(strs(found@[i as int]@.take(j + 1)) =~= strs(found@[i as int]@.take(j as int)).push(
                    found@[i as int]@[j as int]@,
                ));
            }
            matches.push(found[i][j].clone());
            j = j + 1;
        }
        proof {
            assert(found@[i as int]@.take(found@[i as int]@.len() as int) =~= found@[i as int]@);
            assert(views.take(i + 1).drop_last() =~= views.take(i as int));
        }
        i = i + 1;
    }
    proof {
        assert(views.take(found.len() as int) =~= views);
    }
    let is_match = matches.len() > 0;
    if invert {
        let empty: Vec<String> = Vec::new();
        assert(strs(empty@) =~= seq![]);
        (!is_match, empty)
    } else {
        (is_match, matches)
    }
}

/// Searches `content` with every regex: whether it counts as a match and
/// the matched texts (see `line_verdict`; `--invert-match` flips the
/// verdict and drops the texts).
pub fn match_content(content: &str, regexes: &[Matcher], cli: &Cli) -> (r: (bool, Vec<String>))
    ensures
        (r.0, strs(r.1@)) == line_verdict(found_in(regexes@, content@), cli.invert_match),
{
    let mut found: Vec<Vec<String>> = Vec::new();
    let mut i: usize = 0;
    while i < regexes.len()
        invariant
            i <= regexes.len(),
            found@.map_values(|v: Vec<String>| strs(v@)) == found_in(regexes@.take(i as int), content@),
        decreases regexes.len() - i,
    {
        let m = regexes[i].find_all(content);
        proof {
            assert(found@.push(m).map_values(|v: Vec<String>| strs(v@)) =~= found@.map_values(
                |v: Vec<String>| strs(v@),
            ).push(strs(m@)));
            assert(found_in(regexes@.take(i + 1), content@) =~= found_in(regexes@.take(i as int), content@).push(
                regex_find_all(regexes@[i as int].source(), content@),
            ));
        }
        found.push(m);
        i = i + 1;
    }
    proof {
        assert(regexes@.take(regexes.len() as int) =~= regexes@);
    }
    combine_matches(found, cli.invert_match)
}


/// `--invert-match` flips whether a line counts as a match and reports no
/// matched text.
pub proof fn law_invert_flips_verdict(found: Seq<Seq<Seq<char>>>)
    ensures
        line_verdict(found, true).0 == !line_verdict(found, false).0,
        line_verdict(found, true).1 == Seq::<Seq<char>>::empty(),
{
}

/// Case handling: with `--ignore-case` (and not `--case-sensitive`) every
/// regex ignores case; with `--case-sensitive` none does; otherwise (smart
/// case) the regexes ignore case exactly when no pattern has an uppercase
/// character.
pub proof fn law_case_modes(patterns: Seq<String>, cli: Cli)
    ensures
        cli.ignore_case && !cli.case_sensitive ==> forall|i: int|
            0 <= i < patterns.len() ==> #[trigger] regex_sources(patterns, cli)[i] == "(?i)"@
                + regex_source(patterns[i]@, cli, false),
        cli.case_sensitive ==> forall|i: int|
            0 <= i < patterns.len() ==> #[trigger] regex_sources(patterns, cli)[i] == regex_source(
                patterns[i]@,
                cli,
                false,
            ),
        !cli.ignore_case && !cli.case_sensitive ==> forall|i: int|
            0 <= i < patterns.len() ==> #[trigger] regex_sources(patterns, cli)[i] == if has_uppercase(
                patterns,
            ) {
                regex_source(patterns[i]@, cli, false)
            } else {
                "(?i)"@ + regex_source(patterns[i]@, cli, false)
            },
{
}


proof fn lemma_flatten_nonempty(s: Seq<Seq<Seq<char>>>)
    ensures
        flatten(s).len() > 0 <==> exists|i: int| 0 <= i < s.len() && #[trigger] s[i].len() > 0,
    decreases s.len(),
{
    if s.len() > 0 {
        lemma_flatten_nonempty(s.drop_last());
        let d = s.drop_last();
        if exists|i: int| 0 <= i < d.len() && #[trigger] d[i].len() > 0 {
            let i = choose|i: int| 0 <= i < d.len() && #[trigger] d[i].len() > 0;
            assert(s[i] == d[i]);
        }
        if exists|i: int| 0 <= i < s.len() && #[trigger] s[i].len() > 0 {
            let i = choose|i: int| 0 <= i < s.len() && #[trigger] s[i].len() > 0;
            if i < d.len() {
                assert(d[i] == s[i]);
            }
        }
    }
}

/// Several patterns are alternatives: a line matches exactly when some
/// pattern's regex finds a match in it.
pub proof fn law_patterns_are_alternatives(found: Seq<Seq<Seq<char>>>)
    ensures
        line_verdict(found, false).0 <==> exists|i: int| 0 <= i < found.len() && #[trigger] found[i].len() > 0,
{
    lemma_flatten_nonempty(found);
}

/// Smart case looks at every character of every pattern: without
/// `--ignore-case` and `--case-sensitive`, one uppercase character anywhere
/// in any pattern (not only at its start) makes every regex case-sensitive,
/// and when no character of any pattern is uppercase every regex ignores
/// case.
pub proof fn law_smart_case_reads_every_character(patterns: Seq<String>, cli: Cli)
    requires
        !cli.ignore_case,
        !cli.case_sensitive,
    ensures
        forall|i: int, j: int|
            0 <= i < patterns.len() && 0 <= j < patterns[i]@.len() && #[trigger] uppercase(patterns[i]@[j])
                ==> forall|k: int|
                0 <= k < patterns.len() ==> #[trigger] regex_sources(patterns, cli)[k] == regex_source(
                    patterns[k]@,
                    cli,
                    false,
                ),
        (forall|i: int, j: int|
            0 <= i < patterns.len() && 0 <= j < patterns[i]@.len() ==> !#[trigger] uppercase(patterns[i]@[j]))
            ==> forall|k: int|
            0 <= k < patterns.len() ==> #[trigger] regex_sources(patterns, cli)[k] == "(?i)"@ + regex_source(
                patterns[k]@,
                cli,
                false,
            ),
{
    assert forall|i: int, j: int|
        0 <= i < patterns.len() && 0 <= j < patterns[i]@.len() && #[trigger] uppercase(patterns[i]@[j])
            implies has_uppercase(patterns) by {
    }
}

} // verus!
