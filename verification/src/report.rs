use vstd::prelude::*;

use crate::cli::Cli;
use crate::context::{context_blocks, merged_blocks, ascending_below};
use crate::render::{decimal_text, number_text};
use crate::highlight::{highlight_matches, shown_line};
use crate::matcher::Matcher;
use crate::scan::{LineMatch, capped, content_lines, hits, hits_view, scan_lines, text_lines};
use crate::text::strs;

verus! {

/// `text` wrapped in the terminal escape for color `code` when `colored`.
pub open spec fn paint(code: Seq<char>, text: Seq<char>, colored: bool) -> Seq<char> {
    if colored {
        "\x1b["@ + code + "m"@ + text + "\x1b[0m"@
    } else {
        text
    }
}

fn literal(s: &str) -> (r: String)
    ensures
        r@ == s@,
{
    String::from_str(s)
}

fn paint_text(code: &str, text: &str, colored: bool) -> (r: String)
    ensures
        r@ == paint(code@, text@, colored),
{
    if colored {
        literal("\x1b[").concat(code).concat("m").concat(text).concat("\x1b[0m")
    } else {
        literal(text)
    }
}

/// The texts joined with a newline between each two.
pub open spec fn join_lines(ms: Seq<Seq<char>>) -> Seq<char>
    decreases ms.len(),
{
    if ms.len() == 0 {
        seq![]
    } else if ms.len() == 1 {
        ms[0]
    } else {
        join_lines(ms.drop_last()) + "\n"@ + ms.last()
    }
}

fn join_strings(ms: &Vec<String>) -> (r: String)
    ensures
        r@ == join_lines(strs(ms@)),
{
    let mut r = String::new();
    let mut i: usize = 0;
    while i < ms.len()
        invariant
            i <= ms@.len(),
            r@ == join_lines(strs(ms@.take(i as int))),
        decreases ms@.len() - i,
    {
        proof {
            assert(strs(ms@.take(i + 1)).drop_last() =~= strs(ms@.take(i as int)));
            assert(strs(ms@.take(i + 1)).last() == ms@[i as int]@);
        }
        if i == 0 {
            r = ms[i].clone();
            assert(strs(ms@.take(1)) =~= seq![ms@[0]@]);
        } else {
            r = r.concat("\n").concat(ms[i].as_str());
        }
        i = i + 1;
    }
    assert(ms@.take(ms@.len() as int) =~= ms@);
    r
}

fn show_line(line: &str, regexes: &[Matcher], colored: bool) -> (r: String)
    ensures
        r@ == shown_line(line@, regexes@, colored),
{
    if colored {
        highlight_matches(line, regexes)
    } else {
        String::from_str(line)
    }
}

/// The number prefix of a matching line: `N: `, with N in bold cyan.
pub open spec fn match_prefix(n: nat, colored: bool) -> Seq<char> {
    paint("1;36"@, decimal_text(n), colored) + ": "@
}

/// The number prefix of a context line: `N- `, with N in gray.
pub open spec fn context_prefix(n: nat, colored: bool) -> Seq<char> {
    paint("90"@, decimal_text(n), colored) + "- "@
}

/// The index of the first match recorded for line number `ln`, looking from
/// index `k` on.
pub open spec fn match_for_line(found: Seq<(int, Seq<char>, Seq<Seq<char>>)>, ln: int, k: int) -> Option<int>
    decreases found.len() - k,
{
    if k >= found.len() || k < 0 {
        None
    } else if found[k].0 == ln {
        Some(k)
    } else {
        match_for_line(found, ln, k + 1)
    }
}

/// The output of line `i` inside a context block: a matching line with its
/// `N: ` prefix and its matches highlighted when colored (just its matched
/// texts, one per line, with `--only-matching`), or a context line with its
/// `N- ` prefix, in gray.
pub open spec fn context_line_text(
    lines: Seq<Seq<char>>,
    found: Seq<(int, Seq<char>, Seq<Seq<char>>)>,
    i: int,
    cli: Cli,
    regexes: Seq<Matcher>,
    colored: bool,
) -> Seq<char> {
    let numbered = !cli.no_line_number;
    match match_for_line(found, i + 1, 0) {
        Some(k) => (if numbered {
            match_prefix((i + 1) as nat, colored)
        } else {
            seq![]
        }) + (if cli.only_matching && found[k].2.len() > 0 {
            join_lines(found[k].2)
        } else {
            shown_line(lines[i], regexes, colored)
        }) + "\n"@,
        None => (if numbered {
            context_prefix((i + 1) as nat, colored)
        } else {
            seq![]
        }) + paint("90"@, lines[i], colored) + "\n"@,
    }
}

/// The output of lines `s` up to (not including) `e` of a context block.
pub open spec fn block_text(
    lines: Seq<Seq<char>>,
    found: Seq<(int, Seq<char>, Seq<Seq<char>>)>,
    s: int,
    e: int,
    cli: Cli,
    regexes: Seq<Matcher>,
    colored: bool,
) -> Seq<char>
    decreases e - s,
{
    if e <= s {
        seq![]
    } else {
        block_text(lines, found, s, e - 1, cli, regexes, colored) + context_line_text(lines, found, e - 1, cli, regexes, colored)
    }
}

/// The output of the first `k` context blocks, with a `--` line between
/// each two.
pub open spec fn blocks_text(
    lines: Seq<Seq<char>>,
    found: Seq<(int, Seq<char>, Seq<Seq<char>>)>,
    bs: Seq<(usize, usize)>,
    k: int,
    cli: Cli,
    regexes: Seq<Matcher>,
    colored: bool,
) -> Seq<char>
    decreases k,
{
    if k <= 0 {
        seq![]
    } else {
        blocks_text(lines, found, bs, k - 1, cli, regexes, colored) + (if k > 1 {
            "--\n"@
        } else {
            seq![]
        }) + block_text(lines, found, bs[k - 1].0 as int, bs[k - 1].1 + 1, cli, regexes, colored)
    }
}

/// The line indices of the recorded matches.
pub open spec fn match_indices(found: Seq<(int, Seq<char>, Seq<Seq<char>>)>) -> Seq<usize> {
    found.map_values(|f: (int, Seq<char>, Seq<Seq<char>>)| (f.0 - 1) as usize)
}

/// Whether the recorded matches name lines of the file in increasing order.
pub open spec fn matches_in_order(found: Seq<(int, Seq<char>, Seq<Seq<char>>)>, n: int) -> bool {
    &&& forall|k: int| 0 <= k < found.len() ==> 1 <= #[trigger] found[k].0 <= n
    &&& forall|k1: int, k2: int| 0 <= k1 < k2 < found.len() ==> #[trigger] found[k1].0 < #[trigger] found[k2].0
}

fn find_line(found: &Vec<LineMatch>, ln: usize) -> (r: Option<usize>)
    ensures
        r matches Some(k) ==> match_for_line(hits_view(found@), ln as int, 0) == Some(k as int),
        r is None ==> match_for_line(hits_view(found@), ln as int, 0) is None,
        r matches Some(k) ==> k < found@.len() && found@[k as int].line_number == ln,
{
    let ghost v = hits_view(found@);
    let mut k: usize = 0;
    while k < found.len()
        invariant
            k <= found@.len(),
            v == hits_view(found@),
            match_for_line(v, ln as int, 0) == match_for_line(v, ln as int, k as int),
        decreases found@.len() - k,
    {
        assert(v[k as int].0 == found@[k as int].line_number as int);
        if found[k].line_number == ln {
            return Some(k);
        }
        k = k + 1;
    }
    None
}

fn render_context_line(lines: &Vec<String>, found: &Vec<LineMatch>, i: usize, cli: &Cli, regexes: &[Matcher], colored: bool) -> (r: String)
    requires
        i < lines@.len(),
        i + 1 <= usize::MAX,
    ensures
        r@ == context_line_text(strs(lines@), hits_view(found@), i as int, *cli, regexes@, colored),
{
    let ghost v = hits_view(found@);
    let numbered = !cli.no_line_number;
    assert(strs(lines@)[i as int] == lines@[i as int]@);
    match find_line(found, i + 1) {
        Some(k) => {
            assert(v[k as int] == found@[k as int]@);
            assert(v[k as int].2 == strs(found@[k as int].matches@));
            assert(v[k as int].2.len() == found@[k as int].matches@.len());
            assert(match_for_line(v, (i + 1) as int, 0) == Some(k as int));
            let prefix = if numbered {
                paint_text("1;36", number_text(i + 1).as_str(), colored).concat(": ")
            } else {
                String::new()
            };
            let body = if cli.only_matching && found[k].matches.len() > 0 {
                join_strings(&found[k].matches)
            } else {
                show_line(lines[i].as_str(), regexes, colored)
            };
            let r = prefix.concat(body.as_str()).concat("\n");
            assert(r@ =~= context_line_text(strs(lines@), v, i as int, *cli, regexes@, colored));
            r
        },
        None => {
            let prefix = if numbered {
                paint_text("90", number_text(i + 1).as_str(), colored).concat("- ")
            } else {
                String::new()
            };
            let r = prefix.concat(paint_text("90", lines[i].as_str(), colored).as_str()).concat("\n");
            assert(r@ =~= context_line_text(strs(lines@), v, i as int, *cli, regexes@, colored));
            r
        },
    }
}

/// The context output of a file: its context blocks (see
/// `context_blocks`), each line once, with `--` between blocks.
pub fn render_context(lines: &Vec<String>, found: &Vec<LineMatch>, before: usize, after: usize, cli: &Cli, regexes: &[Matcher], colored: bool) -> (r: String)
    requires
        matches_in_order(hits_view(found@), lines@.len() as int),
    ensures
        r@ == blocks_text(
            strs(lines@),
            hits_view(found@),
            merged_blocks(match_indices(hits_view(found@)), before as int, after as int, lines@.len() as int),
            merged_blocks(match_indices(hits_view(found@)), before as int, after as int, lines@.len() as int).len() as int,
            *cli,
            regexes@,
            colored,
        ),
{
    let ghost v = hits_view(found@);
    let n = lines.len();
    let mut ms: Vec<usize> = Vec::new();
    let mut k: usize = 0;
    while k < found.len()
        invariant
            k <= found@.len(),
            v == hits_view(found@),
            matches_in_order(v, n as int),
            ms@ == match_indices(v).take(k as int),
        decreases found@.len() - k,
    {
        assert(v[k as int].0 == found@[k as int].line_number as int);
        ms.push(found[k].line_number - 1);
        assert(ms@ =~= match_indices(v).take(k + 1));
        k = k + 1;
    }
    assert(match_indices(v).take(found@.len() as int) =~= match_indices(v));
    assert(ascending_below(ms@, n as int)) by {
        assert forall|j1: int, j2: int| 0 <= j1 < j2 < ms@.len() implies #[trigger] ms@[j1] < #[trigger] ms@[j2] by {
            assert(v[j1].0 < v[j2].0);
        }
        assert forall|j: int| 0 <= j < ms@.len() implies #[trigger] ms@[j] < n by {
            assert(1 <= v[j].0 <= n);
        }
    }
    let bs = context_blocks(&ms, n, before, after);
    let ghost lv = strs(lines@);
    let mut r = String::new();
    let mut b: usize = 0;
    while b < bs.len()
        invariant
            b <= bs@.len(),
            v == hits_view(found@),
            lv == strs(lines@),
            n == lines@.len(),
            forall|q: int| 0 <= q < bs@.len() ==> #[trigger] bs@[q].0 <= bs@[q].1 && bs@[q].1 < n,
            r@ == blocks_text(lv, v, bs@, b as int, *cli, regexes@, colored),
        decreases bs@.len() - b,
    {
        if b > 0 {
            r = r.concat("--\n");
        }
        let ghost head = r@;
        let (s, e) = bs[b];
        assert(bs@[b as int].0 <= bs@[b as int].1 && bs@[b as int].1 < n);
        let mut i: usize = s;
        while i <= e
            invariant
                s <= i <= e + 1,
                e < n,
                n == lines@.len(),
                v == hits_view(found@),
                lv == strs(lines@),
                r@ == head + block_text(lv, v, s as int, i as int, *cli, regexes@, colored),
            decreases e + 1 - i,
        {
            let line = render_context_line(lines, found, i, cli, regexes, colored);
            r = r.concat(line.as_str());
            assert(r@ =~= head + block_text(lv, v, s as int, i + 1, *cli, regexes@, colored));
            i = i + 1;
        }
        assert(r@ =~= blocks_text(lv, v, bs@, b + 1, *cli, regexes@, colored));
        b = b + 1;
    }
    r
}


/// A matching line as reported in JSON output.
pub struct MatchInfo {
    pub path: String,
    pub line: Option<usize>,
    pub content: Option<String>,
    pub matches: Vec<String>,
}

impl View for MatchInfo {
    type V = (Seq<char>, Option<usize>, Option<Seq<char>>, Seq<Seq<char>>);

    open spec fn view(&self) -> (Seq<char>, Option<usize>, Option<Seq<char>>, Seq<Seq<char>>) {
        (
            self.path@,
            self.line,
            match self.content {
                Some(c) => Some(c@),
                None => None,
            },
            strs(self.matches@),
        )
    }
}

/// A reported file as reported in JSON output: its path, its number of
/// matching lines and those lines.
pub struct FileResult {
    pub path: String,
    pub matches: usize,
    pub lines: Vec<MatchInfo>,
}

impl View for FileResult {
    type V = (Seq<char>, usize, Seq<(Seq<char>, Option<usize>, Option<Seq<char>>, Seq<Seq<char>>)>);

    open spec fn view(&self) -> (Seq<char>, usize, Seq<(Seq<char>, Option<usize>, Option<Seq<char>>, Seq<Seq<char>>)>) {
        (self.path@, self.matches, self.lines@.map_values(|m: MatchInfo| m@))
    }
}

/// The JSON record of a matching line: the file's path, the line number and
/// text, and no matched texts.
pub open spec fn match_record(path: Seq<char>, f: (int, Seq<char>, Seq<Seq<char>>)) -> (
    Seq<char>,
    Option<usize>,
    Option<Seq<char>>,
    Seq<Seq<char>>,
) {
    (path, Some(f.0 as usize), Some(f.1), seq![])
}

/// The JSON record of a reported file with these matching lines.
pub open spec fn file_record(path: Seq<char>, found: Seq<(int, Seq<char>, Seq<Seq<char>>)>) -> (
    Seq<char>,
    usize,
    Seq<(Seq<char>, Option<usize>, Option<Seq<char>>, Seq<Seq<char>>)>,
) {
    (path, found.len() as usize, found.map_values(|f: (int, Seq<char>, Seq<Seq<char>>)| match_record(path, f)))
}

/// The JSON record of a file reported with its matching lines.
pub fn file_result(path: &String, found: &Vec<LineMatch>) -> (r: FileResult)
    ensures
        r@ == file_record(path@, hits_view(found@)),
{
    let mut lines: Vec<MatchInfo> = Vec::new();
    let mut k: usize = 0;
    while k < found.len()
        invariant
            k <= found@.len(),
            lines@.map_values(|m: MatchInfo| m@) == hits_view(found@).take(k as int).map_values(
                |f: (int, Seq<char>, Seq<Seq<char>>)| match_record(path@, f),
            ),
        decreases found@.len() - k,
    {
        let info = MatchInfo {
            path: path.clone(),
            line: Some(found[k].line_number),
            content: Some(found[k].text.clone()),
            matches: Vec::new(),
        };
        assert(strs(info.matches@) =~= Seq::<Seq<char>>::empty());
        assert(hits_view(found@)[k as int] == found@[k as int]@);
        assert(info@ == match_record(path@, hits_view(found@)[k as int]));
        let ghost before = lines@;
        let ghost item = info@;
        lines.push(info);
        assert(lines@ == before.push(info));
        assert(lines@.map_values(|m: MatchInfo| m@) =~= before.map_values(|m: MatchInfo| m@).push(item));
        assert(hits_view(found@).take(k + 1) =~= hits_view(found@).take(k as int).push(hits_view(found@)[k as int]));
        assert(lines@.map_values(|m: MatchInfo| m@) =~= hits_view(found@).take(k + 1).map_values(
            |f: (int, Seq<char>, Seq<Seq<char>>)| match_record(path@, f),
        ));
        k = k + 1;
    }
    assert(hits_view(found@).take(found@.len() as int) =~= hits_view(found@));
    FileResult { path: path.clone(), matches: found.len(), lines }
}

/// The JSON record of a file listed without a content search.
pub fn listed_file_result(path: &String) -> (r: FileResult)
    ensures
        r@ == (path@, 0usize, Seq::<(Seq<char>, Option<usize>, Option<Seq<char>>, Seq<Seq<char>>)>::empty()),
{
    let r = FileResult { path: path.clone(), matches: 0, lines: Vec::new() };
    assert(r@.2 =~= Seq::<(Seq<char>, Option<usize>, Option<Seq<char>>, Seq<Seq<char>>)>::empty());
    r
}

/// The number of context lines before (`-B`, else `-C`, else 0) and after
/// (`-A`, else `-C`, else 0) each match.
pub open spec fn context_widths_spec(cli: Cli) -> (usize, usize) {
    (
        match cli.before_context {
            Some(b) => b,
            None => match cli.context {
                Some(c) => c,
                None => 0,
            },
        },
        match cli.after_context {
            Some(a) => a,
            None => match cli.context {
                Some(c) => c,
                None => 0,
            },
        },
    )
}

/// The context widths of a search (see `context_widths_spec`).
pub fn context_widths(cli: &Cli) -> (r: (usize, usize))
    ensures
        r == context_widths_spec(*cli),
{
    let before = match cli.before_context {
        Some(b) => b,
        None => match cli.context {
            Some(c) => c,
            None => 0,
        },
    };
    let after = match cli.after_context {
        Some(a) => a,
        None => match cli.context {
            Some(c) => c,
            None => 0,
        },
    };
    (before, after)
}

/// The end of a listed path: a NUL byte with `--null`, else a newline.
pub open spec fn path_end(cli: Cli) -> Seq<char> {
    if cli.print0 {
        "\0"@
    } else {
        "\n"@
    }
}

fn path_line(path: &String, cli: &Cli) -> (r: String)
    ensures
        r@ == path@ + path_end(*cli),
{
    if cli.print0 {
        path.clone().concat("\0")
    } else {
        path.clone().concat("\n")
    }
}

/// The texts, each followed by a newline.
pub open spec fn each_line(ms: Seq<Seq<char>>) -> Seq<char>
    decreases ms.len(),
{
    if ms.len() == 0 {
        seq![]
    } else {
        each_line(ms.drop_last()) + ms.last() + "\n"@
    }
}

/// The output of a matching line without context: its `N: ` prefix (unless
/// `--no-line-number`), then its text with its matches highlighted when
/// colored, or with `--only-matching` each of its matched texts on a line of
/// its own.
pub open spec fn plain_entry(f: (int, Seq<char>, Seq<Seq<char>>), cli: Cli, regexes: Seq<Matcher>, colored: bool) -> Seq<char> {
    (if !cli.no_line_number {
        match_prefix(f.0 as nat, colored)
    } else {
        seq![]
    }) + (if cli.only_matching {
        each_line(f.2)
    } else {
        shown_line(f.1, regexes, colored) + "\n"@
    })
}

/// The output of the first `k` matching lines without context.
pub open spec fn plain_text(found: Seq<(int, Seq<char>, Seq<Seq<char>>)>, k: int, cli: Cli, regexes: Seq<Matcher>, colored: bool) -> Seq<char>
    decreases k,
{
    if k <= 0 {
        seq![]
    } else {
        plain_text(found, k - 1, cli, regexes, colored) + plain_entry(found[k - 1], cli, regexes, colored)
    }
}

/// The output of the first `k` lines with `--passthru`: every line, with
/// its `N: ` prefix when `--line-number` is given, and its matches
/// highlighted when colored.
pub open spec fn passthru_text(lines: Seq<Seq<char>>, k: int, cli: Cli, regexes: Seq<Matcher>, colored: bool) -> Seq<char>
    decreases k,
{
    if k <= 0 {
        seq![]
    } else {
        passthru_text(lines, k - 1, cli, regexes, colored) + (if cli.line_number && !cli.no_line_number {
            match_prefix(k as nat, colored)
        } else {
            seq![]
        }) + shown_line(lines[k - 1], regexes, colored) + "\n"@
    }
}

/// The heading of a file's matches: its path in bold green, unless
/// `--no-filename` is given and no heading is asked for.
pub open spec fn heading_text(path: Seq<char>, cli: Cli, colored: bool) -> Seq<char> {
    if !cli.no_filename || (!cli.no_heading && cli.heading) {
        paint("1;32"@, path, colored) + "\n"@
    } else {
        seq![]
    }
}

/// The output of the matching lines of a file: all lines with
/// `--passthru`, the context blocks when context is asked for, else each
/// matching line.
pub open spec fn matches_text(
    lines: Seq<Seq<char>>,
    found: Seq<(int, Seq<char>, Seq<Seq<char>>)>,
    cli: Cli,
    regexes: Seq<Matcher>,
    colored: bool,
) -> Seq<char> {
    let (before, after) = context_widths_spec(cli);
    if cli.passthru {
        passthru_text(lines, lines.len() as int, cli, regexes, colored)
    } else if before > 0 || after > 0 {
        let bs = merged_blocks(match_indices(found), before as int, after as int, lines.len() as int);
        blocks_text(lines, found, bs, bs.len() as int, cli, regexes, colored)
    } else {
        plain_text(found, found.len() as int, cli, regexes, colored)
    }
}

/// What a reported file prints (outside JSON and quiet modes): its path with
/// `--files-with-matches` or `--files-without-match`, `PATH: COUNT` with
/// `--count`, else its heading and its matching lines.
pub open spec fn file_text(
    path: Seq<char>,
    lines: Seq<Seq<char>>,
    found: Seq<(int, Seq<char>, Seq<Seq<char>>)>,
    cli: Cli,
    regexes: Seq<Matcher>,
    colored: bool,
) -> Seq<char> {
    if cli.files_with_matches || cli.files_without_match {
        path + path_end(cli)
    } else if cli.count {
        path + ": "@ + decimal_text(found.len()) + "\n"@
    } else {
        heading_text(path, cli, colored) + matches_text(lines, found, cli, regexes, colored)
    }
}

fn each_line_text(ms: &Vec<String>) -> (r: String)
    ensures
        r@ == each_line(strs(ms@)),
{
    let mut r = String::new();
    let mut i: usize = 0;
    while i < ms.len()
        invariant
            i <= ms@.len(),
            r@ == each_line(strs(ms@.take(i as int))),
        decreases ms@.len() - i,
    {
        proof {
            assert(strs(ms@.take(i + 1)).drop_last() =~= strs(ms@.take(i as int)));
            assert(strs(ms@.take(i + 1)).last() == ms@[i as int]@);
        }
        r = r.concat(ms[i].as_str()).concat("\n");
        i = i + 1;
    }
    assert(ms@.take(ms@.len() as int) =~= ms@);
    r
}

fn match_prefix_text(n: usize, colored: bool) -> (r: String)
    ensures
        r@ == match_prefix(n as nat, colored),
{
    paint_text("1;36", number_text(n).as_str(), colored).concat(": ")
}

fn render_plain(found: &Vec<LineMatch>, cli: &Cli, regexes: &[Matcher], colored: bool) -> (r: String)
    ensures
        r@ == plain_text(hits_view(found@), found@.len() as int, *cli, regexes@, colored),
{
    let ghost v = hits_view(found@);
    let mut r = String::new();
    let mut k: usize = 0;
    while k < found.len()
        invariant
            k <= found@.len(),
            v == hits_view(found@),
            r@ == plain_text(v, k as int, *cli, regexes@, colored),
        decreases found@.len() - k,
    {
        assert(v[k as int] == found@[k as int]@);
        let prefix = if !cli.no_line_number {
            match_prefix_text(found[k].line_number, colored)
        } else {
            String::new()
        };
        let body = if cli.only_matching {
            each_line_text(&found[k].matches)
        } else {
            show_line(found[k].text.as_str(), regexes, colored).concat("\n")
        };
        r = r.concat(prefix.as_str()).concat(body.as_str());
        assert(r@ =~= plain_text(v, k + 1, *cli, regexes@, colored));
        k = k + 1;
    }
    r
}

fn render_passthru(lines: &Vec<String>, cli: &Cli, regexes: &[Matcher], colored: bool) -> (r: String)
    ensures
        r@ == passthru_text(strs(lines@), lines@.len() as int, *cli, regexes@, colored),
{
    let ghost lv = strs(lines@);
    let mut r = String::new();
    let mut i: usize = 0;
    while i < lines.len()
        invariant
            i <= lines@.len(),
            lv == strs(lines@),
            r@ == passthru_text(lv, i as int, *cli, regexes@, colored),
        decreases lines@.len() - i,
    {
        assert(lv[i as int] == lines@[i as int]@);
        let prefix = if cli.line_number && !cli.no_line_number {
            match_prefix_text(i + 1, colored)
        } else {
            String::new()
        };
        r = r.concat(prefix.as_str()).concat(show_line(lines[i].as_str(), regexes, colored).as_str()).concat("\n");
        assert(r@ =~= passthru_text(lv, i + 1, *cli, regexes@, colored));
        i = i + 1;
    }
    r
}

proof fn lemma_hits_in_order(lines: Seq<Seq<char>>, regexes: Seq<Matcher>, invert: bool, n: int)
    requires
        0 <= n <= lines.len(),
    ensures
        matches_in_order(hits(lines, regexes, invert, n), n),
    decreases n,
{
    if n > 0 {
        lemma_hits_in_order(lines, regexes, invert, n - 1);
        let prev = hits(lines, regexes, invert, n - 1);
        let cur = hits(lines, regexes, invert, n);
        assert forall|k: int| 0 <= k < cur.len() implies 1 <= #[trigger] cur[k].0 <= n by {
            if k < prev.len() {
                assert(cur[k] == prev[k]);
            }
        }
        assert forall|k1: int, k2: int| 0 <= k1 < k2 < cur.len() implies #[trigger] cur[k1].0 < #[trigger] cur[k2].0 by {
            assert(cur[k1] == prev[k1]);
            if k2 < prev.len() {
                assert(cur[k2] == prev[k2]);
            } else {
                assert(1 <= prev[k1].0 <= n - 1);
            }
        }
    }
}

proof fn lemma_capped_in_order(s: Seq<(int, Seq<char>, Seq<Seq<char>>)>, max: Option<usize>, n: int)
    requires
        matches_in_order(s, n),
    ensures
        matches_in_order(capped(s, max), n),
{
    let c = capped(s, max);
    assert forall|k: int| 0 <= k < c.len() implies 1 <= #[trigger] c[k].0 <= n by {
        assert(c[k] == s[k]);
    }
    assert forall|k1: int, k2: int| 0 <= k1 < k2 < c.len() implies #[trigger] c[k1].0 < #[trigger] c[k2].0 by {
        assert(c[k1] == s[k1]);
        assert(c[k2] == s[k2]);
    }
}

/// The matching lines of a file's contents as `scan_lines` records them.
pub open spec fn content_hits(content: Seq<char>, regexes: Seq<Matcher>, cli: Cli) -> Seq<(int, Seq<char>, Seq<Seq<char>>)> {
    capped(hits(text_lines(content), regexes, cli.invert_match, text_lines(content).len() as int), cli.max_count)
}

/// The matching lines of a file as `scan_lines` records them.
pub open spec fn file_hits(lines: Seq<String>, regexes: Seq<Matcher>, cli: Cli) -> Seq<(int, Seq<char>, Seq<Seq<char>>)> {
    capped(hits(strs(lines), regexes, cli.invert_match, lines.len() as int), cli.max_count)
}

/// Whether a file is reported: when it has matching lines, or, with
/// `--files-without-match`, when it has none.
pub open spec fn reported(found: Seq<(int, Seq<char>, Seq<Seq<char>>)>, cli: Cli) -> bool {
    if cli.files_without_match {
        found.len() == 0
    } else {
        found.len() > 0
    }
}

/// What searching the contents of one file gives.
pub struct FileOutcome {
    /// Whether the file is reported.
    pub reported: bool,
    /// The number of matching lines it adds to the total.
    pub matches: usize,
    /// What to print for it.
    pub output: String,
    /// Its JSON record, in JSON mode.
    pub record: Option<FileResult>,
}

/// Searches the contents of the file shown as `path`, split into lines as
/// `str::lines` splits them (see `text_lines`): finds its
/// matching lines (see `scan_lines`), decides whether it is reported (see
/// `reported`), and gives what to print for it (see `file_text`; nothing in
/// JSON or quiet mode) and its JSON record in JSON mode.
pub fn process_file(path: &String, content: &str, regexes: &[Matcher], cli: &Cli, colored: bool) -> (r: FileOutcome)
    ensures
        r.reported == reported(content_hits(content@, regexes@, *cli), *cli),
        r.matches == if r.reported {
            content_hits(content@, regexes@, *cli).len()
        } else {
            0
        },
        r.output@ == if r.reported && !cli.json && !cli.quiet {
            file_text(path@, text_lines(content@), content_hits(content@, regexes@, *cli), *cli, regexes@, colored)
        } else {
            Seq::<char>::empty()
        },
        match r.record {
            Some(rec) => r.reported && cli.json && rec@ == file_record(path@, content_hits(content@, regexes@, *cli)),
            None => !(r.reported && cli.json),
        },
{
    let lines = content_lines(content);
    search_lines(path, &lines, regexes, cli, colored)
}

fn search_lines(path: &String, lines: &Vec<String>, regexes: &[Matcher], cli: &Cli, colored: bool) -> (r: FileOutcome)
    ensures
        r.reported == reported(file_hits(lines@, regexes@, *cli), *cli),
        r.matches == if r.reported {
            file_hits(lines@, regexes@, *cli).len()
        } else {
            0
        },
        r.output@ == if r.reported && !cli.json && !cli.quiet {
            file_text(path@, strs(lines@), file_hits(lines@, regexes@, *cli), *cli, regexes@, colored)
        } else {
            Seq::<char>::empty()
        },
        match r.record {
            Some(rec) => r.reported && cli.json && rec@ == file_record(path@, file_hits(lines@, regexes@, *cli)),
            None => !(r.reported && cli.json),
        },
{
    let found = scan_lines(lines, regexes, cli);
    let ghost v = hits_view(found@);
    let has_match = found.len() > 0;
    let should_report = if cli.files_without_match {
        !has_match
    } else {
        has_match
    };
    if !should_report {
        return FileOutcome { reported: false, matches: 0, output: String::new(), record: None };
    }
    let record = if cli.json {
        Some(file_result(path, &found))
    } else {
        None
    };
    if cli.json || cli.quiet {
        return FileOutcome { reported: true, matches: found.len(), output: String::new(), record };
    }
    let output = if cli.files_with_matches || cli.files_without_match {
        path_line(path, cli)
    } else if cli.count {
        path.clone().concat(": ").concat(number_text(found.len()).as_str()).concat("\n")
    } else {
        let heading = if !cli.no_filename || (!cli.no_heading && cli.heading) {
            paint_text("1;32", path.as_str(), colored).concat("\n")
        } else {
            String::new()
        };
        let (before, after) = context_widths(cli);
        let body = if cli.passthru {
            render_passthru(lines, cli, regexes, colored)
        } else if before > 0 || after > 0 {
            proof {
                lemma_hits_in_order(strs(lines@), regexes@, cli.invert_match, lines@.len() as int);
                lemma_capped_in_order(hits(strs(lines@), regexes@, cli.invert_match, lines@.len() as int), cli.max_count, lines@.len() as int);
            }
            render_context(lines, &found, before, after, cli, regexes, colored)
        } else {
            render_plain(&found, cli, regexes, colored)
        };
        heading.concat(body.as_str())
    };
    assert(output@ =~= file_text(path@, strs(lines@), v, *cli, regexes@, colored));
    FileOutcome { reported: true, matches: found.len(), output, record }
}

/// What listing a file without a content search gives.
pub struct Listing {
    /// What to print for it.
    pub output: String,
    /// Its JSON record, in JSON mode.
    pub record: Option<FileResult>,
    /// Whether its contents are searched after all: in JSON mode the listing
    /// goes on to the content search.
    pub search_contents: bool,
}

/// Lists a file when no content is searched: in JSON mode a record with no
/// matches (and the file's contents are then searched as usual); otherwise
/// its path, unless quiet.
pub fn list_file(path: &String, cli: &Cli) -> (r: Listing)
    ensures
        r.search_contents == cli.json,
        match r.record {
            Some(rec) => cli.json && rec@ == (path@, 0usize, Seq::<(Seq<char>, Option<usize>, Option<Seq<char>>, Seq<Seq<char>>)>::empty()),
            None => !cli.json,
        },
        r.output@ == if cli.json || cli.quiet {
            Seq::<char>::empty()
        } else {
            path@ + path_end(*cli)
        },
{
    if cli.json {
        Listing { output: String::new(), record: Some(listed_file_result(path)), search_contents: true }
    } else if cli.quiet {
        Listing { output: String::new(), record: None, search_contents: false }
    } else {
        Listing { output: path_line(path, cli), record: None, search_contents: false }
    }
}


/// `-C N` is a shortcut for `-B N -A N`; `-B` and `-A` win over it.
pub proof fn law_context_shortcut(cli: Cli)
    ensures
        cli.before_context is None && cli.after_context is None ==> context_widths_spec(cli) == (
            match cli.context {
                Some(c) => (c, c),
                None => (0usize, 0usize),
            }
        ),
        cli.before_context matches Some(b) ==> context_widths_spec(cli).0 == b,
        cli.after_context matches Some(a) ==> context_widths_spec(cli).1 == a,
{
}

/// `--max-count N` stops after N matching lines: a file reports at most N of
/// them, and they are its first matching lines.
pub proof fn law_max_count(content: Seq<char>, regexes: Seq<Matcher>, cli: Cli)
    ensures
        cli.max_count matches Some(m) ==> content_hits(content, regexes, cli).len() <= m,
        content_hits(content, regexes, cli) == hits(text_lines(content), regexes, cli.invert_match, text_lines(content).len() as int).take(
            content_hits(content, regexes, cli).len() as int,
        ),
{
    let all = hits(text_lines(content), regexes, cli.invert_match, text_lines(content).len() as int);
    assert(all.take(all.len() as int) =~= all);
}

/// `--files-without-match` reports exactly the files that the default mode
/// does not: those with no matching line.
pub proof fn law_files_without_match(found: Seq<(int, Seq<char>, Seq<Seq<char>>)>, cli: Cli)
    ensures
        cli.files_without_match ==> (reported(found, cli) <==> found.len() == 0),
        !cli.files_without_match ==> (reported(found, cli) <==> found.len() > 0),
{
}

/// A JSON record counts exactly the matching lines it lists.
pub proof fn law_record_counts_its_lines(path: Seq<char>, found: Seq<(int, Seq<char>, Seq<Seq<char>>)>)
    requires
        found.len() <= usize::MAX,
    ensures
        file_record(path, found).1 as int == file_record(path, found).2.len(),
{
}

/// Each side of the context window is set on its own: the lines shown
/// before a match come from `-B` when given, else from `-C`, else none,
/// whatever `-A` says; the lines after come from `-A`, else `-C`, else none,
/// whatever `-B` says.  So two searches that agree on `-B` and `-C` show
/// as many lines before a match, and likewise for `-A` and `-C` after it.
pub proof fn law_context_sides_independent(cli: Cli, other: Cli)
    ensures
        context_widths_spec(cli).0 == match cli.before_context {
            Some(b) => b,
            None => match cli.context {
                Some(c) => c,
                None => 0usize,
            },
        },
        context_widths_spec(cli).1 == match cli.after_context {
            Some(a) => a,
            None => match cli.context {
                Some(c) => c,
                None => 0usize,
            },
        },
        cli.before_context == other.before_context && cli.context == other.context
            ==> context_widths_spec(cli).0 == context_widths_spec(other).0,
        cli.after_context == other.after_context && cli.context == other.context
            ==> context_widths_spec(cli).1 == context_widths_spec(other).1,
{
}

} // verus!
