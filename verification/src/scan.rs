use vstd::prelude::*;

use crate::cli::Cli;
use crate::matcher::{found_in, line_verdict, match_content, Matcher};
use crate::text::{chars_of, lemma_strs_push, string_of, strs};

verus! {

/// A line without one trailing `\r`.
pub open spec fn drop_cr(line: Seq<char>) -> Seq<char> {
    if line.len() > 0 && line.last() == '\r' {
        line.drop_last()
    } else {
        line
    }
}

/// The lines of `s` from position `i` on, where the current line started
/// at `start`: a line ends at a `\n` (dropped, with a `\r` right before it)
/// or at the end of the text; a final line ending adds no empty line.
pub open spec fn lines_from(s: Seq<char>, i: int, start: int) -> Seq<Seq<char>>
    decreases s.len() - i,
{
    if i >= s.len() {
        if start < s.len() {
            seq![s.subrange(start, s.len() as int)]
        } else {
            seq![]
        }
    } else if s[i] == '\n' {
        seq![drop_cr(s.subrange(start, i))] + lines_from(s, i + 1, i + 1)
    } else {
        lines_from(s, i + 1, start)
    }
}

/// The lines of a text, as `str::lines` splits it.
pub open spec fn text_lines(s: Seq<char>) -> Seq<Seq<char>> {
    lines_from(s, 0, 0)
}

/// The lines of `content`, as `str::lines` splits it (see `text_lines`).
pub(crate) fn content_lines(content: &str) -> (r: Vec<String>)
    ensures
        strs(r@) == text_lines(content@),
{
    let cs = chars_of(content);
    let ghost t = content@;
    let n = cs.len();
    let mut out: Vec<String> = Vec::new();
    let mut i: usize = 0;
    let mut start: usize = 0;
    while i < n
        invariant
            cs@ == t,
            n == t.len(),
            start <= i <= n,
            text_lines(t) == strs(out@) + lines_from(t, i as int, start as int),
        decreases n - i,
    {
        if cs[i] == '\n' {
            let mut end = i;
            if end > start && cs[end - 1] == '\r' {
                end = end - 1;
            }
            let line = string_of(&cs.as_slice()[start..end]);
            proof {
                assert(line@ =~= drop_cr(t.subrange(start as int, i as int)));
                lemma_strs_push(out@, line);
            }
            out.push(line);
            assert(text_lines(t) =~= strs(out@) + lines_from(t, i + 1, i + 1));
            start = i + 1;
        }
        i = i + 1;
    }
    if start < n {
        let line = string_of(&cs.as_slice()[start..n]);
        proof {
            assert(line@ =~= t.subrange(start as int, n as int));
            lemma_strs_push(out@, line);
        }
        out.push(line);
        assert(text_lines(t) =~= strs(out@));
    } else {
        assert(text_lines(t) =~= strs(out@));
    }
    out
}

/// A matching line of a file: its number (from 1), its text, and the texts
/// the regexes matched in it.
pub struct LineMatch {
    pub line_number: usize,
    pub text: String,
    pub matches: Vec<String>,
}

impl View for LineMatch {
    type V = (int, Seq<char>, Seq<Seq<char>>);

    open spec fn view(&self) -> (int, Seq<char>, Seq<Seq<char>>) {
        (self.line_number as int, self.text@, strs(self.matches@))
    }
}

pub open spec fn hits_view(v: Seq<LineMatch>) -> Seq<(int, Seq<char>, Seq<Seq<char>>)> {
    v.map_values(|m: LineMatch| m@)
}

/// What the regexes make of line `i` (see `line_verdict`).
pub open spec fn line_result(lines: Seq<Seq<char>>, regexes: Seq<Matcher>, invert: bool, i: int) -> (
    bool,
    Seq<Seq<char>>,
) {
    line_verdict(found_in(regexes, lines[i]), invert)
}

/// The matching lines among the first `n` lines, in order, each with its
/// number (from 1), its text and its matched texts.
pub open spec fn hits(lines: Seq<Seq<char>>, regexes: Seq<Matcher>, invert: bool, n: int) -> Seq<
    (int, Seq<char>, Seq<Seq<char>>),
>
    decreases n,
{
    if n <= 0 {
        seq![]
    } else {
        hits(lines, regexes, invert, n - 1) + if line_result(lines, regexes, invert, n - 1).0 {
            seq![(n, lines[n - 1], line_result(lines, regexes, invert, n - 1).1)]
        } else {
            seq![]
        }
    }
}

/// At most `max` of the items of `s` (all of them when there is no limit).
pub open spec fn capped<A>(s: Seq<A>, max: Option<usize>) -> Seq<A> {
    match max {
        Some(m) => if s.len() > m {
            s.take(m as int)
        } else {
            s
        },
        None => s,
    }
}

/// The matching lines of a file, in order: every line the regexes match (or,
/// with `--invert-match`, every line they do not), stopping after
/// `--max-count` of them.
pub fn scan_lines(lines: &Vec<String>, regexes: &[Matcher], cli: &Cli) -> (found: Vec<LineMatch>)
    ensures
        hits_view(found@) == capped(hits(strs(lines@), regexes@, cli.invert_match, lines@.len() as int), cli.max_count),
{
    let mut found: Vec<LineMatch> = Vec::new();
    let mut i: usize = 0;
    while i < lines.len()
        invariant
            i <= lines@.len(),
            hits_view(found@) == capped(hits(strs(lines@), regexes@, cli.invert_match, i as int), cli.max_count),
        decreases lines@.len() - i,
    {
        let (is_match, text_matches) = match_content(lines[i].as_str(), regexes, cli);
        let ghost all = hits(strs(lines@), regexes@, cli.invert_match, i as int);
        let ghost next = hits(strs(lines@), regexes@, cli.invert_match, i + 1);
        assert(strs(lines@)[i as int] == lines@[i as int]@);
        assert(line_result(strs(lines@), regexes@, cli.invert_match, i as int) == (is_match, strs(text_matches@)));
        if is_match {
            let full = match cli.max_count {
                Some(max) => found.len() >= max,
                None => false,
            };
            if !full {
                let m = LineMatch { line_number: i + 1, text: lines[i].clone(), matches: text_matches };
                proof {
                    assert(hits_view(found@.push(m)) =~= hits_view(found@).push(m@));
                }
                found.push(m);
                assert(hits_view(found@) =~= capped(next, cli.max_count));
            } else {
                assert(hits_view(found@) =~= capped(next, cli.max_count));
            }
        } else {
            assert(next =~= all);
        }
        i = i + 1;
    }
    found
}

/// The matching lines of a file are exactly the lines the regexes'
/// verdict accepts, whatever their length (an empty line included): among
/// the first `n` lines, line `i + 1` is reported exactly when the verdict
/// on line `i` holds; each report carries that line's text and the texts
/// matched in it, and reports come in line order.
pub proof fn law_matching_lines_are_accepted_lines(
    lines: Seq<Seq<char>>,
    regexes: Seq<Matcher>,
    invert: bool,
    n: int,
)
    requires
        0 <= n <= lines.len(),
    ensures
        forall|i: int|
            0 <= i < n ==> (#[trigger] line_result(lines, regexes, invert, i).0 <==> exists|k: int|
                0 <= k < hits(lines, regexes, invert, n).len() && hits(lines, regexes, invert, n)[k].0 == i + 1),
        forall|k: int|
            0 <= k < hits(lines, regexes, invert, n).len() ==> {
                let h = #[trigger] hits(lines, regexes, invert, n)[k];
                &&& 1 <= h.0 <= n
                &&& h.1 == lines[h.0 - 1]
                &&& line_result(lines, regexes, invert, h.0 - 1) == (true, h.2)
            },
        forall|a: int, b: int|
            0 <= a < b < hits(lines, regexes, invert, n).len() ==> hits(lines, regexes, invert, n)[a].0
                < hits(lines, regexes, invert, n)[b].0,
    decreases n,
{
    if n > 0 {
        law_matching_lines_are_accepted_lines(lines, regexes, invert, n - 1);
        let prev = hits(lines, regexes, invert, n - 1);
        let cur = hits(lines, regexes, invert, n);
        if line_result(lines, regexes, invert, n - 1).0 {
            assert(cur == prev.push((n, lines[n - 1], line_result(lines, regexes, invert, n - 1).1)));
            assert(cur[prev.len() as int].0 == n);
        } else {
            assert(cur =~= prev);
        }
        assert forall|i: int|
            0 <= i < n implies (#[trigger] line_result(lines, regexes, invert, i).0 <==> exists|k: int|
                0 <= k < cur.len() && cur[k].0 == i + 1) by {
            if i < n - 1 {
                if line_result(lines, regexes, invert, i).0 {
                    let k = choose|k: int| 0 <= k < prev.len() && prev[k].0 == i + 1;
                    assert(cur[k] == prev[k]);
                } else {
                    if exists|k: int| 0 <= k < cur.len() && cur[k].0 == i + 1 {
                        let k = choose|k: int| 0 <= k < cur.len() && cur[k].0 == i + 1;
                        if k < prev.len() {
                            assert(cur[k] == prev[k]);
                        }
                    }
                }
            } else {
                if line_result(lines, regexes, invert, i).0 {
                    assert(cur[prev.len() as int].0 == i + 1);
                } else {
                    if exists|k: int| 0 <= k < cur.len() && cur[k].0 == i + 1 {
                        let k = choose|k: int| 0 <= k < cur.len() && cur[k].0 == i + 1;
                        assert(cur[k] == prev[k]);
                        assert(prev[k].0 <= n - 1);
                    }
                }
            }
        }
        assert forall|k: int| 0 <= k < cur.len() implies {
            let h = #[trigger] cur[k];
            &&& 1 <= h.0 <= n
            &&& h.1 == lines[h.0 - 1]
            &&& line_result(lines, regexes, invert, h.0 - 1) == (true, h.2)
        } by {
            if k < prev.len() {
                assert(cur[k] == prev[k]);
            }
        }
        assert forall|a: int, b: int| 0 <= a < b < cur.len() implies cur[a].0 < cur[b].0 by {
            assert(cur[a] == prev[a]);
            if b < prev.len() {
                assert(cur[b] == prev[b]);
            } else {
                assert(prev[a].0 <= n - 1);
            }
        }
    }
}

} // verus!
