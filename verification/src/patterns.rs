use vstd::prelude::*;
use vstd::utf8::{decode_utf8, valid_utf8};

use crate::cli::Cli;
use crate::text::{lemma_strs_push, lemma_strs_take_all, lemma_strs_take_push, strs};

verus! {

/// Decodes a line of bytes with `std::str::from_utf8`.
/// Claimed: it succeeds exactly on valid UTF-8, and then gives the decoded
/// characters.
#[verifier::external_body]
fn decode_line(bytes: &[u8]) -> (r: Option<String>)
    ensures
        r is Some <==> valid_utf8(bytes@),
        r matches Some(s) ==> s@ == decode_utf8(bytes@),
{
    std::str::from_utf8(bytes).ok().map(|s| s.to_string())
}

/// A line read as `BufRead::lines` reads it, once its `\n` is dropped:
/// without one trailing `\r`.
pub open spec fn without_cr(line: Seq<u8>) -> Seq<u8> {
    if line.len() > 0 && line.last() == 13u8 {
        line.drop_last()
    } else {
        line
    }
}

/// The pattern a line gives: its text, when it is valid UTF-8 and not empty.
pub open spec fn line_pattern(line: Seq<u8>) -> Seq<Seq<char>> {
    if line.len() > 0 && valid_utf8(line) {
        seq![decode_utf8(line)]
    } else {
        seq![]
    }
}

/// The patterns of the bytes of a pattern file from position `i` on, where
/// the current line started at `start`: each line ends at a `\n` (which is
/// dropped, with a `\r` before it) or at the end of the file; lines that are
/// empty or not valid UTF-8 are skipped.
pub open spec fn patterns_from(b: Seq<u8>, i: int, start: int) -> Seq<Seq<char>>
    decreases b.len() - i,
{
    if i >= b.len() {
        if start < b.len() {
            line_pattern(b.subrange(start, b.len() as int))
        } else {
            seq![]
        }
    } else if b[i] == 10u8 {
        line_pattern(without_cr(b.subrange(start, i))) + patterns_from(b, i + 1, i + 1)
    } else {
        patterns_from(b, i + 1, start)
    }
}

/// The patterns of a pattern file, one per non-empty line.
pub open spec fn file_patterns(b: Seq<u8>) -> Seq<Seq<char>> {
    patterns_from(b, 0, 0)
}

/// The patterns of several pattern files, file after file.
pub open spec fn files_patterns(files: Seq<Vec<u8>>) -> Seq<Seq<char>>
    decreases files.len(),
{
    if files.len() == 0 {
        seq![]
    } else {
        files_patterns(files.drop_last()) + file_patterns(files.last()@)
    }
}

/// The patterns a search looks for: `--pattern`, then each `--regexp`, then
/// the lines of each pattern file that could be read.
pub open spec fn search_patterns(cli: Cli, files: Seq<Vec<u8>>) -> Seq<Seq<char>> {
    let first: Seq<Seq<char>> = match cli.pattern {
        Some(p) => seq![p@],
        None => seq![],
    };
    first + strs(cli.patterns@) + files_patterns(files)
}

fn push_line_pattern(out: &mut Vec<String>, line: &[u8])
    ensures
        strs(final(out)@) == strs(old(out)@) + line_pattern(line@),
{
    if line.len() > 0 {
        match decode_line(line) {
            Some(s) => {
                proof {
                    lemma_strs_push(out@, s);
                }
                out.push(s);
            },
            None => {
                assert(strs(out@) =~= strs(out@) + line_pattern(line@));
            },
        }
    } else {
        assert(strs(out@) =~= strs(out@) + line_pattern(line@));
    }
}

/// Appends the patterns of one pattern file to `out`.
fn push_file_patterns(out: &mut Vec<String>, bytes: &[u8])
    ensures
        strs(final(out)@) == strs(old(out)@) + file_patterns(bytes@),
{
    let ghost b = bytes@;
    let ghost start_view = strs(out@);
    let n = bytes.len();
    let mut i: usize = 0;
    let mut start: usize = 0;
    while i < n
        invariant
            n == b.len(),
            b == bytes@,
            start <= i <= n,
            start_view + file_patterns(b) == strs(out@) + patterns_from(b, i as int, start as int),
        decreases n - i,
    {
        if bytes[i] == 10u8 {
            let mut end = i;
            if end > start && bytes[end - 1] == 13u8 {
                end = end - 1;
            }
            let line = &bytes[start..end];
            proof {
                assert(line@ =~= without_cr(b.subrange(start as int, i as int)));
            }
            let ghost before = strs(out@);
            push_line_pattern(out, line);
            proof {
                assert(start_view + file_patterns(b) =~= strs(out@) + patterns_from(b, i + 1, i + 1));
            }
            start = i + 1;
        }
        i = i + 1;
    }
    if start < n {
        let line = &bytes[start..n];
        push_line_pattern(out, line);
        assert(start_view + file_patterns(b) =~= strs(out@));
    } else {
        assert(start_view + file_patterns(b) =~= strs(out@));
    }
}

/// The patterns of a search: `--pattern`, then each `--regexp`, then the
/// lines of the pattern files, given here by their contents, in order (the
/// files that could not be opened are left out).  Empty lines and lines
/// that are not valid UTF-8 are skipped.
pub fn parse_patterns(cli: &Cli, pattern_files: &Vec<Vec<u8>>) -> (pats: Vec<String>)
    ensures
        strs(pats@) == search_patterns(*cli, pattern_files@),
{
    let mut pats: Vec<String> = Vec::new();
    if let Some(p) = &cli.pattern {
        proof {
            lemma_strs_push(pats@, *p);
        }
        pats.push(p.clone());
    }
    let ghost first = strs(pats@);
    let mut i: usize = 0;
    while i < cli.patterns.len()
        invariant
            i <= cli.patterns@.len(),
            strs(pats@) == first + strs(cli.patterns@.take(i as int)),
        decreases cli.patterns@.len() - i,
    {
        proof {
            lemma_strs_take_push(cli.patterns@, i as int);
            lemma_strs_push(pats@, cli.patterns@[i as int]);
        }
        pats.push(cli.patterns[i].clone());
        i = i + 1;
    }
    proof {
        lemma_strs_take_all(cli.patterns@);
    }
    let ghost given = strs(pats@);
    let mut j: usize = 0;
    while j < pattern_files.len()
        invariant
            j <= pattern_files@.len(),
            strs(pats@) == given + files_patterns(pattern_files@.take(j as int)),
        decreases pattern_files@.len() - j,
    {
        push_file_patterns(&mut pats, pattern_files[j].as_slice());
        proof {
            assert(pattern_files@.take(j + 1).drop_last() =~= pattern_files@.take(j as int));
        }
        j = j + 1;
    }
    proof {
        assert(pattern_files@.take(pattern_files@.len() as int) =~= pattern_files@);
    }
    assert(strs(pats@) =~= search_patterns(*cli, pattern_files@));
    pats
}

} // verus!
