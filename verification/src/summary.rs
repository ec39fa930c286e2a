use vstd::prelude::*;

use crate::cli::{Cli, ColorWhen};
use crate::render::{decimal_text, number_text};

verus! {

/// A line of `n` dashes.
pub open spec fn dashes(n: nat) -> Seq<char>
    decreases n,
{
    if n == 0 {
        seq![]
    } else {
        dashes((n - 1) as nat) + "-"@
    }
}

fn dash_line(n: usize) -> (r: String)
    ensures
        r@ == dashes(n as nat),
{
    let mut r = String::new();
    let mut i: usize = 0;
    while i < n
        invariant
            i <= n,
            r@ == dashes(i as nat),
        decreases n - i,
    {
        r = r.concat("-");
        i = i + 1;
    }
    r
}

/// The statistics printed at the end of a search with `--stats` (and not
/// `--quiet`): a blank line if anything was found or listed, a rule of 50
/// dashes, the number of files scanned, and then either the files matched
/// and total matches (content search) or the files found.
pub open spec fn stats_text(
    cli: Cli,
    content_search: bool,
    files_scanned: usize,
    files_matched: usize,
    total_matches: usize,
    records: usize,
) -> Seq<char> {
    if !cli.stats || cli.quiet {
        seq![]
    } else {
        (if records > 0 || files_scanned > 0 {
            "\n"@
        } else {
            seq![]
        }) + dashes(50) + "\n"@ + "Files scanned: "@ + decimal_text(files_scanned as nat) + "\n"@ + (
        if content_search {
            "Files matched: "@ + decimal_text(files_matched as nat) + "\n"@ + "Total matches: "@
                + decimal_text(total_matches as nat) + "\n"@
        } else {
            "Files found: "@ + decimal_text(
                if files_matched >= records {
                    files_matched as nat
                } else {
                    records as nat
                },
            ) + "\n"@
        })
    }
}

/// The statistics of a search (see `stats_text`).
pub fn render_stats(
    cli: &Cli,
    content_search: bool,
    files_scanned: usize,
    files_matched: usize,
    total_matches: usize,
    records: usize,
) -> (r: String)
    ensures
        r@ == stats_text(*cli, content_search, files_scanned, files_matched, total_matches, records),
{
    if !cli.stats || cli.quiet {
        return String::new();
    }
    let mut r = String::new();
    if records > 0 || files_scanned > 0 {
        r = r.concat("\n");
    }
    r = r.concat(dash_line(50).as_str()).concat("\n");
    r = r.concat("Files scanned: ").concat(number_text(files_scanned).as_str()).concat("\n");
    if content_search {
        r = r.concat("Files matched: ").concat(number_text(files_matched).as_str()).concat("\n");
        r = r.concat("Total matches: ").concat(number_text(total_matches).as_str()).concat("\n");
    } else {
        let found = if files_matched >= records {
            files_matched
        } else {
            records
        };
        r = r.concat("Files found: ").concat(number_text(found).as_str()).concat("\n");
    }
    assert(r@ =~= stats_text(*cli, content_search, files_scanned, files_matched, total_matches, records));
    r
}

/// The exit status of a search in quiet mode: 0 when something matched, 1
/// otherwise; `None` outside quiet mode (the search ends normally).
pub fn exit_status(cli: &Cli, total_matches: usize) -> (r: Option<i32>)
    ensures
        r == if cli.quiet {
            Some(if total_matches > 0 {
                0i32
            } else {
                1i32
            })
        } else {
            None::<i32>
        },
{
    if cli.quiet && total_matches > 0 {
        Some(0)
    } else if cli.quiet {
        Some(1)
    } else {
        None
    }
}

/// Whether file contents are searched: there are patterns and `--files` is
/// not given.
pub fn content_search(patterns: &Vec<String>, cli: &Cli) -> (r: bool)
    ensures
        r == (patterns@.len() > 0 && !cli.files_only),
{
    !patterns.is_empty() && !cli.files_only
}

/// Whether output is colored: always with `--color always`, never with
/// `--color never`, and with `auto` when the output is a terminal.
pub fn use_color(color: ColorWhen, terminal: bool) -> (r: bool)
    ensures
        r == match color {
            ColorWhen::Always => true,
            ColorWhen::Never => false,
            ColorWhen::Auto => terminal,
        },
{
    match color {
        ColorWhen::Always => true,
        ColorWhen::Never => false,
        ColorWhen::Auto => terminal,
    }
}

} // verus!
