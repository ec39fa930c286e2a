use rsdata::cli::{Cli, ColorWhen};
use rsdata::context::context_blocks;
use rsdata::render::number_text;
use rsdata::report::{context_widths, list_file, process_file};
use rsdata::scan::scan_lines;
use rsdata::summary::{content_search, exit_status, render_stats, use_color};
use rsdata::build_regex_set;
use rsdata::highlight::highlight_matches;

fn strings(v: &[&str]) -> Vec<String> {
    v.iter().map(|s| s.to_string()).collect()
}

fn lines_of(text: &str) -> Vec<String> {
    text.lines().map(|l| l.to_string()).collect()
}

#[test]
fn content_is_split_like_str_lines() {
    let mut cli = Cli::default();
    cli.passthru = true;
    cli.no_filename = true;
    let regexes = build_regex_set(&strings(&["a"]), &cli).unwrap();
    let out = process_file(&"f".to_string(), "a\r\nb\n\nc\r", &regexes, &cli, false);
    assert_eq!(out.output, "a\nb\n\nc\r\n");
    let out = process_file(&"f".to_string(), "a\n", &regexes, &cli, false);
    assert_eq!(out.output, "a\n");
    let out = process_file(&"f".to_string(), "", &regexes, &cli, false);
    assert!(!out.reported);
}

#[test]
fn max_count_stops_after_n_matches() {
    let mut cli = Cli::default();
    cli.max_count = Some(2);
    let regexes = build_regex_set(&strings(&["x"]), &cli).unwrap();
    let found = scan_lines(&lines_of("x1\nno\nx2\nx3\n"), &regexes, &cli);
    let numbers: Vec<usize> = found.iter().map(|m| m.line_number).collect();
    assert_eq!(numbers, vec![1, 3]);
    cli.max_count = Some(0);
    assert!(scan_lines(&lines_of("x\n"), &regexes, &cli).is_empty());
}

#[test]
fn plain_output_lists_matching_lines() {
    let cli = Cli::default();
    let regexes = build_regex_set(&strings(&["b"]), &cli).unwrap();
    let out = process_file(&"f.txt".to_string(), "a\nb\nab\n", &regexes, &cli, false);
    assert!(out.reported);
    assert_eq!(out.matches, 2);
    assert_eq!(out.output, "f.txt\n2: b\n3: ab\n");
    assert!(out.record.is_none());
}

#[test]
fn colored_output_uses_escape_codes() {
    let cli = Cli::default();
    let regexes = build_regex_set(&strings(&["b"]), &cli).unwrap();
    let out = process_file(&"f".to_string(), "b\n", &regexes, &cli, true);
    assert_eq!(out.output, "\x1b[1;32mf\x1b[0m\n\x1b[1;36m1\x1b[0m: \x1b[1;31mb\x1b[0m\n");
}

#[test]
fn only_matching_prints_matched_texts() {
    let mut cli = Cli::default();
    cli.only_matching = true;
    cli.no_filename = true;
    cli.no_line_number = true;
    let regexes = build_regex_set(&strings(&["[0-9]+"]), &cli).unwrap();
    let out = process_file(&"f".to_string(), "a1b22\n", &regexes, &cli, false);
    assert_eq!(out.output, "1\n22\n");
}

#[test]
fn context_windows_merge_and_separate() {
    assert_eq!(context_blocks(&vec![1, 3, 10], 20, 1, 1), vec![(0, 4), (9, 11)]);
    assert_eq!(context_blocks(&vec![0, 19], 20, 2, 5), vec![(0, 5), (17, 19)]);
    assert_eq!(context_blocks(&vec![2, 5], 20, 1, 1), vec![(1, 3), (4, 6)]);
    assert!(context_blocks(&vec![], 20, 1, 1).is_empty());
}

#[test]
fn context_output_prints_each_line_once() {
    let mut cli = Cli::default();
    cli.context = Some(1);
    cli.no_filename = true;
    let regexes = build_regex_set(&strings(&["m"]), &cli).unwrap();
    let text = "a\nm1\nb\nm2\nc\nd\ne\nm3\n";
    let out = process_file(&"f".to_string(), text, &regexes, &cli, false);
    assert_eq!(out.output, "1- a\n2: m1\n3- b\n4: m2\n5- c\n--\n7- e\n8: m3\n");
}

#[test]
fn context_widths_follow_the_flags() {
    let mut cli = Cli::default();
    assert_eq!(context_widths(&cli), (0, 0));
    cli.context = Some(3);
    assert_eq!(context_widths(&cli), (3, 3));
    cli.before_context = Some(1);
    assert_eq!(context_widths(&cli), (1, 3));
    cli.after_context = Some(0);
    assert_eq!(context_widths(&cli), (1, 0));
}

#[test]
fn passthru_prints_every_line() {
    let mut cli = Cli::default();
    cli.passthru = true;
    cli.line_number = true;
    let regexes = build_regex_set(&strings(&["y"]), &cli).unwrap();
    let out = process_file(&"f".to_string(), "x\ny\n", &regexes, &cli, false);
    assert_eq!(out.output, "f\n1: x\n2: y\n");
}

#[test]
fn count_mode_prints_path_and_count() {
    let mut cli = Cli::default();
    cli.count = true;
    let regexes = build_regex_set(&strings(&["y"]), &cli).unwrap();
    let out = process_file(&"f".to_string(), "y\ny\nn\n", &regexes, &cli, false);
    assert_eq!(out.output, "f: 2\n");
    assert_eq!(out.matches, 2);
}

#[test]
fn files_with_matches_prints_paths() {
    let mut cli = Cli::default();
    cli.files_with_matches = true;
    cli.print0 = true;
    let regexes = build_regex_set(&strings(&["y"]), &cli).unwrap();
    let out = process_file(&"f".to_string(), "y\n", &regexes, &cli, false);
    assert_eq!(out.output, "f\0");
}

#[test]
fn files_without_match_reports_only_files_without_matches() {
    let mut cli = Cli::default();
    cli.files_without_match = true;
    let regexes = build_regex_set(&strings(&["y"]), &cli).unwrap();
    let hit = process_file(&"a".to_string(), "y\n", &regexes, &cli, false);
    let miss = process_file(&"b".to_string(), "n\n", &regexes, &cli, false);
    assert!(!hit.reported);
    assert_eq!(hit.output, "");
    assert!(miss.reported);
    assert_eq!(miss.output, "b\n");
    assert_eq!(miss.matches, 0);
}

#[test]
fn json_mode_gives_records_and_no_text() {
    let mut cli = Cli::default();
    cli.json = true;
    let regexes = build_regex_set(&strings(&["y"]), &cli).unwrap();
    let out = process_file(&"f".to_string(), "n\ny\n", &regexes, &cli, false);
    assert_eq!(out.output, "");
    let record = out.record.unwrap();
    assert_eq!(record.path, "f");
    assert_eq!(record.matches, 1);
    assert_eq!(record.lines.len(), 1);
    assert_eq!(record.lines[0].line, Some(2));
    assert_eq!(record.lines[0].content, Some("y".to_string()));
    assert!(record.lines[0].matches.is_empty());
}

#[test]
fn quiet_mode_prints_nothing() {
    let mut cli = Cli::default();
    cli.quiet = true;
    let regexes = build_regex_set(&strings(&["y"]), &cli).unwrap();
    let out = process_file(&"f".to_string(), "y\n", &regexes, &cli, false);
    assert!(out.reported);
    assert_eq!(out.output, "");
    assert_eq!(exit_status(&cli, 1), Some(0));
    assert_eq!(exit_status(&cli, 0), Some(1));
    assert_eq!(exit_status(&Cli::default(), 0), None);
}

#[test]
fn listing_prints_paths_or_records() {
    let mut cli = Cli::default();
    let l = list_file(&"a/b".to_string(), &cli);
    assert_eq!(l.output, "a/b\n");
    assert!(!l.search_contents);
    cli.json = true;
    let l = list_file(&"a/b".to_string(), &cli);
    assert_eq!(l.output, "");
    assert!(l.search_contents);
    assert_eq!(l.record.unwrap().matches, 0);
}

#[test]
fn stats_summary_text() {
    let mut cli = Cli::default();
    assert_eq!(render_stats(&cli, true, 3, 1, 2, 0), "");
    cli.stats = true;
    let dashes = "-".repeat(50);
    assert_eq!(
        render_stats(&cli, true, 3, 1, 2, 0),
        format!("\n{}\nFiles scanned: 3\nFiles matched: 1\nTotal matches: 2\n", dashes)
    );
    assert_eq!(render_stats(&cli, false, 0, 0, 0, 4), format!("\n{}\nFiles scanned: 0\nFiles found: 4\n", dashes));
    assert_eq!(render_stats(&cli, false, 0, 0, 0, 0), format!("{}\nFiles scanned: 0\nFiles found: 0\n", dashes));
}

#[test]
fn numbers_are_printed_in_decimal() {
    assert_eq!(number_text(0), "0");
    assert_eq!(number_text(7), "7");
    assert_eq!(number_text(1234567890), "1234567890");
    assert_eq!(number_text(usize::MAX), usize::MAX.to_string());
}

#[test]
fn color_and_search_mode_choices() {
    assert!(use_color(ColorWhen::Always, false));
    assert!(!use_color(ColorWhen::Never, true));
    assert!(use_color(ColorWhen::Auto, true));
    assert!(!use_color(ColorWhen::Auto, false));
    let mut cli = Cli::default();
    assert!(content_search(&strings(&["x"]), &cli));
    assert!(!content_search(&vec![], &cli));
    cli.files_only = true;
    assert!(!content_search(&strings(&["x"]), &cli));
}

#[test]
fn matches_are_highlighted_in_runs() {
    let cli = Cli::default();
    let regexes = build_regex_set(&strings(&["ab", "bc"]), &cli).unwrap();
    assert_eq!(highlight_matches("xabcx", &regexes), "x\x1b[1;31mabc\x1b[0mx");
    assert_eq!(highlight_matches("none", &regexes), "none");
    let regexes = build_regex_set(&strings(&["o"]), &cli).unwrap();
    assert_eq!(highlight_matches("foo bo", &regexes), "f\x1b[1;31moo\x1b[0m b\x1b[1;31mo\x1b[0m");
    let regexes = build_regex_set(&strings(&["é"]), &cli).unwrap();
    assert_eq!(highlight_matches("café!", &regexes), "caf\x1b[1;31mé\x1b[0m!");
}

#[test]
fn passthru_highlights_matches_when_colored() {
    let mut cli = Cli::default();
    cli.passthru = true;
    cli.no_filename = true;
    let regexes = build_regex_set(&strings(&["y"]), &cli).unwrap();
    let out = process_file(&"f".to_string(), "x\nyy\n", &regexes, &cli, true);
    assert_eq!(out.output, "x\n\x1b[1;31myy\x1b[0m\n");
}
