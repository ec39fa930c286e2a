use rsdata::cli::Cli;
use rsdata::globs::{collect_globs, path_passes_globs};
use rsdata::matcher::{build_regex_source, combine_matches};
use rsdata::{build_glob_set, build_regex_set, match_content, parse_patterns};

fn strings(v: &[&str]) -> Vec<String> {
    v.iter().map(|s| s.to_string()).collect()
}

fn search(patterns: &[&str], cli: &Cli, line: &str) -> (bool, Vec<String>) {
    let regexes = build_regex_set(&strings(patterns), cli).unwrap();
    match_content(line, &regexes, cli)
}

#[test]
fn regex_patterns_match_as_regexes() {
    let cli = Cli::default();
    assert_eq!(search(&["a.b"], &cli, "axb a.b"), (true, strings(&["axb", "a.b"])));
    assert_eq!(search(&["z+"], &cli, "abc"), (false, vec![]));
}

#[test]
fn fixed_strings_match_literally() {
    let mut cli = Cli::default();
    cli.fixed_strings = true;
    assert_eq!(search(&["a.b"], &cli, "axb a.b"), (true, strings(&["a.b"])));
    assert_eq!(search(&["(x)"], &cli, "f(x) = 1"), (true, strings(&["(x)"])));
}

#[test]
fn word_regexp_needs_word_boundaries() {
    let mut cli = Cli::default();
    cli.word_regexp = true;
    assert_eq!(search(&["foo"], &cli, "foobar foo"), (true, strings(&["foo"])));
    assert_eq!(search(&["foo"], &cli, "foobar"), (false, vec![]));
}

#[test]
fn line_regexp_needs_the_whole_line() {
    let mut cli = Cli::default();
    cli.line_regexp = true;
    assert_eq!(search(&["foo"], &cli, "foo"), (true, strings(&["foo"])));
    assert_eq!(search(&["foo"], &cli, "foo bar"), (false, vec![]));
}

#[test]
fn smart_case_is_the_default() {
    let cli = Cli::default();
    assert_eq!(search(&["foo"], &cli, "FOO"), (true, strings(&["FOO"])));
    assert_eq!(search(&["Foo"], &cli, "foo"), (false, vec![]));
    assert_eq!(search(&["Foo"], &cli, "Foo"), (true, strings(&["Foo"])));
    // One uppercase pattern makes every pattern case-sensitive.
    assert_eq!(search(&["bar", "Foo"], &cli, "BAR"), (false, vec![]));
}

#[test]
fn case_sensitive_and_ignore_case_flags() {
    let mut cli = Cli::default();
    cli.case_sensitive = true;
    assert_eq!(search(&["foo"], &cli, "FOO"), (false, vec![]));
    let mut cli = Cli::default();
    cli.ignore_case = true;
    assert_eq!(search(&["Foo"], &cli, "fOO"), (true, strings(&["fOO"])));
}

#[test]
fn regex_sources_are_built_as_documented() {
    let mut cli = Cli::default();
    cli.fixed_strings = true;
    cli.word_regexp = true;
    assert_eq!(build_regex_source(&"a+b".to_string(), &cli, true), "(?i)\\ba\\+b\\b");
    cli.word_regexp = false;
    cli.line_regexp = true;
    assert_eq!(build_regex_source(&"x".to_string(), &cli, false), "^x$");
    cli.case_sensitive = true;
    assert_eq!(build_regex_source(&"x".to_string(), &cli, true), "^x$");
}

#[test]
fn invalid_regex_is_an_error() {
    let cli = Cli::default();
    assert!(build_regex_set(&strings(&["("]), &cli).is_err());
    assert!(build_regex_set(&strings(&["ok", "[z"]), &cli).is_err());
    assert_eq!(build_regex_set(&[], &cli).map(|v| v.len()).ok(), Some(0));
}

#[test]
fn multiple_patterns_are_alternatives() {
    let cli = Cli::default();
    assert_eq!(search(&["todo", "fixme"], &cli, "fixme: later"), (true, strings(&["fixme"])));
    assert_eq!(search(&["a", "b"], &cli, "ba"), (true, strings(&["a", "b"])));
}

#[test]
fn invert_match_flips_and_drops_texts() {
    let mut cli = Cli::default();
    cli.invert_match = true;
    assert_eq!(search(&["foo"], &cli, "foo"), (false, vec![]));
    assert_eq!(search(&["foo"], &cli, "bar"), (true, vec![]));
    assert_eq!(combine_matches(vec![vec![], strings(&["x"])], false), (true, strings(&["x"])));
    assert_eq!(combine_matches(vec![vec![], strings(&["x"])], true), (false, vec![]));
    assert_eq!(combine_matches(vec![], true), (true, vec![]));
}

#[test]
fn globs_split_into_selecting_and_excluding() {
    let (wanted, unwanted) = build_glob_set(&strings(&["*.rs", "!*test*"])).unwrap();
    assert!(!wanted.is_empty());
    assert!(!unwanted.is_empty());
    let sets = Some((wanted, unwanted));
    assert!(path_passes_globs("src/lib.rs", &sets));
    assert!(!path_passes_globs("src/lib_test.rs", &sets));
    assert!(!path_passes_globs("src/lib.py", &sets));
    assert!(path_passes_globs("anything", &None));
}

#[test]
fn only_exclusions_let_other_files_through() {
    let (wanted, unwanted) = build_glob_set(&strings(&["!*.min.js"])).unwrap();
    assert!(wanted.is_empty());
    let sets = Some((wanted, unwanted));
    assert!(path_passes_globs("app.js", &sets));
    assert!(!path_passes_globs("app.min.js", &sets));
}

#[test]
fn js_without_minified_files() {
    let mut cli = Cli::default();
    cli.types = strings(&["js"]);
    cli.types_not = strings(&["min"]);
    let (wanted, unwanted) = build_glob_set(&collect_globs(&cli)).unwrap();
    let sets = Some((wanted, unwanted));
    assert!(path_passes_globs("app.js", &sets));
    assert!(path_passes_globs("view.jsx", &sets));
    assert!(!path_passes_globs("app.min.js", &sets));
    assert!(!path_passes_globs("style.min.css", &sets));
    assert!(!path_passes_globs("style.css", &sets));
}

#[test]
fn invalid_glob_is_an_error() {
    assert!(build_glob_set(&strings(&["a[b"])).is_err());
    assert!(build_glob_set(&strings(&["!{x"])).is_err());
}

#[test]
fn all_globs_gather_globs_and_types() {
    let mut cli = Cli::default();
    cli.globs = strings(&["*.txt"]);
    cli.types = strings(&["go"]);
    cli.types_not = strings(&["md"]);
    assert_eq!(collect_globs(&cli), strings(&["*.txt", "*.go", "!*.md", "!*.markdown"]));
}

#[test]
fn patterns_come_from_flags_then_files() {
    let mut cli = Cli::default();
    cli.pattern = Some("p".to_string());
    cli.patterns = strings(&["e1", "e2"]);
    let file = b"a\r\n\nb\n\xff\xfe\nc".to_vec();
    let pats = parse_patterns(&cli, &vec![file, b"last\n".to_vec()]);
    assert_eq!(pats, strings(&["p", "e1", "e2", "a", "b", "c", "last"]));
}

#[test]
fn pattern_file_lines_keep_a_lone_carriage_return() {
    let cli = Cli::default();
    let pats = parse_patterns(&cli, &vec![b"x\r".to_vec(), b"\r\n\r\n".to_vec(), Vec::new()]);
    assert_eq!(pats, strings(&["x\r"]));
}
