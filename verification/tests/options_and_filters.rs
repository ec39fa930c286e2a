use rsdata::cli::Cli;
use rsdata::filters::{checked_file_passes_filters, is_path_excluded, limit_fits};
use rsdata::size::{apply_size_suffix, try_parse_size};
use rsdata::{builtin_file_types, file_passes_filters, format_path, is_dir_excluded, parse_size, type_to_globs};

fn strings(v: &[&str]) -> Vec<String> {
    v.iter().map(|s| s.to_string()).collect()
}

fn ext(path: &str) -> Option<String> {
    std::path::Path::new(path).extension().map(|e| e.to_string_lossy().to_string())
}

fn components(path: &str) -> Vec<String> {
    std::path::Path::new(path).components().filter_map(|c| c.as_os_str().to_str().map(String::from)).collect()
}

#[test]
fn builtin_types_cover_the_readme_aliases() {
    let defs = builtin_file_types();
    assert_eq!(defs.len(), 21);
    let names: Vec<&str> = defs.iter().map(|d| d.name.as_str()).collect();
    for alias in ["rs", "py", "js", "ts", "html", "css", "json", "toml", "yaml", "md", "c", "cpp", "java", "go", "rb", "php", "sh", "text", "min"] {
        assert!(names.contains(&alias), "missing {}", alias);
    }
    let rust = defs.iter().find(|d| d.name == "rust").unwrap();
    let rs = defs.iter().find(|d| d.name == "rs").unwrap();
    assert_eq!(rust.globs, rs.globs);
    let cpp = defs.iter().find(|d| d.name == "cpp").unwrap();
    assert_eq!(cpp.globs, strings(&["*.cpp", "*.cc", "*.hpp", "*.h"]));
}

#[test]
fn min_type_excludes_minified_files() {
    assert_eq!(type_to_globs(&strings(&["min"]), true), strings(&["*.min.js", "*.min.css"]));
    assert_eq!(type_to_globs(&strings(&["min"]), false), strings(&["!*.min.js", "!*.min.css"]));
}

#[test]
fn type_globs_follow_type_order() {
    let globs = type_to_globs(&strings(&["rs", "js"]), true);
    assert_eq!(globs, strings(&["*.rs", "*.js", "*.jsx"]));
}

#[test]
fn excluded_types_are_negated() {
    let globs = type_to_globs(&strings(&["css"]), false);
    assert_eq!(globs, strings(&["!*.css", "!*.scss", "!*.sass", "!*.less"]));
    let included = type_to_globs(&strings(&["c", "sh"]), true);
    let excluded = type_to_globs(&strings(&["c", "sh"]), false);
    let negated: Vec<String> = included.iter().map(|g| format!("!{}", g)).collect();
    assert_eq!(excluded, negated);
}

#[test]
fn unknown_type_gives_no_globs() {
    assert!(type_to_globs(&strings(&["cobol"]), true).is_empty());
    assert!(type_to_globs(&[], false).is_empty());
}

#[test]
fn size_plain_number_is_bytes() {
    assert_eq!(parse_size("10"), Ok(10));
    assert_eq!(parse_size("0"), Ok(0));
}

#[test]
fn size_suffixes_are_powers_of_1024() {
    assert_eq!(parse_size("4k"), Ok(4096));
    assert_eq!(parse_size("2M"), Ok(2 * 1024 * 1024));
    assert_eq!(parse_size("1G"), Ok(1024 * 1024 * 1024));
    assert_eq!(parse_size("3t"), Ok(3 * 1024u64.pow(4)));
    assert_eq!(parse_size("5b"), Ok(5));
    assert_eq!(parse_size("5C"), Ok(5));
}

#[test]
fn size_suffix_case_is_ignored() {
    assert_eq!(parse_size("2K"), parse_size("2k"));
    assert_eq!(parse_size("7m"), parse_size("7M"));
    // KELVIN SIGN lowercases to `k`.
    assert_eq!(parse_size("2\u{212A}"), Ok(2048));
}

#[test]
fn size_leading_signs_are_ignored() {
    assert_eq!(parse_size("+4k"), Ok(4096));
    assert_eq!(parse_size("-4k"), Ok(4096));
    assert_eq!(parse_size("+-+12"), Ok(12));
}

#[test]
fn size_digits_are_gathered_from_anywhere() {
    assert_eq!(parse_size("1k2"), Ok(12 * 1024));
}

#[test]
fn size_without_number_is_an_error() {
    assert_eq!(parse_size(""), Err("Invalid size number".to_string()));
    assert_eq!(parse_size("k"), Err("Invalid size number".to_string()));
    assert_eq!(parse_size("18446744073709551616"), Err("Invalid size number".to_string()));
}

#[test]
fn size_with_unknown_suffix_is_an_error() {
    assert_eq!(parse_size("10x"), Err("Invalid size suffix".to_string()));
    assert_eq!(parse_size("10kb"), Err("Invalid size suffix".to_string()));
}

#[test]
fn size_overflow_is_detected() {
    assert_eq!(try_parse_size("20000000T"), None);
    assert_eq!(try_parse_size("16M"), Some(Ok(16 * 1024 * 1024)));
    assert_eq!(try_parse_size("zz"), Some(Err("Invalid size number".to_string())));
    assert_eq!(apply_size_suffix(3, &"g".to_string()), Ok(3 * 1024 * 1024 * 1024));
    assert_eq!(apply_size_suffix(3, &"q".to_string()), Err("Invalid size suffix".to_string()));
}

#[test]
fn dot_entries_are_never_excluded() {
    let cli = Cli::default();
    assert!(!is_dir_excluded(".", &cli));
    assert!(!is_dir_excluded("..", &cli));
}

#[test]
fn hidden_entries_need_hidden_flag() {
    let mut cli = Cli::default();
    assert!(is_dir_excluded(".git", &cli));
    cli.hidden = true;
    assert!(!is_dir_excluded(".git", &cli));
}

#[test]
fn exclude_dir_names_are_excluded() {
    let mut cli = Cli::default();
    cli.exclude_dirs = strings(&["target", ".git"]);
    assert!(is_dir_excluded("target", &cli));
    assert!(!is_dir_excluded("src", &cli));
    cli.hidden = true;
    assert!(is_dir_excluded(".git", &cli));
}

#[test]
fn path_with_hidden_component_is_excluded() {
    let mut cli = Cli::default();
    assert!(is_path_excluded(&components("./src/.cache/x.rs"), &cli));
    assert!(!is_path_excluded(&components("./src/lib.rs"), &cli));
    cli.exclude_dirs = strings(&["src"]);
    assert!(is_path_excluded(&components("./src/lib.rs"), &cli));
}

#[test]
fn extension_filter_keeps_listed_extensions() {
    let mut cli = Cli::default();
    cli.extensions = strings(&["rs", "toml"]);
    assert!(file_passes_filters(&ext("a/b.rs"), 10, None, &cli));
    assert!(file_passes_filters(&ext("Cargo.toml"), 10, None, &cli));
    assert!(!file_passes_filters(&ext("a/b.txt"), 10, None, &cli));
    assert!(!file_passes_filters(&ext("Makefile"), 10, None, &cli));
    assert!(!file_passes_filters(&ext(".rs"), 10, None, &cli));
}

#[test]
fn exclude_extension_filter_drops_listed_extensions() {
    let mut cli = Cli::default();
    cli.exclude_extensions = strings(&["lock"]);
    assert!(!file_passes_filters(&ext("Cargo.lock"), 10, None, &cli));
    assert!(file_passes_filters(&ext("Cargo.toml"), 10, None, &cli));
    assert!(file_passes_filters(&ext("README"), 10, None, &cli));
}

#[test]
fn size_limits_filter_by_length() {
    let mut cli = Cli::default();
    cli.min_size = Some("1k".to_string());
    cli.max_size = Some("2k".to_string());
    assert!(!file_passes_filters(&ext("a"), 1023, None, &cli));
    assert!(file_passes_filters(&ext("a"), 1024, None, &cli));
    assert!(file_passes_filters(&ext("a"), 2048, None, &cli));
    assert!(!file_passes_filters(&ext("a"), 2049, None, &cli));
}

#[test]
fn invalid_size_limit_is_ignored() {
    let mut cli = Cli::default();
    cli.min_size = Some("lots".to_string());
    assert!(file_passes_filters(&ext("a"), 0, None, &cli));
}

#[test]
fn age_limits_filter_by_modification_time() {
    let hour: u128 = 3_600_000_000_000;
    let mut cli = Cli::default();
    cli.changed_within = Some(hour);
    assert!(file_passes_filters(&ext("a"), 1, Some(hour / 2), &cli));
    assert!(!file_passes_filters(&ext("a"), 1, Some(2 * hour), &cli));
    assert!(file_passes_filters(&ext("a"), 1, None, &cli));
    let mut cli = Cli::default();
    cli.changed_before = Some(hour);
    assert!(!file_passes_filters(&ext("a"), 1, Some(hour / 2), &cli));
    assert!(file_passes_filters(&ext("a"), 1, Some(2 * hour), &cli));
}

#[test]
fn overflowing_size_limit_is_reported() {
    let mut cli = Cli::default();
    cli.max_size = Some("99999999999T".to_string());
    assert!(!limit_fits(&cli.max_size));
    assert_eq!(checked_file_passes_filters(&ext("a"), 1, None, &cli), None);
    cli.max_size = Some("9T".to_string());
    assert!(limit_fits(&cli.max_size));
    assert_eq!(checked_file_passes_filters(&ext("a"), 1, None, &cli), Some(true));
}

#[test]
fn overflowing_limit_is_not_read_for_rejected_files() {
    let mut cli = Cli::default();
    cli.min_size = Some("16777216T".to_string());
    cli.max_size = Some("16777216T".to_string());
    cli.extensions = strings(&["rs"]);
    assert_eq!(checked_file_passes_filters(&ext("a.py"), 1, None, &cli), Some(false));
    assert_eq!(checked_file_passes_filters(&ext("a.rs"), 1, None, &cli), None);
    let mut cli = Cli::default();
    cli.exclude_extensions = strings(&["py"]);
    cli.min_size = Some("16777216T".to_string());
    assert_eq!(checked_file_passes_filters(&ext("a.py"), 1, None, &cli), Some(false));
    let mut cli = Cli::default();
    cli.min_size = Some("1k".to_string());
    cli.max_size = Some("16777216T".to_string());
    assert_eq!(checked_file_passes_filters(&ext("a"), 10, None, &cli), Some(false));
    assert_eq!(checked_file_passes_filters(&ext("a"), 2000, None, &cli), None);
    assert!(file_passes_filters(&ext("a"), 10, None, &cli) == false);
}

#[test]
fn absolute_path_uses_canonical_form() {
    let mut cli = Cli::default();
    assert_eq!(format_path("./a.rs", Some("/x/a.rs".to_string()), &cli), "./a.rs");
    cli.absolute_path = true;
    assert_eq!(format_path("./a.rs", Some("/x/a.rs".to_string()), &cli), "/x/a.rs");
    assert_eq!(format_path("./a.rs", None, &cli), "./a.rs");
}
