use vstd::prelude::*;

verus! {

/// When to color the output.
#[derive(Debug, Clone, Copy, PartialEq, Eq, Structural)]
pub enum ColorWhen {
    Auto,
    Always,
    Never,
}

/// The command-line options of a search.  Durations are in nanoseconds.
pub struct Cli {
    pub directory: String,
    pub pattern: Option<String>,
    pub patterns: Vec<String>,
    pub pattern_files: Vec<String>,
    pub fixed_strings: bool,
    pub word_regexp: bool,
    pub line_regexp: bool,
    pub invert_match: bool,
    pub case_sensitive: bool,
    pub ignore_case: bool,
    pub smart_case: bool,
    pub regex: bool,
    pub globs: Vec<String>,
    pub types: Vec<String>,
    pub types_not: Vec<String>,
    pub extensions: Vec<String>,
    pub exclude_extensions: Vec<String>,
    pub exclude_dirs: Vec<String>,
    pub after_context: Option<usize>,
    pub before_context: Option<usize>,
    pub context: Option<usize>,
    pub line_number: bool,
    pub no_line_number: bool,
    pub files_with_matches: bool,
    pub files_without_match: bool,
    pub count: bool,
    pub only_matching: bool,
    pub with_filename: bool,
    pub no_filename: bool,
    pub heading: bool,
    pub no_heading: bool,
    pub passthru: bool,
    pub text: bool,
    pub hidden: bool,
    pub ignore: bool,
    pub no_ignore: bool,
    pub follow: bool,
    pub max_depth: Option<usize>,
    pub max_count: Option<usize>,
    pub min_size: Option<String>,
    pub max_size: Option<String>,
    pub changed_within: Option<u128>,
    pub changed_before: Option<u128>,
    pub files_only: bool,
    pub json: bool,
    pub stats: bool,
    pub quiet: bool,
    pub print0: bool,
    pub absolute_path: bool,
    pub color: ColorWhen,
}

impl Default for Cli {
    /// The options of a search with no flags: directory `.`, every switch
    /// off, every list empty, every optional value absent, color `auto`.
    fn default() -> (cli: Cli)
        ensures
            cli.directory@ == seq!['.'],
            cli.pattern is None,
            cli.patterns@.len() == 0,
            cli.pattern_files@.len() == 0,
            !cli.fixed_strings && !cli.word_regexp && !cli.line_regexp && !cli.invert_match,
            !cli.case_sensitive && !cli.ignore_case && !cli.smart_case && !cli.regex,
            cli.globs@.len() == 0 && cli.types@.len() == 0 && cli.types_not@.len() == 0,
            cli.extensions@.len() == 0 && cli.exclude_extensions@.len() == 0,
            cli.exclude_dirs@.len() == 0,
            cli.after_context is None && cli.before_context is None && cli.context is None,
            !cli.line_number && !cli.no_line_number && !cli.files_with_matches,
            !cli.files_without_match && !cli.count && !cli.only_matching,
            !cli.with_filename && !cli.no_filename && !cli.heading && !cli.no_heading,
            !cli.passthru && !cli.text && !cli.hidden && !cli.ignore && !cli.no_ignore,
            !cli.follow,
            cli.max_depth is None && cli.max_count is None,
            cli.min_size is None && cli.max_size is None,
            cli.changed_within is None && cli.changed_before is None,
            !cli.files_only && !cli.json && !cli.stats && !cli.quiet && !cli.print0,
            !cli.absolute_path,
            cli.color == ColorWhen::Auto,
    {
        let directory = String::from_str(".");
        proof {
            reveal_strlit(".");
        }
        Cli {
            directory,
            pattern: None,
            patterns: Vec::new(),
            pattern_files: Vec::new(),
            fixed_strings: false,
            word_regexp: false,
            line_regexp: false,
            invert_match: false,
            case_sensitive: false,
            ignore_case: false,
            smart_case: false,
            regex: false,
            globs: Vec::new(),
            types: Vec::new(),
            types_not: Vec::new(),
            extensions: Vec::new(),
            exclude_extensions: Vec::new(),
            exclude_dirs: Vec::new(),
            after_context: None,
            before_context: None,
            context: None,
            line_number: false,
            no_line_number: false,
            files_with_matches: false,
            files_without_match: false,
            count: false,
            only_matching: false,
            with_filename: false,
            no_filename: false,
            heading: false,
            no_heading: false,
            passthru: false,
            text: false,
            hidden: false,
            ignore: false,
            no_ignore: false,
            follow: false,
            max_depth: None,
            max_count: None,
            min_size: None,
            max_size: None,
            changed_within: None,
            changed_before: None,
            files_only: false,
            json: false,
            stats: false,
            quiet: false,
            print0: false,
            absolute_path: false,
            color: ColorWhen::Auto,
        }
    }
}

} // verus!
