//! Recursive file search with content matching: the decisions of the
//! `rsdata` search tool (which files to search, what to search them for,
//! which lines match, and what to print), with their contracts.

pub mod cli;
pub mod context;
pub mod filetypes;
pub mod filters;
pub mod globs;
pub mod highlight;
pub mod matcher;
pub mod patterns;
pub mod render;
pub mod report;
pub mod scan;
pub mod size;
pub mod summary;
pub mod text;

pub use cli::{Cli, ColorWhen};
pub use filetypes::{builtin_file_types, type_to_globs, FileTypeDef};
pub use filters::{file_passes_filters, format_path, is_dir_excluded};
pub use globs::build_glob_set;
pub use matcher::{build_regex_set, match_content, Matcher};
pub use patterns::parse_patterns;
pub use report::{FileResult, MatchInfo};
pub use size::parse_size;
