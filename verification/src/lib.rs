//! `fsrep` searches text files line by line for a regular expression.
//!
//! The crate holds the search itself: reading the arguments of a run,
//! splitting a text into lines, keeping the lines that match, and writing the
//! report. Files are read, and the report is printed, by the caller.

pub mod config;
pub mod lines;
pub mod pattern;
pub mod report;
pub mod run;
pub mod search;
pub mod style;
pub mod text;

pub use config::Config;
pub use pattern::{create_regex_expression, CompiledPattern, InvalidPattern};
pub use report::{fsrep_failure, highlight_line, highlight_regex_result, render_results};
pub use run::{
    exit_code, report_file, run_compiled, run_process, run_scans, FileReport, RunReport,
};
pub use search::{scan, search, ScanOutcome, SearchResults};
