//! Counts newline-delimited lines of source code under a directory tree,
//! classifies files by extension into languages, and renders per-file and
//! per-language totals sorted by size, or the grand total alone in quiet
//! mode.
//!
//! The pipeline: a walker (outside this library) enumerates files and hands
//! each path's segments and extension to [`scan::should_count`], which
//! applies the exclusion set ([`exclude::ExclusionSet`]) and the extension
//! registry ([`lang::LanguageTable`]); accepted files are read and their
//! content counted by [`count::count_newlines`]; records and per-language
//! totals accumulate in [`aggregate::Aggregator`]; [`report`] renders the
//! tables to the terminal width.

pub mod aggregate;
pub mod config;
pub mod count;
pub mod exclude;
pub mod lang;
pub mod report;
pub mod scan;
