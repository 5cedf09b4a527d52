//! A verified core for a line-oriented log analyzer.
//!
//! The library classifies log lines by severity, tallies per-level counts,
//! applies level and keyword filters, and assembles the run summary. File
//! reading, argument parsing and terminal styling live outside the library.

pub mod level;
pub mod scan;
pub mod tally;
pub mod text;
