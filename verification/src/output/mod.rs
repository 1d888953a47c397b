//! What a run shows: host lines, summaries and reports.

pub mod printer;
pub mod report;
pub mod summary;
