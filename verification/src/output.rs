//! Rendering of aggregates into report text. The glue layer writes the
//! rendered strings to files or the terminal.

pub mod formatter;
pub mod report;
pub mod fix_plan;
pub mod markdown;
