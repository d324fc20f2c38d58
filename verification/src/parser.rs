//! Decoding of the diagnostic stream's records into the warning model.

pub mod warning_parser;
