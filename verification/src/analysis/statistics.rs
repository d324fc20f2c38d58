//! Folding warning collections into aggregate statistics.

pub mod safety;
pub mod performance;
pub mod style;
pub mod documentation;
pub mod warning;

