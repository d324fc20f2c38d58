//! Aggregation, trend comparison and chart rendering.

pub mod charts;
pub mod trends;
pub mod statistics;
