//! Classification-and-analytics engine for streams of build and lint
//! diagnostics.
//!
//! The crate decodes structured diagnostic records into a uniform [`types::Warning`]
//! model, classifies each warning into a quality taxonomy, folds collections of
//! warnings into aggregate statistics, compares a run against historical runs,
//! and renders labeled distributions as proportional text charts. All of the
//! engine's logic is verified; reading the diagnostic stream, invoking the
//! linter and writing report files are left to the surrounding glue layer.

pub mod types;
pub mod text;
pub mod counts;
pub mod colors;
pub mod clock;
pub mod parser;
pub mod analysis;
pub mod fixes;
pub mod output;
pub mod runner;
