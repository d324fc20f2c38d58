//! The decision logic of the analysis workflow; running the linter and
//! the file I/O around it belong to the glue layer.

pub mod workflow;
