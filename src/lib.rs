//! A rule-based analysis and fix engine over a lossless token model, and the
//! per-file capability pipeline that decides how each file is handled.

pub mod lint;
pub mod mutation;
pub mod no_double_equals;
pub mod process_file;
pub mod syntax;
