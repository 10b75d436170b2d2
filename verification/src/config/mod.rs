//! Helpers for configuration files.

pub mod load;
pub mod merge;
pub mod types;

pub use load::{contains_brace_expansion, is_glob_pattern};
pub use types::CompressConfig;
pub use merge::{merge_settings, CliSettings, FileSettings, MergedSettings};
