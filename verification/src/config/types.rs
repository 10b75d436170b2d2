use vstd::prelude::*;
use crate::cli::CompressionLevel;

verus! {

/// PNG compression level as a configuration file gives it.
#[derive(Debug, Clone)]
pub enum CompressConfig {
    /// Optimization level 0-6
    Level(u8),
    /// Maximum compression ("max")
    Max(String),
}

impl CompressConfig {
    /// The compression level that the configuration asks for.
    pub fn level(&self) -> (l: CompressionLevel)
        ensures
            l == (match *self {
                CompressConfig::Level(n) => CompressionLevel::Level(n),
                CompressConfig::Max(_) => CompressionLevel::Max,
            }),
    {
        match self {
            CompressConfig::Level(n) => CompressionLevel::Level(*n),
            CompressConfig::Max(_) => CompressionLevel::Max,
        }
    }
}

} // verus!
