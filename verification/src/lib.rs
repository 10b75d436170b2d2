//! Texture-atlas packing: rectangles, a MaxRects bin packer and the atlas
//! builder that searches over heuristics and sprite orderings.

pub mod atlas;
pub mod bitmap;
pub mod cli;
pub mod config;
pub mod error;
pub mod output;
pub mod packing;
pub mod sprite;
pub mod text;

pub use atlas::{Atlas, AtlasBuilder};
pub use cli::{CompressionLevel, OutputFormat, PackMode, PackingHeuristic};
pub use error::BentoError;
pub use packing::Rect;
pub use sprite::{PackedSprite, SourceSprite, TrimInfo};
