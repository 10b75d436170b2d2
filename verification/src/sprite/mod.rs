//! Sprites before and after packing.

pub mod loader;
pub mod sprite;
pub mod trimmer;

pub use sprite::{PackedSprite, SourceSprite, TrimInfo};
pub use trimmer::trim_sprite;
pub use loader::is_supported_extension;
