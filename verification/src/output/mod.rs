//! Metadata that describes packed sprites to the consumers of an atlas.

pub mod godot;
pub mod json;
pub mod tpsheet;

pub use godot::generate_tres;
pub use json::sprite_to_json;
pub use tpsheet::sprite_to_tpsprite;
