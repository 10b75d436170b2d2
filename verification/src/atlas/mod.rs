//! Building atlases out of sprites.

pub mod builder;
pub mod laws;
pub mod layout;
pub mod order;
pub mod plan;
pub mod pow2;
pub mod render;
pub mod types;

pub use builder::AtlasBuilder;
pub use layout::Layout;
pub use order::SpriteOrder;
pub use plan::Placement;
pub use pow2::next_power_of_two;
pub use types::Atlas;
