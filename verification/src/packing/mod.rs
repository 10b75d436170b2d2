//! Rectangle bin packing.

pub mod area;
pub mod cover;
pub mod lemmas;
pub mod maxrects;
pub mod model;
pub mod rect;
pub mod size;

pub use maxrects::{MaxRectsPacker, Occupancy};
pub use rect::Rect;
pub use size::Size;
