use vstd::prelude::*;
use crate::bitmap::Bitmap;
use crate::packing::size::Size;

verus! {

#[verifier::external_type_specification]
#[verifier::external_body]
pub struct ExPathBuf(std::path::PathBuf);

/// Trimming information to reconstruct original sprite positioning
#[derive(Debug, Clone, Copy, Default, PartialEq, Eq, Structural)]
pub struct TrimInfo {
    /// Pixels trimmed from left edge
    pub offset_x: i32,
    /// Pixels trimmed from top edge
    pub offset_y: i32,
    /// Original width before trimming
    pub source_width: u32,
    /// Original height before trimming
    pub source_height: u32,
    /// Trimmed width
    pub trimmed_width: u32,
    /// Trimmed height
    pub trimmed_height: u32,
}

impl TrimInfo {
    /// The trim info of a sprite that was not trimmed.
    pub open spec fn spec_untrimmed(width: u32, height: u32) -> TrimInfo {
        TrimInfo {
            offset_x: 0,
            offset_y: 0,
            source_width: width,
            source_height: height,
            trimmed_width: width,
            trimmed_height: height,
        }
    }

    pub open spec fn spec_was_trimmed(self) -> bool {
        self.trimmed_width != self.source_width || self.trimmed_height != self.source_height
    }

    /// Pixels trimmed from the right edge.
    pub open spec fn margin_right(self) -> int {
        self.source_width - self.trimmed_width - self.offset_x
    }

    /// Pixels trimmed from the bottom edge.
    pub open spec fn margin_bottom(self) -> int {
        self.source_height - self.trimmed_height - self.offset_y
    }

    /// The right and bottom margins are `i32` values.
    pub open spec fn spec_margins_fit(self) -> bool {
        &&& i32::MIN <= self.margin_right() <= i32::MAX
        &&& i32::MIN <= self.margin_bottom() <= i32::MAX
    }

    /// Create TrimInfo for an untrimmed sprite
    pub fn untrimmed(width: u32, height: u32) -> (t: Self)
        ensures
            t == Self::spec_untrimmed(width, height),
    {
        Self {
            offset_x: 0,
            offset_y: 0,
            source_width: width,
            source_height: height,
            trimmed_width: width,
            trimmed_height: height,
        }
    }

    /// Returns true if the sprite was actually trimmed
    pub fn was_trimmed(&self) -> (b: bool)
        ensures
            b == self.spec_was_trimmed(),
    {
        self.trimmed_width != self.source_width || self.trimmed_height != self.source_height
    }

    /// Whether the right and bottom margins are `i32` values.
    pub fn margins_fit(&self) -> (b: bool)
        ensures
            b == self.spec_margins_fit(),
    {
        let right: i64 = self.source_width as i64 - self.trimmed_width as i64
            - self.offset_x as i64;
        let bottom: i64 = self.source_height as i64 - self.trimmed_height as i64
            - self.offset_y as i64;
        -0x8000_0000 <= right && right <= 0x7FFF_FFFF && -0x8000_0000 <= bottom && bottom
            <= 0x7FFF_FFFF
    }

    /// Calculate Godot margin values (left, top, right, bottom)
    pub fn godot_margin(&self) -> (m: (i32, i32, i32, i32))
        requires
            self.spec_margins_fit(),
        ensures
            m.0 == self.offset_x,
            m.1 == self.offset_y,
            m.2 == self.margin_right(),
            m.3 == self.margin_bottom(),
    {
        let right: i64 = self.source_width as i64 - self.trimmed_width as i64
            - self.offset_x as i64;
        let bottom: i64 = self.source_height as i64 - self.trimmed_height as i64
            - self.offset_y as i64;
        (self.offset_x, self.offset_y, right as i32, bottom as i32)
    }
}

/// Represents a source sprite before packing
#[derive(Debug)]
pub struct SourceSprite {
    /// Original file path
    pub path: std::path::PathBuf,
    /// Unique identifier (typically filename without extension)
    pub name: String,
    /// Trimmed image data (transparent borders removed if trimming enabled)
    pub image: Bitmap,
    /// Trim metadata for offset reconstruction
    pub trim_info: TrimInfo,
}

impl SourceSprite {
    /// Width and height of the sprite's image.
    pub open spec fn spec_size(self) -> Size {
        Size { width: self.image@.width, height: self.image@.height }
    }

    /// Width of the sprite (after trimming)
    pub fn width(&self) -> (w: u32)
        ensures
            w == self.image@.width,
    {
        self.image.width()
    }

    /// Height of the sprite (after trimming)
    pub fn height(&self) -> (h: u32)
        ensures
            h == self.image@.height,
    {
        self.image.height()
    }

    /// Width and height of the sprite (after trimming)
    pub fn size(&self) -> (s: Size)
        ensures
            s == self.spec_size(),
    {
        Size::new(self.image.width(), self.image.height())
    }
}

/// Result of placing a sprite in the atlas
#[derive(Debug, Clone)]
pub struct PackedSprite {
    /// Reference to source sprite name
    pub name: String,
    /// Position in atlas (x coordinate)
    pub x: u32,
    /// Position in atlas (y coordinate)
    pub y: u32,
    /// Width in atlas
    pub width: u32,
    /// Height in atlas
    pub height: u32,
    /// Original trim info for offset calculation
    pub trim_info: TrimInfo,
    /// Index of atlas this sprite belongs to
    pub atlas_index: usize,
}

} // verus!
