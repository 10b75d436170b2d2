use vstd::prelude::*;
use crate::sprite::sprite::PackedSprite;

verus! {

/// A width and a height.
#[derive(Debug, Clone, Copy, PartialEq, Eq, Structural)]
pub struct JsonSize {
    pub w: u32,
    pub h: u32,
}

/// A rectangle.
#[derive(Debug, Clone, Copy, PartialEq, Eq, Structural)]
pub struct Frame {
    pub x: u32,
    pub y: u32,
    pub w: u32,
    pub h: u32,
}

/// One sprite of the JSON metadata.
#[derive(Debug, Clone)]
pub struct JsonSprite {
    pub name: String,
    /// Where the sprite lies in its atlas.
    pub frame: Frame,
    pub trimmed: bool,
    /// Where the trimmed sprite lies in its source.
    pub sprite_source_size: Frame,
    pub source_size: JsonSize,
}

/// The entry of a packed sprite whose trim offsets are not negative.
pub fn sprite_to_json(sprite: &PackedSprite) -> (js: JsonSprite)
    requires
        sprite.trim_info.offset_x >= 0,
        sprite.trim_info.offset_y >= 0,
    ensures
        js.name@ == sprite.name@,
        js.frame == (Frame { x: sprite.x, y: sprite.y, w: sprite.width, h: sprite.height }),
        js.trimmed == sprite.trim_info.spec_was_trimmed(),
        js.sprite_source_size.x == sprite.trim_info.offset_x,
        js.sprite_source_size.y == sprite.trim_info.offset_y,
        js.sprite_source_size.w == sprite.trim_info.trimmed_width,
        js.sprite_source_size.h == sprite.trim_info.trimmed_height,
        js.source_size == (JsonSize {
            w: sprite.trim_info.source_width,
            h: sprite.trim_info.source_height,
        }),
{
    let trim = &sprite.trim_info;

    JsonSprite {
        name: sprite.name.clone(),
        frame: Frame { x: sprite.x, y: sprite.y, w: sprite.width, h: sprite.height },
        trimmed: trim.was_trimmed(),
        // offset_x/offset_y are always >= 0 (pixels trimmed from left/top edge)
        sprite_source_size: Frame {
            x: trim.offset_x as u32,
            y: trim.offset_y as u32,
            w: trim.trimmed_width,
            h: trim.trimmed_height,
        },
        source_size: JsonSize { w: trim.source_width, h: trim.source_height },
    }
}

} // verus!
