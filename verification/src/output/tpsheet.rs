use vstd::prelude::*;
use crate::sprite::sprite::PackedSprite;

verus! {

/// Where a sprite lies in its atlas.
#[derive(Debug, Clone, Copy, PartialEq, Eq, Structural)]
pub struct TpRegion {
    pub x: u32,
    pub y: u32,
    pub w: u32,
    pub h: u32,
}

/// What trimming took away: the offset of the trimmed sprite in its
/// source, and how much narrower and lower it is.
#[derive(Debug, Clone, Copy, PartialEq, Eq, Structural)]
pub struct TpMargin {
    pub x: i32,
    pub y: i32,
    pub w: u32,
    pub h: u32,
}

/// One sprite of a `.tpsheet` file.
#[derive(Debug, Clone)]
pub struct TpSprite {
    pub filename: String,
    pub region: TpRegion,
    pub margin: TpMargin,
}

/// The entry of a packed sprite whose trimmed size does not exceed its
/// source size.
pub fn sprite_to_tpsprite(sprite: &PackedSprite) -> (tp: TpSprite)
    requires
        sprite.trim_info.trimmed_width <= sprite.trim_info.source_width,
        sprite.trim_info.trimmed_height <= sprite.trim_info.source_height,
    ensures
        tp.filename@ == sprite.name@,
        tp.region == (TpRegion { x: sprite.x, y: sprite.y, w: sprite.width, h: sprite.height }),
        tp.margin.x == sprite.trim_info.offset_x,
        tp.margin.y == sprite.trim_info.offset_y,
        tp.margin.w == sprite.trim_info.source_width - sprite.trim_info.trimmed_width,
        tp.margin.h == sprite.trim_info.source_height - sprite.trim_info.trimmed_height,
{
    let trim = &sprite.trim_info;

    TpSprite {
        filename: sprite.name.clone(),
        region: TpRegion { x: sprite.x, y: sprite.y, w: sprite.width, h: sprite.height },
        margin: TpMargin {
            x: trim.offset_x,
            y: trim.offset_y,
            w: trim.source_width - trim.trimmed_width,
            h: trim.source_height - trim.trimmed_height,
        },
    }
}

} // verus!
