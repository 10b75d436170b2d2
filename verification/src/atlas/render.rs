//! Drawing sprites onto the canvas of an atlas: the extruded rim first,
//! then the sprite itself.

use vstd::prelude::*;
use crate::atlas::plan::Placement;
use crate::bitmap::{bitmap_pixels, composite, Bitmap, BitmapView, Color};
use crate::sprite::sprite::SourceSprite;

verus! {

/// How far `p` lies outside the interval that begins at `start` and is
/// `len` long; 0 inside it.
pub open spec fn outside(p: int, start: int, len: int) -> int {
    if p < start {
        start - p
    } else if p >= start + len {
        p - (start + len - 1)
    } else {
        0
    }
}

/// The position in `0..len` nearest to `p - start`.
pub open spec fn clamp_to(p: int, start: int, len: int) -> int {
    if p < start {
        0
    } else if p >= start + len {
        len - 1
    } else {
        p - start
    }
}

/// `(px, py)` belongs to the extruded rim of a `w` x `h` sprite at `(x,
/// y)`: it lies straight above, below, left or right of the sprite, at most
/// `extrude` pixels away, or diagonally off one of its corners, at most
/// `extrude` steps away.
pub open spec fn in_rim(px: int, py: int, x: int, y: int, w: int, h: int, extrude: int) -> bool {
    let dx = outside(px, x, w);
    let dy = outside(py, y, h);
    &&& w > 0
    &&& h > 0
    &&& {
        ||| dx == 0 && 1 <= dy <= extrude
        ||| dy == 0 && 1 <= dx <= extrude
        ||| dx == dy && 1 <= dx <= extrude
    }
}

/// The pixel at `(px, py)` after the rim of the sprite at `(x, y)` was
/// drawn over a pixel of colour `base`: in the rim, the nearest pixel of
/// the sprite's outer ring; elsewhere `base`.
pub open spec fn extruded_color(
    base: Color,
    sprite: BitmapView,
    x: int,
    y: int,
    extrude: int,
    px: int,
    py: int,
) -> Color {
    if in_rim(px, py, x, y, sprite.width as int, sprite.height as int, extrude) {
        sprite.at(clamp_to(px, x, sprite.width as int), clamp_to(py, y, sprite.height as int))
    } else {
        base
    }
}

/// The pixel at `(px, py)` after the sprite at `(x, y)` was drawn with its
/// rim over a pixel of colour `base`.
pub open spec fn drawn_color(
    base: Color,
    sprite: BitmapView,
    x: int,
    y: int,
    extrude: int,
    px: int,
    py: int,
) -> Color {
    let under = extruded_color(base, sprite, x, y, extrude, px, py);
    if sprite.has(px - x, py - y) {
        composite(under, sprite.at(px - x, py - y))
    } else {
        under
    }
}

/// The pixel at `(px, py)` of a canvas that began transparent, after the
/// first `n` placements were drawn, each sprite `border` pixels inside its
/// reserved area.
pub open spec fn rendered_color(
    sprites: Seq<SourceSprite>,
    placements: Seq<Placement>,
    border: int,
    extrude: int,
    n: int,
    px: int,
    py: int,
) -> Color
    decreases n,
{
    if n <= 0 {
        Color { r: 0, g: 0, b: 0, a: 0 }
    } else {
        drawn_color(
            rendered_color(sprites, placements, border, extrude, n - 1, px, py),
            sprites[placements[n - 1].index as int].image@,
            placements[n - 1].rect.x + border,
            placements[n - 1].rect.y + border,
            extrude,
            px,
            py,
        )
    }
}

fn distance_outside(p: u32, start: u32, len: u32) -> (d: u64)
    ensures
        d == outside(p as int, start as int, len as int),
{
    if p < start {
        (start - p) as u64
    } else if p as u64 >= start as u64 + len as u64 {
        p as u64 + 1 - (start as u64 + len as u64)
    } else {
        0
    }
}

fn clamp_into(p: u32, start: u32, len: u32) -> (c: u32)
    requires
        len > 0,
    ensures
        c == clamp_to(p as int, start as int, len as int),
        c < len,
{
    if p < start {
        0
    } else if p as u64 >= start as u64 + len as u64 {
        len - 1
    } else {
        p - start
    }
}

/// Draw the rim pixels of the sprite at `(x, y)` that lie in the box from
/// `(x0, y0)` to `(x1, y1)`; pixels that fall outside the canvas are skipped.
fn extrude_box(
    canvas: &mut Bitmap,
    sprite: &Bitmap,
    x: u32,
    y: u32,
    extrude: u32,
    x0: u32,
    y0: u32,
    x1: u32,
    y1: u32,
)
    requires
        sprite@.width > 0,
        sprite@.height > 0,
    ensures
        final(canvas)@.width == old(canvas)@.width,
        final(canvas)@.height == old(canvas)@.height,
        forall|px: int, py: int|
            old(canvas)@.has(px, py) ==> #[trigger] final(canvas)@.at(px, py) == (if x0 <= px < x1
                && y0 <= py < y1 {
                extruded_color(
                    old(canvas)@.at(px, py),
                    sprite@,
                    x as int,
                    y as int,
                    extrude as int,
                    px,
                    py,
                )
            } else {
                old(canvas)@.at(px, py)
            }),
{
    let w: u32 = sprite.width();
    let h: u32 = sprite.height();
    let width: u32 = canvas.width();
    let height: u32 = canvas.height();
    let right: u32 = if x1 < width { x1 } else { width };
    let bottom: u32 = if y1 < height { y1 } else { height };
    let mut py: u32 = y0;
    while py < bottom
        invariant
            w == sprite@.width,
            h == sprite@.height,
            w > 0,
            h > 0,
            canvas@.width == old(canvas)@.width,
            canvas@.height == old(canvas)@.height,
            width == canvas@.width,
            height == canvas@.height,
            right <= width,
            bottom <= height,
            right == (if x1 < width { x1 } else { width }),
            bottom == (if y1 < height { y1 } else { height }),
            y0 <= py,
            py <= bottom || py == y0,
            forall|qx: int, qy: int|
                old(canvas)@.has(qx, qy) ==> #[trigger] canvas@.at(qx, qy) == (if x0 <= qx < x1
                    && y0 <= qy < py {
                    extruded_color(
                        old(canvas)@.at(qx, qy),
                        sprite@,
                        x as int,
                        y as int,
                        extrude as int,
                        qx,
                        qy,
                    )
                } else {
                    old(canvas)@.at(qx, qy)
                }),
        decreases bottom - py,
    {
        let dy: u64 = distance_outside(py, y, h);
        let mut px: u32 = x0;
        while px < right
            invariant
                w == sprite@.width,
                h == sprite@.height,
                w > 0,
                h > 0,
                canvas@.width == old(canvas)@.width,
                canvas@.height == old(canvas)@.height,
                width == canvas@.width,
                height == canvas@.height,
                right <= width,
                right == (if x1 < width { x1 } else { width }),
                y0 <= py < bottom,
                bottom <= height,
                x0 <= px,
                px <= right || px == x0,
                dy == outside(py as int, y as int, h as int),
                forall|qx: int, qy: int|
                    old(canvas)@.has(qx, qy) ==> #[trigger] canvas@.at(qx, qy) == (if x0 <= qx
                        < x1 && (y0 <= qy < py || (qy == py && qx < px)) {
                        extruded_color(
                            old(canvas)@.at(qx, qy),
                            sprite@,
                            x as int,
                            y as int,
                            extrude as int,
                            qx,
                            qy,
                        )
                    } else {
                        old(canvas)@.at(qx, qy)
                    }),
            decreases right - px,
        {
            let dx: u64 = distance_outside(px, x, w);
            let limit: u64 = extrude as u64;
            let in_rim_here: bool = (dx == 0 && 1 <= dy && dy <= limit) || (dy == 0 && 1 <= dx
                && dx <= limit) || (dx == dy && 1 <= dx && dx <= limit);
            if in_rim_here {
                let color: Color = sprite.read_pixel(clamp_into(px, x, w), clamp_into(py, y, h));
                let ghost before = canvas@;
                canvas.write_pixel(px, py, color);
                assert forall|qx: int, qy: int| old(canvas)@.has(qx, qy) implies #[trigger] canvas@.at(
                    qx,
                    qy,
                ) == (if x0 <= qx < x1 && (y0 <= qy < py || (qy == py && qx < px + 1)) {
                    extruded_color(
                        old(canvas)@.at(qx, qy),
                        sprite@,
                        x as int,
                        y as int,
                        extrude as int,
                        qx,
                        qy,
                    )
                } else {
                    old(canvas)@.at(qx, qy)
                }) by {
                    if qx == px && qy == py {
                    } else {
                        assert((qx, qy) != (px as int, py as int));
                        assert(canvas@.at(qx, qy) == before.at(qx, qy));
                    }
                }
            }
            px += 1;
        }
        py += 1;
    }
}

/// Replicate the outer pixel ring of a sprite at `(x, y)` outward,
/// `extrude` times: its top, bottom, left and right edges, and its four
/// corners along the diagonals. Pixels that would fall outside the canvas
/// are skipped; no other pixel changes.
pub fn extrude_sprite(canvas: &mut Bitmap, sprite: &Bitmap, x: u32, y: u32, extrude: u32)
    ensures
        final(canvas)@.width == old(canvas)@.width,
        final(canvas)@.height == old(canvas)@.height,
        forall|px: int, py: int|
            old(canvas)@.has(px, py) ==> #[trigger] final(canvas)@.at(px, py) == extruded_color(
                old(canvas)@.at(px, py),
                sprite@,
                x as int,
                y as int,
                extrude as int,
                px,
                py,
            ),
{
    let w: u32 = sprite.width();
    let h: u32 = sprite.height();
    if extrude == 0 || w == 0 || h == 0 {
        return ;
    }
    let left: u32 = if x >= extrude { x - extrude } else { 0 };
    let top: u32 = if y >= extrude { y - extrude } else { 0 };
    let right: u32 = x.saturating_add(w);
    let bottom: u32 = y.saturating_add(h);
    let far_right: u32 = right.saturating_add(extrude);
    let far_bottom: u32 = bottom.saturating_add(extrude);
    // above, below, left of and right of the sprite
    extrude_box(canvas, sprite, x, y, extrude, left, top, far_right, y);
    extrude_box(canvas, sprite, x, y, extrude, left, bottom, far_right, far_bottom);
    extrude_box(canvas, sprite, x, y, extrude, left, y, x, bottom);
    extrude_box(canvas, sprite, x, y, extrude, right, y, far_right, bottom);
}

/// Draw a sprite at `(x, y)`: its extruded rim, then the sprite itself
/// over it. What falls outside the canvas is left out.
pub fn draw_sprite(canvas: &mut Bitmap, sprite: &Bitmap, x: u32, y: u32, extrude: u32)
    ensures
        final(canvas)@.width == old(canvas)@.width,
        final(canvas)@.height == old(canvas)@.height,
        forall|px: int, py: int|
            old(canvas)@.has(px, py) ==> #[trigger] final(canvas)@.at(px, py) == drawn_color(
                old(canvas)@.at(px, py),
                sprite@,
                x as int,
                y as int,
                extrude as int,
                px,
                py,
            ),
{
    // Handle extrusion
    if extrude > 0 {
        extrude_sprite(canvas, sprite, x, y, extrude);
    }
    let ghost under = canvas@;
    // Copy sprite image
    canvas.overlay_buffer(sprite, x, y);
    assert forall|px: int, py: int| old(canvas)@.has(px, py) implies #[trigger] canvas@.at(
        px,
        py,
    ) == drawn_color(
        old(canvas)@.at(px, py),
        sprite@,
        x as int,
        y as int,
        extrude as int,
        px,
        py,
    ) by {
        assert(under.has(px, py));
        assert(under.at(px, py) == extruded_color(
            old(canvas)@.at(px, py),
            sprite@,
            x as int,
            y as int,
            extrude as int,
            px,
            py,
        ));
        assert(canvas@.at(px, py) == bitmap_pixels(*canvas)[(px, py)]);
    }
}

} // verus!
