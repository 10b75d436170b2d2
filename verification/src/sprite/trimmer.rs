use vstd::prelude::*;
use crate::bitmap::{Bitmap, BitmapView, Color};
use crate::sprite::sprite::TrimInfo;

verus! {

/// The pixel at `(x, y)` is not fully transparent.
pub open spec fn visible_at(img: BitmapView, x: int, y: int) -> bool {
    img.has(x, y) && img.at(x, y).a > 0
}

/// Some pixel of the image is not fully transparent.
pub open spec fn has_content(img: BitmapView) -> bool {
    exists|x: int, y: int| visible_at(img, x, y)
}

/// The box from `(min_x, min_y)` to `(max_x, max_y)`, corners included,
/// is the bounding box of the pixels that are not fully transparent: each
/// of its four sides holds such a pixel, and none lies outside it.
pub open spec fn is_content_box(
    img: BitmapView,
    min_x: int,
    min_y: int,
    max_x: int,
    max_y: int,
) -> bool {
    &&& 0 <= min_x <= max_x < img.width
    &&& 0 <= min_y <= max_y < img.height
    &&& exists|y: int| visible_at(img, min_x, y)
    &&& exists|y: int| visible_at(img, max_x, y)
    &&& exists|x: int| visible_at(img, x, min_y)
    &&& exists|x: int| visible_at(img, x, max_y)
    &&& forall|x: int, y: int|
        visible_at(img, x, y) ==> min_x <= x <= max_x && min_y <= y <= max_y
}

/// The box grown by `margin` pixels on every side, as far as the image
/// reaches.
pub open spec fn grown_left(min: int, margin: int) -> int {
    if min >= margin {
        min - margin
    } else {
        0
    }
}

/// The far side of the box grown by `margin` pixels, as far as the image
/// reaches.
pub open spec fn grown_right(max: int, margin: int, limit: int) -> int {
    if max + margin < limit {
        max + margin
    } else {
        limit - 1
    }
}

/// `trimmed` is the part of `img` from `(left, top)` to `(right, bottom)`,
/// corners included, and `info` says where it lies in `img`.
pub open spec fn is_cut(
    trimmed: BitmapView,
    info: TrimInfo,
    img: BitmapView,
    left: int,
    top: int,
    right: int,
    bottom: int,
) -> bool {
    &&& trimmed.width == right - left + 1
    &&& trimmed.height == bottom - top + 1
    &&& forall|x: int, y: int|
        trimmed.has(x, y) ==> #[trigger] trimmed.at(x, y) == img.at(left + x, top + y)
    &&& info.offset_x == left as i32
    &&& info.offset_y == top as i32
    &&& info.source_width == img.width
    &&& info.source_height == img.height
    &&& info.trimmed_width == trimmed.width
    &&& info.trimmed_height == trimmed.height
}

/// `trimmed` is what stands for an image without content: one transparent
/// pixel.
pub open spec fn is_placeholder(trimmed: BitmapView, info: TrimInfo, img: BitmapView) -> bool {
    &&& trimmed.width == 1
    &&& trimmed.height == 1
    &&& trimmed.at(0, 0) == (Color { r: 0, g: 0, b: 0, a: 0 })
    &&& info == (TrimInfo {
        offset_x: 0,
        offset_y: 0,
        source_width: img.width,
        source_height: img.height,
        trimmed_width: 1,
        trimmed_height: 1,
    })
}

/// The bounding box of the pixels that are not fully transparent, as
/// `(min_x, min_y, max_x, max_y)`, or nothing if there is no such pixel.
pub fn content_box(image: &Bitmap) -> (r: Option<(u32, u32, u32, u32)>)
    ensures
        r is Some <==> has_content(image@),
        r matches Some(b) ==> is_content_box(
            image@,
            b.0 as int,
            b.1 as int,
            b.2 as int,
            b.3 as int,
        ),
{
    let width: u32 = image.width();
    let height: u32 = image.height();
    let ghost img = image@;
    let mut found: bool = false;
    let mut min_x: u32 = 0;
    let mut min_y: u32 = 0;
    let mut max_x: u32 = 0;
    let mut max_y: u32 = 0;
    // where the pixels were seen that the four sides rest on
    let ghost mut at_min_x: int = 0;
    let ghost mut at_max_x: int = 0;
    let ghost mut at_min_y: int = 0;
    let ghost mut at_max_y: int = 0;
    let mut y: u32 = 0;
    while y < height
        invariant
            img == image@,
            width == img.width,
            height == img.height,
            y <= height,
            found <==> exists|qx: int, qy: int| visible_at(img, qx, qy) && qy < y,
            found ==> {
                &&& min_x <= max_x < width
                &&& min_y <= max_y < y
                &&& visible_at(img, min_x as int, at_min_x)
                &&& visible_at(img, max_x as int, at_max_x)
                &&& visible_at(img, at_min_y, min_y as int)
                &&& visible_at(img, at_max_y, max_y as int)
                &&& forall|qx: int, qy: int|
                    visible_at(img, qx, qy) && qy < y ==> min_x <= qx <= max_x && min_y <= qy
                        <= max_y
            },
        decreases height - y,
    {
        let mut x: u32 = 0;
        while x < width
            invariant
                img == image@,
                width == img.width,
                height == img.height,
                y < height,
                x <= width,
                found <==> exists|qx: int, qy: int|
                    visible_at(img, qx, qy) && (qy < y || (qy == y && qx < x)),
                found ==> {
                    &&& min_x <= max_x < width
                    &&& min_y <= max_y <= y
                    &&& visible_at(img, min_x as int, at_min_x)
                    &&& visible_at(img, max_x as int, at_max_x)
                    &&& visible_at(img, at_min_y, min_y as int)
                    &&& visible_at(img, at_max_y, max_y as int)
                    &&& forall|qx: int, qy: int|
                        visible_at(img, qx, qy) && (qy < y || (qy == y && qx < x)) ==> min_x <= qx
                            <= max_x && min_y <= qy <= max_y
                },
            decreases width - x,
        {
            let pixel: Color = image.read_pixel(x, y);
            if pixel.a > 0 {
                assert(visible_at(img, x as int, y as int));
                if !found {
                    found = true;
                    min_x = x;
                    max_x = x;
                    min_y = y;
                    max_y = y;
                    proof {
                        at_min_x = y as int;
                        at_max_x = y as int;
                        at_min_y = x as int;
                        at_max_y = x as int;
                    }
                } else {
                    if x < min_x {
                        min_x = x;
                        proof {
                            at_min_x = y as int;
                        }
                    }
                    if x > max_x {
                        max_x = x;
                        proof {
                            at_max_x = y as int;
                        }
                    }
                    if y > max_y {
                        max_y = y;
                        proof {
                            at_max_y = x as int;
                        }
                    }
                }
            }
            x += 1;
        }
        y += 1;
    }
    if found {
        proof {
            assert(visible_at(img, min_x as int, at_min_x));
            assert(visible_at(img, max_x as int, at_max_x));
            assert(visible_at(img, at_min_y, min_y as int));
            assert(visible_at(img, at_max_y, max_y as int));
        }
        Some((min_x, min_y, max_x, max_y))
    } else {
        None
    }
}

/// Trim transparent borders from an image, keeping up to `margin` pixels
/// of them on every side
///
/// An image without content gives one transparent pixel.
pub fn trim_sprite_with_margin(image: &Bitmap, margin: u32) -> (r: (Bitmap, TrimInfo))
    ensures
        !has_content(image@) ==> is_placeholder(r.0@, r.1, image@),
        has_content(image@) ==> exists|min_x: int, min_y: int, max_x: int, max_y: int|
            {
                &&& is_content_box(image@, min_x, min_y, max_x, max_y)
                &&& is_cut(
                    r.0@,
                    r.1,
                    image@,
                    grown_left(min_x, margin as int),
                    grown_left(min_y, margin as int),
                    grown_right(max_x, margin as int, image@.width as int),
                    grown_right(max_y, margin as int, image@.height as int),
                )
            },
{
    let width: u32 = image.width();
    let height: u32 = image.height();

    // Find bounding box of non-transparent pixels
    match content_box(image) {
        None => {
            // Handle fully transparent image
            proof {
                assert(4 * 1 * 1 <= isize::MAX);
            }
            let blank = Bitmap::blank(1, 1);
            assert(blank@.has(0, 0));
            (
                blank,
                TrimInfo {
                    offset_x: 0,
                    offset_y: 0,
                    source_width: width,
                    source_height: height,
                    trimmed_width: 1,
                    trimmed_height: 1,
                },
            )
        },
        Some((min_x, min_y, max_x, max_y)) => {
            let left: u32 = if min_x >= margin { min_x - margin } else { 0 };
            let top: u32 = if min_y >= margin { min_y - margin } else { 0 };
            let right: u32 = if (max_x as u64) + (margin as u64) < width as u64 {
                max_x + margin
            } else {
                width - 1
            };
            let bottom: u32 = if (max_y as u64) + (margin as u64) < height as u64 {
                max_y + margin
            } else {
                height - 1
            };
            let trimmed_width: u32 = right - left + 1;
            let trimmed_height: u32 = bottom - top + 1;

            let trimmed = image.crop_buffer(left, top, trimmed_width, trimmed_height);

            let trim_info = TrimInfo {
                offset_x: #[verifier::truncate] (left as i32),
                offset_y: #[verifier::truncate] (top as i32),
                source_width: width,
                source_height: height,
                trimmed_width,
                trimmed_height,
            };
            proof {
                assert(is_content_box(
                    image@,
                    min_x as int,
                    min_y as int,
                    max_x as int,
                    max_y as int,
                ));
                assert(is_cut(
                    trimmed@,
                    trim_info,
                    image@,
                    grown_left(min_x as int, margin as int),
                    grown_left(min_y as int, margin as int),
                    grown_right(max_x as int, margin as int, image@.width as int),
                    grown_right(max_y as int, margin as int, image@.height as int),
                ));
            }
            (trimmed, trim_info)
        },
    }
}

/// Trim transparent borders from an image
pub fn trim_sprite(image: &Bitmap) -> (r: (Bitmap, TrimInfo))
    ensures
        !has_content(image@) ==> is_placeholder(r.0@, r.1, image@),
        has_content(image@) ==> exists|min_x: int, min_y: int, max_x: int, max_y: int|
            {
                &&& is_content_box(image@, min_x, min_y, max_x, max_y)
                &&& is_cut(r.0@, r.1, image@, min_x, min_y, max_x, max_y)
            },
{
    let r = trim_sprite_with_margin(image, 0);
    proof {
        if has_content(image@) {
            let (min_x, min_y, max_x, max_y) = choose|
                min_x: int,
                min_y: int,
                max_x: int,
                max_y: int,
            |
                {
                    &&& is_content_box(image@, min_x, min_y, max_x, max_y)
                    &&& is_cut(
                        r.0@,
                        r.1,
                        image@,
                        grown_left(min_x, 0),
                        grown_left(min_y, 0),
                        grown_right(max_x, 0, image@.width as int),
                        grown_right(max_y, 0, image@.height as int),
                    )
                };
            assert(is_content_box(image@, min_x, min_y, max_x, max_y) && is_cut(
                r.0@,
                r.1,
                image@,
                min_x,
                min_y,
                max_x,
                max_y,
            ));
        }
    }
    r
}

} // verus!
