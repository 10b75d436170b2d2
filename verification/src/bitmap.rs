//! RGBA pixel buffers. The buffer itself is an image of the `image` crate;
//! what that crate does to it is stated here and believed, not proved.

use vstd::prelude::*;

verus! {

/// One RGBA pixel.
#[derive(Debug, Clone, Copy, PartialEq, Eq, Structural)]
pub struct Color {
    pub r: u8,
    pub g: u8,
    pub b: u8,
    pub a: u8,
}

/// A rectangular buffer of RGBA pixels.
#[derive(Debug)]
#[verifier::external_body]
pub struct Bitmap {
    img: image::RgbaImage,
}

/// Width that a bitmap was made with.
pub uninterp spec fn bitmap_width(b: Bitmap) -> u32;

/// Height that a bitmap was made with.
pub uninterp spec fn bitmap_height(b: Bitmap) -> u32;

/// The pixels of a bitmap by their coordinates `(x, y)`.
pub uninterp spec fn bitmap_pixels(b: Bitmap) -> Map<(int, int), Color>;

/// What alpha blending leaves of `bottom` under a translucent `top`
/// (`top.a` neither 0 nor 255).
pub uninterp spec fn blended(bottom: Color, top: Color) -> Color;

/// The pixel that results from laying `top` over `bottom`: a transparent
/// top pixel changes nothing, an opaque one replaces the bottom pixel, and
/// a translucent one is blended with it.
pub open spec fn composite(bottom: Color, top: Color) -> Color {
    if top.a == 0 {
        bottom
    } else if top.a == 255 {
        top
    } else {
        blended(bottom, top)
    }
}

/// The model of a bitmap.
pub struct BitmapView {
    pub width: u32,
    pub height: u32,
    pub pixels: Map<(int, int), Color>,
}

impl BitmapView {
    /// `(x, y)` is a coordinate of the bitmap.
    pub open spec fn has(self, x: int, y: int) -> bool {
        0 <= x < self.width && 0 <= y < self.height
    }

    /// The pixel at `(x, y)`.
    pub open spec fn at(self, x: int, y: int) -> Color {
        self.pixels[(x, y)]
    }
}

impl View for Bitmap {
    type V = BitmapView;

    open spec fn view(&self) -> BitmapView {
        BitmapView {
            width: bitmap_width(*self),
            height: bitmap_height(*self),
            pixels: bitmap_pixels(*self),
        }
    }
}

/// Where the four bytes of pixel `(x, y)` begin in the row-major bytes of
/// an image `width` pixels wide.
pub open spec fn byte_offset(x: int, y: int, width: int) -> int {
    4 * (y * width + x)
}

/// The pixel whose four bytes begin at `offset`.
pub open spec fn color_at(data: Seq<u8>, offset: int) -> Color {
    Color { r: data[offset], g: data[offset + 1], b: data[offset + 2], a: data[offset + 3] }
}

/// In row-major order pixel `(qx, qy)` comes before position `(px, py)`.
pub open spec fn scanned_before(qx: int, qy: int, px: int, py: int) -> bool {
    qy < py || (qy == py && qx < px)
}

/// The bytes of a pixel that comes earlier in row-major order end before
/// those of a later position begin, and the image's bytes end with those
/// of its last pixel.
pub proof fn lemma_byte_offset(qx: int, qy: int, px: int, py: int, width: int, height: int)
    requires
        0 <= qx < width,
        0 <= qy,
        0 <= px <= width,
        0 <= py,
    ensures
        0 <= byte_offset(qx, qy, width),
        scanned_before(qx, qy, px, py) ==> byte_offset(qx, qy, width) + 4 <= byte_offset(
            px,
            py,
            width,
        ),
        qy < height ==> byte_offset(qx, qy, width) + 4 <= 4 * width * height,
{
    assert(0 <= qy * width) by (nonlinear_arith)
        requires
            0 <= qy,
            0 <= width,
    ;
    if qy < py {
        assert((qy + 1) * width <= py * width) by (nonlinear_arith)
            requires
                qy + 1 <= py,
                0 <= width,
        ;
        assert((qy + 1) * width == qy * width + width) by (nonlinear_arith);
    }
    if qy < height {
        assert((qy + 1) * width <= height * width) by (nonlinear_arith)
            requires
                qy + 1 <= height,
                0 <= width,
        ;
        assert((qy + 1) * width == qy * width + width) by (nonlinear_arith);
        assert(4 * width * height == 4 * (height * width)) by (nonlinear_arith);
    }
}

/// The bytes of a row end where those of the next row begin, and the
/// image's bytes end where a row past the last would begin.
pub proof fn lemma_row_end(y: int, width: int, height: int)
    ensures
        byte_offset(0, 0, width) == 0,
        byte_offset(width, y, width) == byte_offset(0, y + 1, width),
        byte_offset(0, height, width) == 4 * width * height,
{
    assert((y + 1) * width == y * width + width) by (nonlinear_arith);
    assert(4 * width * height == 4 * (height * width)) by (nonlinear_arith);
    assert(0 * width == 0) by (nonlinear_arith);
}

/// A buffer of this size can be allocated: its four bytes per pixel fit
/// the largest allocation.
pub open spec fn can_allocate(width: u32, height: u32) -> bool {
    4 * width * height <= isize::MAX
}

impl Bitmap {
    /// `ImageBuffer::new`: an image of the given size whose pixels are all
    /// zero. The call panics where the buffer's length overflows, which
    /// `requires` leaves out.
    #[verifier::external_body]
    pub(crate) fn blank(width: u32, height: u32) -> (b: Bitmap)
        requires
            can_allocate(width, height),
        ensures
            bitmap_width(b) == width,
            bitmap_height(b) == height,
            forall|x: int, y: int|
                0 <= x < width && 0 <= y < height ==> #[trigger] bitmap_pixels(b)[(x, y)] == (Color {
                    r: 0,
                    g: 0,
                    b: 0,
                    a: 0,
                }),
    {
        Bitmap { img: image::RgbaImage::new(width, height) }
    }

    /// `ImageBuffer::width`.
    #[verifier::external_body]
    pub(crate) fn buffer_width(&self) -> (w: u32)
        ensures
            w == bitmap_width(*self),
    {
        self.img.width()
    }

    /// `ImageBuffer::height`.
    #[verifier::external_body]
    pub(crate) fn buffer_height(&self) -> (h: u32)
        ensures
            h == bitmap_height(*self),
    {
        self.img.height()
    }

    /// `ImageBuffer::get_pixel`: the pixel at `(x, y)`. The call panics
    /// outside the image, which `requires` leaves out.
    #[verifier::external_body]
    pub(crate) fn read_pixel(&self, x: u32, y: u32) -> (c: Color)
        requires
            x < bitmap_width(*self),
            y < bitmap_height(*self),
        ensures
            c == bitmap_pixels(*self)[(x as int, y as int)],
    {
        let p = self.img.get_pixel(x, y);
        Color { r: p.0[0], g: p.0[1], b: p.0[2], a: p.0[3] }
    }

    /// `ImageBuffer::put_pixel`: the pixel at `(x, y)` becomes `c`, nothing
    /// else changes. The call panics outside the image, which `requires`
    /// leaves out.
    #[verifier::external_body]
    pub(crate) fn write_pixel(&mut self, x: u32, y: u32, c: Color)
        requires
            x < bitmap_width(*old(self)),
            y < bitmap_height(*old(self)),
        ensures
            bitmap_width(*final(self)) == bitmap_width(*old(self)),
            bitmap_height(*final(self)) == bitmap_height(*old(self)),
            bitmap_pixels(*final(self)) == bitmap_pixels(*old(self)).insert(
                (x as int, y as int),
                c,
            ),
    {
        self.img.put_pixel(x, y, image::Rgba([c.r, c.g, c.b, c.a]));
    }

    /// `imageops::overlay`, with the top image at or behind the origin of
    /// the bottom one: each pixel of the bottom image that lies under the
    /// top image becomes the composite of the two, the others stay. What
    /// of the top image falls outside the bottom one is left out.
    #[verifier::external_body]
    pub(crate) fn overlay_buffer(&mut self, top: &Bitmap, x: u32, y: u32)
        ensures
            bitmap_width(*final(self)) == bitmap_width(*old(self)),
            bitmap_height(*final(self)) == bitmap_height(*old(self)),
            forall|px: int, py: int|
                0 <= px < bitmap_width(*old(self)) && 0 <= py < bitmap_height(*old(self))
                    ==> #[trigger] bitmap_pixels(*final(self))[(px, py)] == (if x <= px < x
                    + bitmap_width(*top) && y <= py < y + bitmap_height(*top) {
                    let bottom = bitmap_pixels(*old(self))[(px, py)];
                    let over = bitmap_pixels(*top)[(px - x, py - y)];
                    if over.a == 0 {
                        bottom
                    } else if over.a == 255 {
                        over
                    } else {
                        blended(bottom, over)
                    }
                } else {
                    bitmap_pixels(*old(self))[(px, py)]
                }),
    {
        image::imageops::overlay(&mut self.img, &top.img, x as i64, y as i64);
    }

    /// `imageops::crop_imm` followed by `SubImage::to_image`, for a region
    /// that lies inside the image: a new image of the region's size whose
    /// pixels are those of the region.
    #[verifier::external_body]
    pub(crate) fn crop_buffer(&self, x: u32, y: u32, width: u32, height: u32) -> (b: Bitmap)
        requires
            x + width <= bitmap_width(*self),
            y + height <= bitmap_height(*self),
        ensures
            bitmap_width(b) == width,
            bitmap_height(b) == height,
            forall|px: int, py: int|
                0 <= px < width && 0 <= py < height ==> #[trigger] bitmap_pixels(b)[(px, py)]
                    == bitmap_pixels(*self)[(x + px, y + py)],
    {
        Bitmap { img: image::imageops::crop_imm(&self.img, x, y, width, height).to_image() }
    }

    /// Width of the bitmap.
    pub fn width(&self) -> (w: u32)
        ensures
            w == self@.width,
    {
        self.buffer_width()
    }

    /// Height of the bitmap.
    pub fn height(&self) -> (h: u32)
        ensures
            h == self@.height,
    {
        self.buffer_height()
    }

    /// A transparent bitmap of the given size, or nothing if a buffer of
    /// that size cannot be allocated.
    pub fn new(width: u32, height: u32) -> (r: Option<Bitmap>)
        ensures
            r is Some <==> can_allocate(width, height),
            r matches Some(b) ==> {
                &&& b@.width == width
                &&& b@.height == height
                &&& forall|x: int, y: int|
                    b@.has(x, y) ==> #[trigger] b@.at(x, y) == (Color { r: 0, g: 0, b: 0, a: 0 })
            },
    {
        let w: u128 = width as u128;
        let h: u128 = height as u128;
        assert(4 * w * h <= 4 * 0xFFFF_FFFF * 0xFFFF_FFFF) by (nonlinear_arith)
            requires
                w <= 0xFFFF_FFFF,
                h <= 0xFFFF_FFFF,
        ;
        if 4 * w * h <= isize::MAX as u128 {
            Some(Bitmap::blank(width, height))
        } else {
            None
        }
    }

    /// The bitmap of the given size whose pixels are the given bytes: four
    /// bytes per pixel (red, green, blue, alpha), row after row. Returns
    /// nothing unless the bytes are exactly those of `width * height`
    /// pixels and a buffer of that size can be allocated.
    pub fn from_rgba(width: u32, height: u32, data: &Vec<u8>) -> (r: Option<Bitmap>)
        ensures
            r is Some <==> data@.len() == 4 * width * height && can_allocate(width, height),
            r matches Some(b) ==> {
                &&& b@.width == width
                &&& b@.height == height
                &&& forall|x: int, y: int|
                    b@.has(x, y) ==> #[trigger] b@.at(x, y) == color_at(
                        data@,
                        byte_offset(x, y, width as int),
                    )
            },
    {
        let w: u128 = width as u128;
        let h: u128 = height as u128;
        assert(4 * w * h <= 4 * 0xFFFF_FFFF * 0xFFFF_FFFF) by (nonlinear_arith)
            requires
                w <= 0xFFFF_FFFF,
                h <= 0xFFFF_FFFF,
        ;
        let total: usize = data.len();
        if 4 * w * h != total as u128 || total as u128 > isize::MAX as u128 {
            return None;
        }
        let mut bitmap = Bitmap::blank(width, height);
        let mut offset: usize = 0;
        let mut y: u32 = 0;
        while y < height
            invariant
                y <= height,
                total == data@.len(),
                total == 4 * width * height,
                bitmap@.width == width,
                bitmap@.height == height,
                offset == byte_offset(0, y as int, width as int),
                forall|qx: int, qy: int|
                    bitmap@.has(qx, qy) && qy < y ==> #[trigger] bitmap@.at(qx, qy) == color_at(
                        data@,
                        byte_offset(qx, qy, width as int),
                    ),
            decreases height - y,
        {
            let mut x: u32 = 0;
            while x < width
                invariant
                    y < height,
                    x <= width,
                    total == data@.len(),
                    total == 4 * width * height,
                    bitmap@.width == width,
                    bitmap@.height == height,
                    offset == byte_offset(x as int, y as int, width as int),
                    forall|qx: int, qy: int|
                        bitmap@.has(qx, qy) && scanned_before(qx, qy, x as int, y as int)
                            ==> #[trigger] bitmap@.at(qx, qy) == color_at(
                            data@,
                            byte_offset(qx, qy, width as int),
                        ),
                decreases width - x,
            {
                proof {
                    lemma_byte_offset(
                        x as int,
                        y as int,
                        x + 1,
                        y as int,
                        width as int,
                        height as int,
                    );
                }
                let color = Color {
                    r: data[offset],
                    g: data[offset + 1],
                    b: data[offset + 2],
                    a: data[offset + 3],
                };
                let ghost before = bitmap@;
                bitmap.write_pixel(x, y, color);
                assert forall|qx: int, qy: int|
                    bitmap@.has(qx, qy) && scanned_before(
                        qx,
                        qy,
                        x + 1,
                        y as int,
                    ) implies #[trigger] bitmap@.at(qx, qy) == color_at(
                    data@,
                    byte_offset(qx, qy, width as int),
                ) by {
                    if qx == x && qy == y {
                    } else {
                        assert((qx, qy) != (x as int, y as int));
                        assert(bitmap@.at(qx, qy) == before.at(qx, qy));
                    }
                }
                offset = offset + 4;
                x += 1;
            }
            proof {
                lemma_row_end(y as int, width as int, height as int);
            }
            y += 1;
        }
        Some(bitmap)
    }

    /// The bytes of the bitmap: four bytes per pixel (red, green, blue,
    /// alpha), row after row.
    pub fn to_rgba(&self) -> (data: Vec<u8>)
        ensures
            data@.len() == 4 * self@.width * self@.height,
            forall|x: int, y: int|
                self@.has(x, y) ==> #[trigger] self@.at(x, y) == color_at(
                    data@,
                    byte_offset(x, y, self@.width as int),
                ),
    {
        let width: u32 = self.width();
        let height: u32 = self.height();
        let mut data: Vec<u8> = Vec::new();
        let mut y: u32 = 0;
        proof {
            lemma_row_end(0, width as int, height as int);
        }
        while y < height
            invariant
                y <= height,
                width == self@.width,
                height == self@.height,
                data@.len() == byte_offset(0, y as int, width as int),
                forall|qx: int, qy: int|
                    self@.has(qx, qy) && qy < y ==> #[trigger] self@.at(qx, qy) == color_at(
                        data@,
                        byte_offset(qx, qy, width as int),
                    ),
            decreases height - y,
        {
            let mut x: u32 = 0;
            while x < width
                invariant
                    y < height,
                    x <= width,
                    width == self@.width,
                    height == self@.height,
                    data@.len() == byte_offset(x as int, y as int, width as int),
                    forall|qx: int, qy: int|
                        self@.has(qx, qy) && scanned_before(qx, qy, x as int, y as int)
                            ==> #[trigger] self@.at(qx, qy) == color_at(
                            data@,
                            byte_offset(qx, qy, width as int),
                        ),
                decreases width - x,
            {
                let color: Color = self.read_pixel(x, y);
                let ghost before = data@;
                data.push(color.r);
                data.push(color.g);
                data.push(color.b);
                data.push(color.a);
                assert forall|qx: int, qy: int|
                    self@.has(qx, qy) && scanned_before(
                        qx,
                        qy,
                        x + 1,
                        y as int,
                    ) implies #[trigger] self@.at(qx, qy) == color_at(
                    data@,
                    byte_offset(qx, qy, width as int),
                ) by {
                    lemma_byte_offset(qx, qy, x as int, y as int, width as int, height as int);
                    if qx == x && qy == y {
                    } else {
                        let o = byte_offset(qx, qy, width as int);
                        assert(data@[o] == before[o]);
                        assert(data@[o + 1] == before[o + 1]);
                        assert(data@[o + 2] == before[o + 2]);
                        assert(data@[o + 3] == before[o + 3]);
                    }
                }
                x += 1;
            }
            proof {
                lemma_row_end(y as int, width as int, height as int);
            }
            y += 1;
        }
        proof {
            lemma_row_end(0, width as int, height as int);
        }
        data
    }

    /// The pixel at `(x, y)`, or nothing outside the bitmap.
    pub fn get_pixel(&self, x: u32, y: u32) -> (r: Option<Color>)
        ensures
            r == (if self@.has(x as int, y as int) {
                Some(self@.at(x as int, y as int))
            } else {
                None
            }),
    {
        if x < self.width() && y < self.height() {
            Some(self.read_pixel(x, y))
        } else {
            None
        }
    }

    /// Set the pixel at `(x, y)`; outside the bitmap nothing changes.
    /// Returns whether the pixel was set.
    pub fn put_pixel(&mut self, x: u32, y: u32, color: Color) -> (done: bool)
        ensures
            done == old(self)@.has(x as int, y as int),
            final(self)@.width == old(self)@.width,
            final(self)@.height == old(self)@.height,
            forall|qx: int, qy: int|
                old(self)@.has(qx, qy) ==> #[trigger] final(self)@.at(qx, qy) == (if done && qx == x
                    && qy == y {
                    color
                } else {
                    old(self)@.at(qx, qy)
                }),
    {
        if x < self.width() && y < self.height() {
            let ghost before = self@;
            self.write_pixel(x, y, color);
            assert forall|qx: int, qy: int| before.has(qx, qy) implies #[trigger] self@.at(
                qx,
                qy,
            ) == (if qx == x && qy == y {
                color
            } else {
                before.at(qx, qy)
            }) by {
                if !(qx == x && qy == y) {
                    assert((qx, qy) != (x as int, y as int));
                }
            }
            true
        } else {
            false
        }
    }

    /// The part of the bitmap that begins at `(x, y)` and is `width` wide
    /// and `height` high, or nothing if that part does not lie inside the
    /// bitmap.
    pub fn crop(&self, x: u32, y: u32, width: u32, height: u32) -> (r: Option<Bitmap>)
        ensures
            r is Some <==> x + width <= self@.width && y + height <= self@.height,
            r matches Some(b) ==> {
                &&& b@.width == width
                &&& b@.height == height
                &&& forall|px: int, py: int|
                    b@.has(px, py) ==> #[trigger] b@.at(px, py) == self@.at(x + px, y + py)
            },
    {
        if x as u64 + width as u64 <= self.width() as u64 && y as u64 + height as u64
            <= self.height() as u64 {
            Some(self.crop_buffer(x, y, width, height))
        } else {
            None
        }
    }
}

} // verus!
