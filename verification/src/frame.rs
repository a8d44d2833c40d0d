use vstd::prelude::*;

verus! {

/// Byte `c` (0 red, 1 green, 2 blue, 3 alpha) of the pixel at column `x` and
/// row `y` of a row-by-row RGBA buffer whose rows are `width` pixels long.
pub open spec fn byte_at(bytes: Seq<u8>, width: int, x: int, y: int, c: int) -> u8 {
    bytes[4 * (y * width + x) + c]
}

/// `out` is the `width` by `height` image at the start of `src` turned 90
/// degrees clockwise: a `height` by `width` image whose pixel `(x, y)` is the
/// source pixel `(y, height - 1 - x)`.
pub open spec fn is_rotated90(out: Seq<u8>, src: Seq<u8>, width: int, height: int) -> bool {
    &&& out.len() == 4 * width * height
    &&& forall|x: int, y: int, c: int|
        0 <= x < height && 0 <= y < width && 0 <= c < 4 ==> #[trigger] byte_at(out, height, x, y, c)
            == byte_at(src, width, y, height - 1 - x, c)
}

/// `out` is the `width` by `height` image at the start of `src` turned 270
/// degrees clockwise: a `height` by `width` image whose pixel `(x, y)` is the
/// source pixel `(width - 1 - y, x)`.
pub open spec fn is_rotated270(out: Seq<u8>, src: Seq<u8>, width: int, height: int) -> bool {
    &&& out.len() == 4 * width * height
    &&& forall|x: int, y: int, c: int|
        0 <= x < height && 0 <= y < width && 0 <= c < 4 ==> #[trigger] byte_at(out, height, x, y, c)
            == byte_at(src, width, width - 1 - y, x, c)
}

/// `out` is `src` with the `width` by `height` image at its start turned 180
/// degrees: pixel `(x, y)` is the source pixel `(width - 1 - x, height - 1 - y)`,
/// and the bytes after the image are those of `src`.
pub open spec fn is_rotated180(out: Seq<u8>, src: Seq<u8>, width: int, height: int) -> bool {
    &&& out.len() == src.len()
    &&& forall|i: int| 4 * width * height <= i < src.len() ==> out[i] == src[i]
    &&& forall|x: int, y: int, c: int|
        0 <= x < width && 0 <= y < height && 0 <= c < 4 ==> #[trigger] byte_at(out, width, x, y, c)
            == byte_at(src, width, width - 1 - x, height - 1 - y, c)
}

/// Law: turning an image 90 degrees clockwise and then 270 degrees clockwise
/// gives the image back.
pub proof fn lemma_rotate90_then_270(src: Seq<u8>, mid: Seq<u8>, out: Seq<u8>, width: int, height: int)
    requires
        is_rotated90(mid, src, width, height),
        is_rotated270(out, mid, height, width),
    ensures
        forall|x: int, y: int, c: int|
            0 <= x < width && 0 <= y < height && 0 <= c < 4 ==> #[trigger] byte_at(out, width, x, y, c)
                == byte_at(src, width, x, y, c),
{
    assert forall|x: int, y: int, c: int|
        0 <= x < width && 0 <= y < height && 0 <= c < 4 implies #[trigger] byte_at(out, width, x, y, c)
            == byte_at(src, width, x, y, c) by {
        assert(byte_at(out, width, x, y, c) == byte_at(mid, height, height - 1 - y, x, c));
    }
}

/// Law: turning an image 270 degrees clockwise and then 90 degrees clockwise
/// gives the image back.
pub proof fn lemma_rotate270_then_90(src: Seq<u8>, mid: Seq<u8>, out: Seq<u8>, width: int, height: int)
    requires
        is_rotated270(mid, src, width, height),
        is_rotated90(out, mid, height, width),
    ensures
        forall|x: int, y: int, c: int|
            0 <= x < width && 0 <= y < height && 0 <= c < 4 ==> #[trigger] byte_at(out, width, x, y, c)
                == byte_at(src, width, x, y, c),
{
    assert forall|x: int, y: int, c: int|
        0 <= x < width && 0 <= y < height && 0 <= c < 4 implies #[trigger] byte_at(out, width, x, y, c)
            == byte_at(src, width, x, y, c) by {
        assert(byte_at(out, width, x, y, c) == byte_at(mid, height, y, width - 1 - x, c));
    }
}

/// Law: turning an image 180 degrees twice gives back the same buffer.
pub proof fn lemma_rotate180_twice(src: Seq<u8>, mid: Seq<u8>, out: Seq<u8>, width: int, height: int)
    requires
        0 <= width,
        0 <= height,
        is_rotated180(mid, src, width, height),
        is_rotated180(out, mid, width, height),
        4 * width * height <= src.len(),
    ensures
        out == src,
{
    assert forall|i: int| 0 <= i < src.len() implies out[i] == src[i] by {
        if i >= 4 * width * height {
        } else {
            let p = i / 4;
            let c = i % 4;
            let x = p % width;
            let y = p / width;
            vstd::arithmetic::div_mod::lemma_fundamental_div_mod(i, 4);
            assert(width > 0) by (nonlinear_arith)
                requires
                    0 <= i < 4 * width * height,
                    0 <= width,
                    0 <= height,
            ;
            vstd::arithmetic::div_mod::lemma_fundamental_div_mod(p, width);
            assert(0 <= p < width * height) by (nonlinear_arith)
                requires
                    0 <= i < 4 * width * height,
                    i == 4 * p + c,
                    0 <= c < 4,
            ;
            assert(0 <= y < height) by (nonlinear_arith)
                requires
                    0 <= p < width * height,
                    p == width * y + x,
                    0 <= x < width,
                    width > 0,
            ;
            assert(i == 4 * (y * width + x) + c) by (nonlinear_arith)
                requires
                    i == 4 * p + c,
                    p == width * y + x,
            ;
            assert(byte_at(out, width, x, y, c) == byte_at(mid, width, width - 1 - x, height - 1 - y, c));
        }
    }
    assert(out =~= src);
}

/// What `image::imageops::overlay` makes of the RGBA buffer `bottom`
/// (`bottom_width` by `bottom_height`) when it lays `top` (`top_width` by
/// `top_height`) over it with its top left corner at `(x, y)`.
pub uninterp spec fn rgba_overlay_result(
    bottom: Seq<u8>,
    bottom_width: u32,
    bottom_height: u32,
    top: Seq<u8>,
    top_width: u32,
    top_height: u32,
    x: u32,
    y: u32,
) -> Seq<u8>;

/// `image::RgbaImage::new`: the buffer of a `width` by `height` image whose
/// bytes are all 0.
#[verifier::external_body]
fn rgba_new(width: u32, height: u32) -> (r: Vec<u8>)
    requires
        4 * width <= usize::MAX,
        4 * width * height <= usize::MAX,
    ensures
        r@.len() == 4 * width * height,
        forall|i: int| 0 <= i < r@.len() ==> r@[i] == 0,
{
    image::RgbaImage::new(width, height).into_raw()
}

/// `image::RgbaImage::from_raw`: accepts `buf` as a `width` by `height` image
/// exactly when `4 * width` fits in a `usize` and `buf` holds at least
/// `4 * width * height` bytes, and hands the buffer back unchanged.
#[verifier::external_body]
fn rgba_from_raw(width: u32, height: u32, buf: Vec<u8>) -> (r: Option<Vec<u8>>)
    ensures
        r is Some <==> (4 * width <= usize::MAX && 4 * width * height <= buf@.len()),
        r matches Some(v) ==> v@ == buf@,
{
    image::RgbaImage::from_raw(width, height, buf).map(|img| img.into_raw())
}

/// `image::imageops::rotate90` (clockwise) of the `width` by `height` image at
/// the start of `buf`: a new `height` by `width` buffer whose pixel `(x, y)` is
/// the source pixel `(y, height - 1 - x)`.
#[verifier::external_body]
fn rgba_rotate90(width: u32, height: u32, buf: &Vec<u8>) -> (r: Vec<u8>)
    requires
        4 * width <= usize::MAX,
        4 * height <= usize::MAX,
        4 * width * height <= buf@.len(),
    ensures
        is_rotated90(r@, buf@, width as int, height as int),
{
    let img = image::ImageBuffer::<image::Rgba<u8>, &[u8]>::from_raw(width, height, &buf[..]).unwrap();
    image::imageops::rotate90(&img).into_raw()
}

/// `image::imageops::rotate270` (clockwise) of the `width` by `height` image at
/// the start of `buf`: a new `height` by `width` buffer whose pixel `(x, y)` is
/// the source pixel `(width - 1 - y, x)`.
#[verifier::external_body]
fn rgba_rotate270(width: u32, height: u32, buf: &Vec<u8>) -> (r: Vec<u8>)
    requires
        4 * width <= usize::MAX,
        4 * height <= usize::MAX,
        4 * width * height <= buf@.len(),
    ensures
        is_rotated270(r@, buf@, width as int, height as int),
{
    let img = image::ImageBuffer::<image::Rgba<u8>, &[u8]>::from_raw(width, height, &buf[..]).unwrap();
    image::imageops::rotate270(&img).into_raw()
}

/// `image::imageops::rotate180_in_place` on the `width` by `height` image at
/// the start of `buf`: pixel `(x, y)` becomes the former pixel
/// `(width - 1 - x, height - 1 - y)`; the bytes after the image stay. It does
/// not unwind: under `requires` `from_raw` accepts the buffer, and the rotation
/// only touches pixels inside the image.
#[verifier::external_body]
fn rgba_rotate180_in_place(width: u32, height: u32, buf: &mut Vec<u8>)
    requires
        4 * width <= usize::MAX,
        4 * width * height <= old(buf)@.len(),
    ensures
        is_rotated180(final(buf)@, old(buf)@, width as int, height as int),
    no_unwind
{
    let mut img = image::ImageBuffer::<image::Rgba<u8>, &mut [u8]>::from_raw(width, height, &mut buf[..]).unwrap();
    image::imageops::rotate180_in_place(&mut img);
}

/// `image::imageops::overlay` of the `top_width` by `top_height` image `top`
/// onto the `bottom_width` by `bottom_height` image `bottom`, with the top left
/// corner of `top` at `(x, y)`. Only the pixels of `bottom` under `top` change:
/// one under a top pixel of alpha 255 becomes that pixel, one under a top pixel
/// of alpha 0 stays. What one under a partly transparent pixel becomes (a
/// blend computed in floating point) is left to the name `rgba_overlay_result`.
/// It does not unwind: under `requires` `from_raw` accepts both buffers, and the
/// overlay is clipped to the bottom image.
#[verifier::external_body]
fn rgba_overlay(
    bottom: &mut Vec<u8>,
    bottom_width: u32,
    bottom_height: u32,
    top: &Vec<u8>,
    top_width: u32,
    top_height: u32,
    x: u32,
    y: u32,
)
    requires
        4 * bottom_width <= usize::MAX,
        4 * bottom_width * bottom_height <= old(bottom)@.len(),
        4 * top_width <= usize::MAX,
        4 * top_width * top_height <= top@.len(),
    ensures
        final(bottom)@ == rgba_overlay_result(
            old(bottom)@,
            bottom_width,
            bottom_height,
            top@,
            top_width,
            top_height,
            x,
            y,
        ),
        final(bottom)@.len() == old(bottom)@.len(),
        forall|i: int|
            4 * bottom_width * bottom_height <= i < old(bottom)@.len()
                ==> final(bottom)@[i] == old(bottom)@[i],
        forall|px: int, py: int, c: int|
            0 <= px < bottom_width && 0 <= py < bottom_height && 0 <= c < 4 && !(x <= px < x
                + top_width && y <= py < y + top_height) ==> #[trigger] byte_at(
                final(bottom)@,
                bottom_width as int,
                px,
                py,
                c,
            ) == byte_at(old(bottom)@, bottom_width as int, px, py, c),
        forall|px: int, py: int, c: int|
            0 <= px < bottom_width && 0 <= py < bottom_height && 0 <= c < 4 && x <= px < x
                + top_width && y <= py < y + top_height && byte_at(
                top@,
                top_width as int,
                px - x,
                py - y,
                3,
            ) == 0 ==> #[trigger] byte_at(final(bottom)@, bottom_width as int, px, py, c)
                == byte_at(old(bottom)@, bottom_width as int, px, py, c),
        forall|px: int, py: int, c: int|
            0 <= px < bottom_width && 0 <= py < bottom_height && 0 <= c < 4 && x <= px < x
                + top_width && y <= py < y + top_height && byte_at(
                top@,
                top_width as int,
                px - x,
                py - y,
                3,
            ) == 255 ==> #[trigger] byte_at(final(bottom)@, bottom_width as int, px, py, c)
                == byte_at(top@, top_width as int, px - x, py - y, c),
    no_unwind
{
    let mut canvas = image::ImageBuffer::<image::Rgba<u8>, &mut [u8]>::from_raw(
        bottom_width,
        bottom_height,
        &mut bottom[..],
    ).unwrap();
    let tile = image::ImageBuffer::<image::Rgba<u8>, &[u8]>::from_raw(top_width, top_height, &top[..]).unwrap();
    image::imageops::overlay(&mut canvas, &tile, i64::from(x), i64::from(y));
}


/// An RGBA image with one byte per channel: `width * height` pixels of four
/// bytes, row by row, at the start of its buffer.
pub struct RgbaFrame {
    width: u32,
    height: u32,
    data: Vec<u8>,
}

impl RgbaFrame {
    #[verifier::type_invariant]
    spec fn holds_its_pixels(self) -> bool {
        &&& 4 * self.width <= usize::MAX
        &&& 4 * self.width * self.height <= self.data@.len()
    }

    /// The width of the image, in pixels.
    pub closed spec fn frame_width(self) -> u32 {
        self.width
    }

    /// The height of the image, in pixels.
    pub closed spec fn frame_height(self) -> u32 {
        self.height
    }

    /// The buffer of the image.
    pub closed spec fn bytes(self) -> Seq<u8> {
        self.data@
    }

    /// An image whose pixels are all 0 (transparent black); `4 * width` and the
    /// length of its buffer must fit in a `usize`.
    pub fn new(width: u32, height: u32) -> (r: RgbaFrame)
        requires
            4 * width <= usize::MAX,
            4 * width * height <= usize::MAX,
        ensures
            r.frame_width() == width,
            r.frame_height() == height,
            r.bytes().len() == 4 * width * height,
            forall|i: int| 0 <= i < r.bytes().len() ==> r.bytes()[i] == 0,
    {
        RgbaFrame { width, height, data: rgba_new(width, height) }
    }

    /// Takes `data` as a `width` by `height` image; `None` when `4 * width` does
    /// not fit in a `usize` or `data` is shorter than `4 * width * height` bytes.
    pub fn from_raw(width: u32, height: u32, data: Vec<u8>) -> (r: Option<RgbaFrame>)
        ensures
            r is Some <==> (4 * width <= usize::MAX && 4 * width * height <= data@.len()),
            r matches Some(f) ==> f.frame_width() == width && f.frame_height() == height
                && f.bytes() == data@,
    {
        match rgba_from_raw(width, height, data) {
            Some(data) => Some(RgbaFrame { width, height, data }),
            None => None,
        }
    }

    /// The width of the image, in pixels.
    pub fn width(&self) -> (r: u32)
        ensures
            r == self.frame_width(),
    {
        self.width
    }

    /// The height of the image, in pixels.
    pub fn height(&self) -> (r: u32)
        ensures
            r == self.frame_height(),
    {
        self.height
    }

    /// The buffer of the image.
    pub fn into_raw(self) -> (r: Vec<u8>)
        ensures
            r@ == self.bytes(),
    {
        self.data
    }

    /// The image turned 90 degrees clockwise: a `height` by `width` image whose
    /// pixel `(x, y)` is pixel `(y, height - 1 - x)` of this one. The new image
    /// is `height` pixels wide, so `4 * height` must fit in a `usize`.
    pub fn rotate90(&self) -> (r: RgbaFrame)
        requires
            4 * self.frame_height() <= usize::MAX,
        ensures
            r.frame_width() == self.frame_height(),
            r.frame_height() == self.frame_width(),
            is_rotated90(r.bytes(), self.bytes(), self.frame_width() as int, self.frame_height() as int),
    {
        proof {
            use_type_invariant(self);
        }
        let data = rgba_rotate90(self.width, self.height, &self.data);
        proof {
            assert(4 * self.height * self.width == 4 * self.width * self.height) by (nonlinear_arith);
        }
        RgbaFrame { width: self.height, height: self.width, data }
    }

    /// The image turned 270 degrees clockwise: a `height` by `width` image whose
    /// pixel `(x, y)` is pixel `(width - 1 - y, x)` of this one. The new image
    /// is `height` pixels wide, so `4 * height` must fit in a `usize`.
    pub fn rotate270(&self) -> (r: RgbaFrame)
        requires
            4 * self.frame_height() <= usize::MAX,
        ensures
            r.frame_width() == self.frame_height(),
            r.frame_height() == self.frame_width(),
            is_rotated270(r.bytes(), self.bytes(), self.frame_width() as int, self.frame_height() as int),
    {
        proof {
            use_type_invariant(self);
        }
        let data = rgba_rotate270(self.width, self.height, &self.data);
        proof {
            assert(4 * self.height * self.width == 4 * self.width * self.height) by (nonlinear_arith);
        }
        RgbaFrame { width: self.height, height: self.width, data }
    }

    /// Turns the image 180 degrees: pixel `(x, y)` becomes the former pixel
    /// `(width - 1 - x, height - 1 - y)`; the bytes after the pixels stay.
    pub fn rotate180_in_place(&mut self)
        ensures
            final(self).frame_width() == old(self).frame_width(),
            final(self).frame_height() == old(self).frame_height(),
            is_rotated180(
                final(self).bytes(),
                old(self).bytes(),
                old(self).frame_width() as int,
                old(self).frame_height() as int,
            ),
    {
        proof {
            use_type_invariant(&*self);
        }
        rgba_rotate180_in_place(self.width, self.height, &mut self.data);
    }

    /// Lays `top` over this image with its top left corner at `(x, y)`, as
    /// `image::imageops::overlay` does: a pixel under an opaque pixel of `top`
    /// becomes that pixel, one under a transparent pixel or outside `top`
    /// stays, and the whole buffer becomes `rgba_overlay_result` of the two.
    pub fn overlay(&mut self, top: &RgbaFrame, x: u32, y: u32)
        ensures
            final(self).frame_width() == old(self).frame_width(),
            final(self).frame_height() == old(self).frame_height(),
            final(self).bytes() == rgba_overlay_result(
                old(self).bytes(),
                old(self).frame_width(),
                old(self).frame_height(),
                top.bytes(),
                top.frame_width(),
                top.frame_height(),
                x,
                y,
            ),
            final(self).bytes().len() == old(self).bytes().len(),
            forall|i: int|
                4 * old(self).frame_width() * old(self).frame_height() <= i < old(self).bytes().len()
                    ==> final(self).bytes()[i] == old(self).bytes()[i],
            forall|px: int, py: int, c: int|
                0 <= px < old(self).frame_width() && 0 <= py < old(self).frame_height() && 0 <= c
                    < 4 && !(x <= px < x + top.frame_width() && y <= py < y + top.frame_height())
                    ==> #[trigger] byte_at(final(self).bytes(), old(self).frame_width() as int, px, py, c)
                    == byte_at(old(self).bytes(), old(self).frame_width() as int, px, py, c),
            forall|px: int, py: int, c: int|
                0 <= px < old(self).frame_width() && 0 <= py < old(self).frame_height() && 0 <= c
                    < 4 && x <= px < x + top.frame_width() && y <= py < y + top.frame_height()
                    && byte_at(top.bytes(), top.frame_width() as int, px - x, py - y, 3) == 0
                    ==> #[trigger] byte_at(final(self).bytes(), old(self).frame_width() as int, px, py, c)
                    == byte_at(old(self).bytes(), old(self).frame_width() as int, px, py, c),
            forall|px: int, py: int, c: int|
                0 <= px < old(self).frame_width() && 0 <= py < old(self).frame_height() && 0 <= c
                    < 4 && x <= px < x + top.frame_width() && y <= py < y + top.frame_height()
                    && byte_at(top.bytes(), top.frame_width() as int, px - x, py - y, 3) == 255
                    ==> #[trigger] byte_at(final(self).bytes(), old(self).frame_width() as int, px, py, c)
                    == byte_at(top.bytes(), top.frame_width() as int, px - x, py - y, c),
    {
        proof {
            use_type_invariant(&*self);
            use_type_invariant(top);
        }
        rgba_overlay(&mut self.data, self.width, self.height, &top.data, top.width, top.height, x, y);
    }
}

} // verus!
