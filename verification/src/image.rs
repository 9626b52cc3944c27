//! RGBA images: PNG encoding of a capture, the canvas of a capture that
//! spans several screens, and pixelation of redacted regions.
use vstd::prelude::*;
use crate::geometry::Rect;

verus! {

/// An 8-bit RGBA image, rows top to bottom, four bytes per pixel.
#[derive(Debug)]
pub struct RgbaImage {
    width: u32,
    height: u32,
    pixels: Vec<u8>,
}

impl RgbaImage {
    /// The buffer holds exactly `width * height` pixels.
    pub closed spec fn wf(self) -> bool {
        self.pixels@.len() == self.width as int * self.height as int * 4
    }

    /// Width in pixels.
    pub closed spec fn spec_width(self) -> u32 {
        self.width
    }

    /// Height in pixels.
    pub closed spec fn spec_height(self) -> u32 {
        self.height
    }

    /// The raw bytes: pixel `(x, y)` channel `c` is at `(y * width + x) * 4 + c`.
    pub closed spec fn spec_pixels(self) -> Seq<u8> {
        self.pixels@
    }

    /// An image over a raw buffer; `None` unless it holds exactly
    /// `width * height` RGBA pixels.
    pub fn from_raw(width: u32, height: u32, pixels: Vec<u8>) -> (r: Option<Self>)
        ensures
            r is Some <==> pixels@.len() == width as int * height as int * 4,
            r matches Some(img) ==> img.wf() && img.spec_width() == width && img.spec_height()
                == height && img.spec_pixels() == pixels@,
    {
        let w: u64 = width as u64;
        let h: u64 = height as u64;
        assert(w * h <= u32::MAX as int * u32::MAX as int) by (nonlinear_arith)
            requires
                w <= u32::MAX,
                h <= u32::MAX,
        ;
        let area: u64 = w * h;
        let n: usize = pixels.len();
        if area <= (usize::MAX / 4) as u64 && n == (area as usize) * 4 {
            Some(RgbaImage { width, height, pixels })
        } else {
            proof {
                if area > (usize::MAX / 4) as u64 {
                    assert(area * 4 > usize::MAX) by (nonlinear_arith)
                        requires
                            area > usize::MAX / 4,
                    ;
                }
            }
            None
        }
    }

    /// Width in pixels.
    pub fn width(&self) -> (w: u32)
        ensures
            w == self.spec_width(),
    {
        self.width
    }

    /// Height in pixels.
    pub fn height(&self) -> (h: u32)
        ensures
            h == self.spec_height(),
    {
        self.height
    }

    /// The raw RGBA bytes.
    pub fn as_raw(&self) -> (p: &Vec<u8>)
        requires
            self.wf(),
        ensures
            p@ == self.spec_pixels(),
            p@.len() == self.spec_width() as int * self.spec_height() as int * 4,
    {
        &self.pixels
    }
}

/// `png::EncodingError`, the error of the PNG encoder.
#[verifier::external_type_specification]
#[verifier::external_body]
pub struct ExPngEncodingError(png::EncodingError);

/// The bytes of a PNG file (8-bit RGBA, default compression and filtering)
/// holding a `width` x `height` image with the given pixels.
pub uninterp spec fn png_rgba8_file(width: u32, height: u32, pixels: Seq<u8>) -> Seq<u8>;

/// Encodes with `png::Encoder` (color type RGBA, depth 8) into `buffer`:
/// `write_header` then `write_image_data`. Per png's source, the header is
/// refused for a zero width or height, the image data is refused unless it
/// holds exactly `width * height * 4` bytes, and writing into a `Vec` cannot
/// fail otherwise; on success the file's bytes are appended to `buffer`. On
/// failure what `buffer` holds is left unsaid (a header may have been
/// written).
#[verifier::external_body]
fn encode_png_rgba8(buffer: &mut Vec<u8>, width: u32, height: u32, pixels: &[u8]) -> (r: Result<
    (),
    png::EncodingError,
>)
    requires
        width as int * height as int * 4 <= usize::MAX,
    ensures
        r is Ok <==> (width > 0 && height > 0 && pixels@.len() == width as int * height as int * 4),
        r is Ok ==> final(buffer)@ == old(buffer)@ + png_rgba8_file(width, height, pixels@),
{
    let mut encoder = png::Encoder::new(&mut *buffer, width, height);
    encoder.set_color(png::ColorType::Rgba);
    encoder.set_depth(png::BitDepth::Eight);
    let mut writer = encoder.write_header()?;
    writer.write_image_data(pixels)
}

/// Why an image could not be encoded.
#[derive(Debug, Clone, Copy, PartialEq, Eq, Structural)]
pub enum ImageEncodeError {
    /// The image has no pixels (zero width or height).
    EmptyImage,
}

/// Append the image, encoded as a PNG file, to `buffer`. Refused for an
/// image without pixels.
pub fn save_rgba_to_buffer(img: &RgbaImage, buffer: &mut Vec<u8>) -> (r: Result<
    (),
    ImageEncodeError,
>)
    requires
        img.wf(),
    ensures
        r is Ok <==> (img.spec_width() > 0 && img.spec_height() > 0),
        r is Ok ==> final(buffer)@ == old(buffer)@ + png_rgba8_file(
            img.spec_width(),
            img.spec_height(),
            img.spec_pixels(),
        ),
        r is Err ==> r == Err::<(), ImageEncodeError>(ImageEncodeError::EmptyImage),
{
    let n: usize = img.pixels.len();
    match encode_png_rgba8(buffer, img.width, img.height, img.pixels.as_slice()) {
        Ok(()) => Ok(()),
        Err(_) => Err(ImageEncodeError::EmptyImage),
    }
}

/// Byte offset of channel `c` of pixel `(x, y)` in a row-major RGBA buffer
/// of width `w`.
pub open spec fn pixel_index(w: int, x: int, y: int, c: int) -> int {
    (y * w + x) * 4 + c
}

/// Sum of channel `c` over pixels `x0..=x1` of row `y`.
pub open spec fn row_sum(pix: Seq<u8>, w: int, y: int, x0: int, x1: int, c: int) -> int
    decreases x1 - x0 + 1,
{
    if x1 < x0 {
        0
    } else {
        row_sum(pix, w, y, x0, x1 - 1, c) + pix[pixel_index(w, x1, y, c)]
    }
}

/// Sum of channel `c` over the pixels `x0..=x1` x `y0..=y1`.
pub open spec fn block_sum(pix: Seq<u8>, w: int, x0: int, x1: int, y0: int, y1: int, c: int) -> int
    decreases y1 - y0 + 1,
{
    if y1 < y0 {
        0
    } else {
        block_sum(pix, w, x0, x1, y0, y1 - 1, c) + row_sum(pix, w, y1, x0, x1, c)
    }
}

/// First coordinate of the block holding `v`, blocks of `bs` starting at `lo`.
pub open spec fn block_start(lo: int, bs: int, v: int) -> int {
    lo + ((v - lo) / bs) * bs
}

/// Last coordinate of the block holding `v`; the last block stops at `hi`.
pub open spec fn block_end(lo: int, hi: int, bs: int, v: int) -> int {
    if block_start(lo, bs, v) + bs - 1 <= hi {
        block_start(lo, bs, v) + bs - 1
    } else {
        hi
    }
}

/// The value channel `c` of pixel `(x, y)` takes when the region
/// `x0..=x1` x `y0..=y1` is pixelated with blocks of `bs`: the (rounded
/// down) mean of that channel over the pixel's block.
pub open spec fn pixelated_value(
    pix: Seq<u8>,
    w: int,
    x0: int,
    x1: int,
    y0: int,
    y1: int,
    bs: int,
    x: int,
    y: int,
    c: int,
) -> int {
    let bx0 = block_start(x0, bs, x);
    let bx1 = block_end(x0, x1, bs, x);
    let by0 = block_start(y0, bs, y);
    let by1 = block_end(y0, y1, bs, y);
    block_sum(pix, w, bx0, bx1, by0, by1, c) / ((bx1 - bx0 + 1) * (by1 - by0 + 1))
}

/// The span of pixels a pixelation covers along one axis, from its two
/// corner coordinates: from the smaller one (at least 0) to the larger one
/// read as unsigned (a negative one wraps) and at most the last pixel.
pub open spec fn span_low(a: i32, b: i32) -> int {
    let mn = if a < b {
        a
    } else {
        b
    };
    if mn < 0 {
        0
    } else {
        mn as int
    }
}

/// See `span_low`.
pub open spec fn span_high(a: i32, b: i32, extent: u32) -> int {
    let mx = if a < b {
        b
    } else {
        a
    };
    let unsigned = if mx < 0 {
        mx + 0x1_0000_0000
    } else {
        mx as int
    };
    let last = if extent == 0 {
        0
    } else {
        extent - 1
    };
    if unsigned < last {
        unsigned
    } else {
        last
    }
}

/// The span of pixels covered along one axis (see `span_low`).
pub fn pixel_span(a: i32, b: i32, extent: u32) -> (r: (u32, u32))
    ensures
        r.0 == span_low(a, b),
        r.1 == span_high(a, b, extent),
{
    let (mn, mx) = if a < b {
        (a, b)
    } else {
        (b, a)
    };
    let lo: u32 = if mn < 0 {
        0
    } else {
        mn as u32
    };
    let unsigned: u32 = if mx < 0 {
        let m: i64 = mx as i64 + 0x1_0000_0000i64;
        m as u32
    } else {
        mx as u32
    };
    let last: u32 = if extent == 0 {
        0
    } else {
        extent - 1
    };
    let hi = if unsigned < last {
        unsigned
    } else {
        last
    };
    (lo, hi)
}

proof fn lemma_row_sum_bound(pix: Seq<u8>, w: int, y: int, x0: int, x1: int, c: int)
    ensures
        0 <= row_sum(pix, w, y, x0, x1, c) <= 255 * (if x1 < x0 {
            0
        } else {
            x1 - x0 + 1
        }),
    decreases x1 - x0 + 1,
{
    if x1 >= x0 {
        lemma_row_sum_bound(pix, w, y, x0, x1 - 1, c);
    }
}

proof fn lemma_block_sum_bound(pix: Seq<u8>, w: int, x0: int, x1: int, y0: int, y1: int, c: int)
    requires
        x0 <= x1,
    ensures
        0 <= block_sum(pix, w, x0, x1, y0, y1, c) <= 255 * (x1 - x0 + 1) * (if y1 < y0 {
            0
        } else {
            y1 - y0 + 1
        }),
    decreases y1 - y0 + 1,
{
    if y1 >= y0 {
        lemma_block_sum_bound(pix, w, x0, x1, y0, y1 - 1, c);
        lemma_row_sum_bound(pix, w, y1, x0, x1, c);
        let n = x1 - x0 + 1;
        assert(255 * n * (y1 - 1 - y0 + 1) + 255 * n == 255 * n * (y1 - y0 + 1))
            by (nonlinear_arith);
        if y1 - 1 < y0 {
            assert(255 * n * 0 == 0) by (nonlinear_arith);
        }
    }
}

/// Distinct pixels and channels have distinct byte offsets, all inside the
/// buffer.
proof fn lemma_pixel_index(w: int, h: int, x: int, y: int, c: int)
    requires
        0 <= x < w,
        0 <= y < h,
        0 <= c < 4,
    ensures
        0 <= pixel_index(w, x, y, c) < w * h * 4,
        pixel_index(w, x, y, c) / 4 == y * w + x,
        pixel_index(w, x, y, c) % 4 == c,
        (y * w + x) % w == x,
        (y * w + x) / w == y,
{
    assert(0 <= y * w + x < w * h) by (nonlinear_arith)
        requires
            0 <= x < w,
            0 <= y < h,
    ;
    assert((y * w + x) % w == x && (y * w + x) / w == y) by (nonlinear_arith)
        requires
            0 <= x < w,
            0 <= y,
    ;
}

/// Within a block that starts at `lo + k * bs`, every coordinate maps back
/// to that block.
proof fn lemma_block_of(lo: int, hi: int, bs: int, k: int, v: int)
    requires
        bs > 0,
        k >= 0,
        lo + k * bs <= v <= lo + k * bs + bs - 1,
    ensures
        block_start(lo, bs, v) == lo + k * bs,
        block_end(lo, hi, bs, v) == if lo + k * bs + bs - 1 <= hi {
            lo + k * bs + bs - 1
        } else {
            hi
        },
{
    assert((v - lo) / bs == k) by (nonlinear_arith)
        requires
            bs > 0,
            k * bs <= v - lo < k * bs + bs,
    ;
}

proof fn lemma_block_sum_agree(
    p1: Seq<u8>,
    p2: Seq<u8>,
    w: int,
    x0: int,
    x1: int,
    y0: int,
    y1: int,
    c: int,
)
    requires
        forall|x: int, y: int|
            x0 <= x <= x1 && y0 <= y <= y1 ==> #[trigger] p1[pixel_index(w, x, y, c)] == p2[pixel_index(
                w,
                x,
                y,
                c,
            )],
    ensures
        block_sum(p1, w, x0, x1, y0, y1, c) == block_sum(p2, w, x0, x1, y0, y1, c),
    decreases y1 - y0 + 1,
{
    if y1 >= y0 {
        lemma_block_sum_agree(p1, p2, w, x0, x1, y0, y1 - 1, c);
        lemma_row_sum_agree(p1, p2, w, x0, x1, y1, c);
    }
}

proof fn lemma_row_sum_agree(p1: Seq<u8>, p2: Seq<u8>, w: int, x0: int, x1: int, y: int, c: int)
    requires
        forall|x: int| x0 <= x <= x1 ==> #[trigger] p1[pixel_index(w, x, y, c)] == p2[pixel_index(w, x, y, c)],
    ensures
        row_sum(p1, w, y, x0, x1, c) == row_sum(p2, w, y, x0, x1, c),
    decreases x1 - x0 + 1,
{
    if x1 >= x0 {
        lemma_row_sum_agree(p1, p2, w, x0, x1 - 1, y, c);
    }
}

/// Channel `c` of an RGBA value.
pub open spec fn channel(v: (u8, u8, u8, u8), c: int) -> u8 {
    if c == 0 {
        v.0
    } else if c == 1 {
        v.1
    } else if c == 2 {
        v.2
    } else {
        v.3
    }
}

impl RgbaImage {
    /// Per-channel sums over the pixels `bx0..=bx1` x `by0..=by1`.
    fn sum_block(&self, bx0: u32, bx1: u32, by0: u32, by1: u32) -> (t: (u64, u64, u64, u64))
        requires
            self.wf(),
            bx0 <= bx1 < self.spec_width(),
            by0 <= by1 < self.spec_height(),
            self.spec_width() as int * self.spec_height() as int * 255 <= u64::MAX,
        ensures
            t.0 == block_sum(self.spec_pixels(), self.spec_width() as int, bx0 as int, bx1 as int, by0 as int, by1 as int, 0),
            t.1 == block_sum(self.spec_pixels(), self.spec_width() as int, bx0 as int, bx1 as int, by0 as int, by1 as int, 1),
            t.2 == block_sum(self.spec_pixels(), self.spec_width() as int, bx0 as int, bx1 as int, by0 as int, by1 as int, 2),
            t.3 == block_sum(self.spec_pixels(), self.spec_width() as int, bx0 as int, bx1 as int, by0 as int, by1 as int, 3),
    {
        let w = self.width;
        let h = self.height;
        let ghost pix = self.pixels@;
        let ghost wi = w as int;
        let ghost ncols = bx1 - bx0 + 1;
        let n: usize = self.pixels.len();
        let mut t0: u64 = 0;
        let mut t1: u64 = 0;
        let mut t2: u64 = 0;
        let mut t3: u64 = 0;
        let mut py = by0;
        while py <= by1
            invariant
                pix == self.pixels@,
                pix.len() == w as int * h as int * 4,
                n == pix.len(),
                w == self.width,
                h == self.height,
                wi == w as int,
                ncols == bx1 - bx0 + 1,
                bx0 <= bx1 < w,
                by0 <= py <= by1 + 1,
                by1 < h,
                w as int * h as int * 255 <= u64::MAX,
                t0 == block_sum(pix, wi, bx0 as int, bx1 as int, by0 as int, py - 1, 0),
                t1 == block_sum(pix, wi, bx0 as int, bx1 as int, by0 as int, py - 1, 1),
                t2 == block_sum(pix, wi, bx0 as int, bx1 as int, by0 as int, py - 1, 2),
                t3 == block_sum(pix, wi, bx0 as int, bx1 as int, by0 as int, py - 1, 3),
            decreases by1 + 1 - py,
        {
            proof {
                lemma_block_sum_bound(pix, wi, bx0 as int, bx1 as int, by0 as int, py - 1, 0);
                lemma_block_sum_bound(pix, wi, bx0 as int, bx1 as int, by0 as int, py - 1, 1);
                lemma_block_sum_bound(pix, wi, bx0 as int, bx1 as int, by0 as int, py - 1, 2);
                lemma_block_sum_bound(pix, wi, bx0 as int, bx1 as int, by0 as int, py - 1, 3);
            }
            let mut px = bx0;
            while px <= bx1
                invariant
                    pix == self.pixels@,
                    pix.len() == w as int * h as int * 4,
                    n == pix.len(),
                    w == self.width,
                    h == self.height,
                    wi == w as int,
                    ncols == bx1 - bx0 + 1,
                    bx0 <= px <= bx1 + 1,
                    bx1 < w,
                    by0 <= py <= by1,
                    by1 < h,
                    w as int * h as int * 255 <= u64::MAX,
                    t0 == block_sum(pix, wi, bx0 as int, bx1 as int, by0 as int, py - 1, 0) + row_sum(pix, wi, py as int, bx0 as int, px - 1, 0),
                    t1 == block_sum(pix, wi, bx0 as int, bx1 as int, by0 as int, py - 1, 1) + row_sum(pix, wi, py as int, bx0 as int, px - 1, 1),
                    t2 == block_sum(pix, wi, bx0 as int, bx1 as int, by0 as int, py - 1, 2) + row_sum(pix, wi, py as int, bx0 as int, px - 1, 2),
                    t3 == block_sum(pix, wi, bx0 as int, bx1 as int, by0 as int, py - 1, 3) + row_sum(pix, wi, py as int, bx0 as int, px - 1, 3),
                    t0 <= 255 * ncols * (py - by0) + 255 * (px - bx0),
                    t1 <= 255 * ncols * (py - by0) + 255 * (px - bx0),
                    t2 <= 255 * ncols * (py - by0) + 255 * (px - bx0),
                    t3 <= 255 * ncols * (py - by0) + 255 * (px - bx0),
                decreases bx1 + 1 - px,
            {
                proof {
                    lemma_pixel_index(wi, h as int, px as int, py as int, 0);
                    lemma_pixel_index(wi, h as int, px as int, py as int, 3);
                    assert(ncols * (py - by0 + 1) <= wi * h) by (nonlinear_arith)
                        requires
                            0 < ncols <= wi,
                            0 < py - by0 + 1 <= h,
                    ;
                    assert(255 * ncols * (py - by0) + 255 * ncols == 255 * (ncols * (py - by0 + 1))) by (nonlinear_arith);
                    assert(pixel_index(wi, px as int, py as int, 3) < n);
                    assert(py * wi + px <= (py * wi + px) * 4) by (nonlinear_arith)
                        requires
                            py * wi + px >= 0,
                    ;
                }
                let base: usize = ((py as usize) * (w as usize) + px as usize) * 4;
                t0 = t0 + self.pixels[base] as u64;
                t1 = t1 + self.pixels[base + 1] as u64;
                t2 = t2 + self.pixels[base + 2] as u64;
                t3 = t3 + self.pixels[base + 3] as u64;
                px = px + 1;
            }
            proof {
                assert(255 * ncols * (py - by0) + 255 * ncols == 255 * ncols * (py + 1 - by0)) by (nonlinear_arith);
            }
            py = py + 1;
        }
        (t0, t1, t2, t3)
    }
}

impl RgbaImage {
    /// Set every pixel of `bx0..=bx1` x `by0..=by1` to `v`.
    fn fill_block(&mut self, bx0: u32, bx1: u32, by0: u32, by1: u32, v: (u8, u8, u8, u8))
        requires
            old(self).wf(),
            bx0 <= bx1 < old(self).spec_width(),
            by0 <= by1 < old(self).spec_height(),
        ensures
            final(self).wf(),
            final(self).spec_width() == old(self).spec_width(),
            final(self).spec_height() == old(self).spec_height(),
            final(self).spec_pixels().len() == old(self).spec_pixels().len(),
            forall|x: int, y: int, c: int|
                0 <= x < old(self).spec_width() && 0 <= y < old(self).spec_height() && 0 <= c < 4
                    ==> #[trigger] final(self).spec_pixels()[pixel_index(
                    old(self).spec_width() as int,
                    x,
                    y,
                    c,
                )] == if bx0 <= x <= bx1 && by0 <= y <= by1 {
                    channel(v, c)
                } else {
                    old(self).spec_pixels()[pixel_index(old(self).spec_width() as int, x, y, c)]
                },
    {
        let w = self.width;
        let h = self.height;
        let ghost wi = w as int;
        let ghost hi = h as int;
        let ghost pix = self.pixels@;
        let n: usize = self.pixels.len();
        let mut py = by0;
        while py <= by1
            invariant
                w == self.width,
                h == self.height,
                wi == w as int,
                hi == h as int,
                n == pix.len(),
                self.pixels@.len() == pix.len(),
                pix.len() == wi * hi * 4,
                bx0 <= bx1 < w,
                by0 <= py <= by1 + 1,
                by1 < h,
                forall|x: int, y: int, c: int|
                    0 <= x < wi && 0 <= y < hi && 0 <= c < 4 ==> #[trigger] self.pixels@[pixel_index(
                        wi,
                        x,
                        y,
                        c,
                    )] == if bx0 <= x <= bx1 && by0 <= y < py {
                        channel(v, c)
                    } else {
                        pix[pixel_index(wi, x, y, c)]
                    },
            decreases by1 + 1 - py,
        {
            let mut px = bx0;
            while px <= bx1
                invariant
                    w == self.width,
                    h == self.height,
                    wi == w as int,
                    hi == h as int,
                    n == pix.len(),
                    self.pixels@.len() == pix.len(),
                    pix.len() == wi * hi * 4,
                    bx0 <= px <= bx1 + 1,
                    bx1 < w,
                    by0 <= py <= by1,
                    by1 < h,
                    forall|x: int, y: int, c: int|
                        0 <= x < wi && 0 <= y < hi && 0 <= c < 4 ==> #[trigger] self.pixels@[pixel_index(
                            wi,
                            x,
                            y,
                            c,
                        )] == if bx0 <= x <= bx1 && (by0 <= y < py || (y == py && x < px)) {
                            channel(v, c)
                        } else {
                            pix[pixel_index(wi, x, y, c)]
                        },
                decreases bx1 + 1 - px,
            {
                proof {
                    lemma_pixel_index(wi, hi, px as int, py as int, 0);
                    lemma_pixel_index(wi, hi, px as int, py as int, 3);
                    assert(py * wi + px <= (py * wi + px) * 4) by (nonlinear_arith)
                        requires
                            py * wi + px >= 0,
                    ;
                }
                let base: usize = ((py as usize) * (w as usize) + px as usize) * 4;
                let ghost before = self.pixels@;
                self.pixels.set(base, v.0);
                self.pixels.set(base + 1, v.1);
                self.pixels.set(base + 2, v.2);
                self.pixels.set(base + 3, v.3);
                proof {
                    assert forall|x: int, y: int, c: int|
                        0 <= x < wi && 0 <= y < hi && 0 <= c < 4 implies #[trigger] self.pixels@[pixel_index(
                            wi,
                            x,
                            y,
                            c,
                        )] == if bx0 <= x <= bx1 && (by0 <= y < py || (y == py && x < px + 1)) {
                            channel(v, c)
                        } else {
                            pix[pixel_index(wi, x, y, c)]
                        } by {
                        lemma_pixel_index(wi, hi, x, y, c);
                        if x == px && y == py {
                        } else {
                            if pixel_index(wi, x, y, c) == pixel_index(wi, px as int, py as int, 0)
                                || pixel_index(wi, x, y, c) == pixel_index(wi, px as int, py as int, 1)
                                || pixel_index(wi, x, y, c) == pixel_index(wi, px as int, py as int, 2)
                                || pixel_index(wi, x, y, c) == pixel_index(wi, px as int, py as int, 3) {
                                lemma_pixel_index(wi, hi, px as int, py as int, c);
                            }
                            assert(self.pixels@[pixel_index(wi, x, y, c)] == before[pixel_index(wi, x, y, c)]);
                        }
                    }
                }
                px = px + 1;
            }
            py = py + 1;
        }
    }
}

/// Channel `c` of pixel `(x, y)` after pixelating the region between the
/// corners `(x1, y1)` and `(x2, y2)` with blocks of `bs` pixels: inside the
/// covered span, the mean of its block; elsewhere, unchanged.
pub open spec fn pixelated_pixel(
    pix: Seq<u8>,
    w: u32,
    h: u32,
    x1: i32,
    y1: i32,
    x2: i32,
    y2: i32,
    bs: u32,
    x: int,
    y: int,
    c: int,
) -> int {
    let lx = span_low(x1, x2);
    let hx = span_high(x1, x2, w);
    let ly = span_low(y1, y2);
    let hy = span_high(y1, y2, h);
    if lx <= x <= hx && ly <= y <= hy {
        pixelated_value(pix, w as int, lx, hx, ly, hy, bs as int, x, y, c)
    } else {
        pix[pixel_index(w as int, x, y, c) ] as int
    }
}

impl RgbaImage {
    /// Pixelate the region between the corners `(x1, y1)` and `(x2, y2)`
    /// (pixel coordinates): it is cut into blocks of `block_size` pixels from
    /// its top-left corner (the last ones cut short by the region's edge), and
    /// every pixel of a block takes the block's mean color.
    pub fn pixelate_region(&mut self, x1: i32, y1: i32, x2: i32, y2: i32, block_size: u32)
        requires
            old(self).wf(),
            block_size >= 1,
            span_high(x1, x2, old(self).spec_width()) + block_size <= u32::MAX,
            span_high(y1, y2, old(self).spec_height()) + block_size <= u32::MAX,
            old(self).spec_width() as int * old(self).spec_height() as int * 255 <= u64::MAX,
            (old(self).spec_width() == 0 || old(self).spec_height() == 0) ==> !(span_low(x1, x2)
                <= span_high(x1, x2, old(self).spec_width()) && span_low(y1, y2) <= span_high(
                y1,
                y2,
                old(self).spec_height(),
            )),
        ensures
            final(self).wf(),
            final(self).spec_width() == old(self).spec_width(),
            final(self).spec_height() == old(self).spec_height(),
            forall|x: int, y: int, c: int|
                0 <= x < old(self).spec_width() && 0 <= y < old(self).spec_height() && 0 <= c < 4
                    ==> #[trigger] final(self).spec_pixels()[pixel_index(
                    old(self).spec_width() as int,
                    x,
                    y,
                    c,
                )] == pixelated_pixel(
                    old(self).spec_pixels(),
                    old(self).spec_width(),
                    old(self).spec_height(),
                    x1,
                    y1,
                    x2,
                    y2,
                    block_size,
                    x,
                    y,
                    c,
                ),
    {
        let w = self.width;
        let h = self.height;
        let (min_x, max_x) = pixel_span(x1, x2, w);
        let (min_y, max_y) = pixel_span(y1, y2, h);
        let bs = block_size;
        let ghost wi = w as int;
        let ghost hi = h as int;
        let ghost old_pix = self.pixels@;
        let ghost mut ky: int = 0;
        let mut block_y = min_y;
        while block_y <= max_y
            invariant
                self.wf(),
                self.width == w,
                self.height == h,
                wi == w as int,
                hi == h as int,
                old_pix.len() == wi * hi * 4,
                bs >= 1,
                max_x + bs <= u32::MAX,
                max_y + bs <= u32::MAX,
                wi * hi * 255 <= u64::MAX,
                min_x == span_low(x1, x2),
                max_x == span_high(x1, x2, w),
                min_y == span_low(y1, y2),
                max_y == span_high(y1, y2, h),
                w > 0 ==> max_x < w,
                h > 0 ==> max_y < h,
                (w == 0 || h == 0) ==> !(min_x <= max_x && min_y <= max_y),
                ky >= 0,
                block_y == min_y + ky * bs,
                forall|x: int, y: int, c: int|
                    0 <= x < wi && 0 <= y < hi && 0 <= c < 4 ==> #[trigger] self.pixels@[pixel_index(
                        wi,
                        x,
                        y,
                        c,
                    )] == if min_x <= x <= max_x && min_y <= y <= max_y && y < block_y {
                        pixelated_value(
                            old_pix,
                            wi,
                            min_x as int,
                            max_x as int,
                            min_y as int,
                            max_y as int,
                            bs as int,
                            x,
                            y,
                            c,
                        )
                    } else {
                        old_pix[pixel_index(wi, x, y, c)] as int
                    },
            decreases if block_y <= max_y {
                max_y + 1 - block_y
            } else {
                0
            },
        {
            let block_end_y = if block_y + bs - 1 <= max_y {
                block_y + bs - 1
            } else {
                max_y
            };
            let ghost mut kx: int = 0;
            let mut block_x = min_x;
            while block_x <= max_x
                invariant
                    self.wf(),
                    self.width == w,
                    self.height == h,
                    wi == w as int,
                    hi == h as int,
                    old_pix.len() == wi * hi * 4,
                    bs >= 1,
                    max_x + bs <= u32::MAX,
                    max_y + bs <= u32::MAX,
                    wi * hi * 255 <= u64::MAX,
                    min_x == span_low(x1, x2),
                    max_x == span_high(x1, x2, w),
                    min_y == span_low(y1, y2),
                    max_y == span_high(y1, y2, h),
                    w > 0 ==> max_x < w,
                    h > 0 ==> max_y < h,
                    (w == 0 || h == 0) ==> !(min_x <= max_x && min_y <= max_y),
                    ky >= 0,
                    block_y == min_y + ky * bs,
                    min_y <= block_y <= max_y,
                    block_end_y == (if block_y + bs - 1 <= max_y {
                        block_y + bs - 1
                    } else {
                        max_y as int
                    }),
                    kx >= 0,
                    block_x == min_x + kx * bs,
                    forall|x: int, y: int, c: int|
                        0 <= x < wi && 0 <= y < hi && 0 <= c < 4 ==> #[trigger] self.pixels@[pixel_index(
                            wi,
                            x,
                            y,
                            c,
                        )] == if min_x <= x <= max_x && min_y <= y <= max_y && (y < block_y || (
                        block_y <= y <= block_end_y && x < block_x)) {
                            pixelated_value(
                                old_pix,
                                wi,
                                min_x as int,
                                max_x as int,
                                min_y as int,
                                max_y as int,
                                bs as int,
                                x,
                                y,
                                c,
                            )
                        } else {
                            old_pix[pixel_index(wi, x, y, c)] as int
                        },
                decreases if block_x <= max_x {
                    max_x + 1 - block_x
                } else {
                    0
                },
            {
                let block_end_x = if block_x + bs - 1 <= max_x {
                    block_x + bs - 1
                } else {
                    max_x
                };
                let ghost cur = self.pixels@;
                proof {
                    assert forall|c: int| 0 <= c < 4 implies block_sum(
                        cur,
                        wi,
                        block_x as int,
                        block_end_x as int,
                        block_y as int,
                        block_end_y as int,
                        c,
                    ) == block_sum(
                        old_pix,
                        wi,
                        block_x as int,
                        block_end_x as int,
                        block_y as int,
                        block_end_y as int,
                        c,
                    ) by {
                        assert forall|x: int, y: int|
                            block_x <= x <= block_end_x && block_y <= y
                                <= block_end_y implies #[trigger] cur[pixel_index(wi, x, y, c)]
                            == old_pix[pixel_index(wi, x, y, c)] by {}
                        lemma_block_sum_agree(
                            cur,
                            old_pix,
                            wi,
                            block_x as int,
                            block_end_x as int,
                            block_y as int,
                            block_end_y as int,
                            c,
                        );
                    }
                }
                let (t0, t1, t2, t3) = self.sum_block(block_x, block_end_x, block_y, block_end_y);
                let ghost ncols = block_end_x - block_x + 1;
                let ghost nrows = block_end_y - block_y + 1;
                proof {
                    assert(ncols * nrows <= wi * hi) by (nonlinear_arith)
                        requires
                            0 < ncols <= wi,
                            0 < nrows <= hi,
                    ;
                    assert(ncols * nrows * 255 <= u64::MAX) by (nonlinear_arith)
                        requires
                            ncols * nrows <= wi * hi,
                            wi * hi * 255 <= u64::MAX,
                            ncols * nrows >= 0,
                    ;
                    lemma_block_sum_bound(old_pix, wi, block_x as int, block_end_x as int, block_y as int, block_end_y as int, 0);
                    lemma_block_sum_bound(old_pix, wi, block_x as int, block_end_x as int, block_y as int, block_end_y as int, 1);
                    lemma_block_sum_bound(old_pix, wi, block_x as int, block_end_x as int, block_y as int, block_end_y as int, 2);
                    lemma_block_sum_bound(old_pix, wi, block_x as int, block_end_x as int, block_y as int, block_end_y as int, 3);
                    assert(255 * ncols * nrows == ncols * nrows * 255) by (nonlinear_arith);
                }
                let count: u64 = ((block_end_x - block_x + 1) as u64) * ((block_end_y - block_y + 1) as u64);
                proof {
                    assert(count as int == ncols * nrows);
                    assert(count > 0) by (nonlinear_arith)
                        requires
                            ncols > 0,
                            nrows > 0,
                            count == ncols * nrows,
                    ;
                    assert(t0 / count <= 255 && t1 / count <= 255 && t2 / count <= 255 && t3 / count <= 255) by (nonlinear_arith)
                        requires
                            count > 0,
                            t0 <= 255 * count,
                            t1 <= 255 * count,
                            t2 <= 255 * count,
                            t3 <= 255 * count,
                    ;
                }
                let avg = ((t0 / count) as u8, (t1 / count) as u8, (t2 / count) as u8, (t3 / count) as u8);
                let ghost before_fill = self.pixels@;
                self.fill_block(block_x, block_end_x, block_y, block_end_y, avg);
                proof {
                    assert forall|x: int, y: int, c: int|
                        0 <= x < wi && 0 <= y < hi && 0 <= c < 4 implies #[trigger] self.pixels@[pixel_index(
                            wi,
                            x,
                            y,
                            c,
                        )] == if min_x <= x <= max_x && min_y <= y <= max_y && (y < block_y || (
                        block_y <= y <= block_end_y && x < block_x + bs)) {
                            pixelated_value(
                                old_pix,
                                wi,
                                min_x as int,
                                max_x as int,
                                min_y as int,
                                max_y as int,
                                bs as int,
                                x,
                                y,
                                c,
                            )
                        } else {
                            old_pix[pixel_index(wi, x, y, c)] as int
                        } by {
                        if block_x <= x <= block_end_x && block_y <= y <= block_end_y {
                            lemma_block_of(min_x as int, max_x as int, bs as int, kx, x);
                            lemma_block_of(min_y as int, max_y as int, bs as int, ky, y);
                            assert(channel(avg, c) == block_sum(
                                old_pix,
                                wi,
                                block_x as int,
                                block_end_x as int,
                                block_y as int,
                                block_end_y as int,
                                c,
                            ) / (count as int));
                        } else {
                            assert(self.pixels@[pixel_index(wi, x, y, c)] == before_fill[pixel_index(wi, x, y, c)]);
                        }
                    }
                }
                block_x = block_x + bs;
                proof {
                    assert(min_x + kx * bs + bs == min_x + (kx + 1) * bs) by (nonlinear_arith);
                    kx = kx + 1;
                }
            }
            proof {
                assert forall|x: int, y: int, c: int|
                    0 <= x < wi && 0 <= y < hi && 0 <= c < 4 implies #[trigger] self.pixels@[pixel_index(
                        wi,
                        x,
                        y,
                        c,
                    )] == if min_x <= x <= max_x && min_y <= y <= max_y && y < block_y + bs {
                        pixelated_value(
                            old_pix,
                            wi,
                            min_x as int,
                            max_x as int,
                            min_y as int,
                            max_y as int,
                            bs as int,
                            x,
                            y,
                            c,
                        )
                    } else {
                        old_pix[pixel_index(wi, x, y, c)] as int
                    } by {}
            }
            block_y = block_y + bs;
            proof {
                assert(min_y + ky * bs + bs == min_y + (ky + 1) * bs) by (nonlinear_arith);
                ky = ky + 1;
            }
        }
    }
}

proof fn lemma_row_sum_uniform(pix: Seq<u8>, w: int, y: int, x0: int, x1: int, c: int, m: int)
    requires
        forall|x: int| x0 <= x <= x1 ==> #[trigger] pix[pixel_index(w, x, y, c)] == m,
    ensures
        row_sum(pix, w, y, x0, x1, c) == m * (if x1 < x0 {
            0
        } else {
            x1 - x0 + 1
        }),
    decreases x1 - x0 + 1,
{
    if x1 >= x0 {
        lemma_row_sum_uniform(pix, w, y, x0, x1 - 1, c, m);
        assert(m * (x1 - 1 - x0 + 1) + m == m * (x1 - x0 + 1)) by (nonlinear_arith);
        if x1 - 1 < x0 {
            assert(m * 0 == 0) by (nonlinear_arith);
        }
    }
}

proof fn lemma_block_sum_uniform(
    pix: Seq<u8>,
    w: int,
    x0: int,
    x1: int,
    y0: int,
    y1: int,
    c: int,
    m: int,
)
    requires
        x0 <= x1,
        forall|x: int, y: int|
            x0 <= x <= x1 && y0 <= y <= y1 ==> #[trigger] pix[pixel_index(w, x, y, c)] == m,
    ensures
        block_sum(pix, w, x0, x1, y0, y1, c) == m * (x1 - x0 + 1) * (if y1 < y0 {
            0
        } else {
            y1 - y0 + 1
        }),
    decreases y1 - y0 + 1,
{
    if y1 >= y0 {
        lemma_block_sum_uniform(pix, w, x0, x1, y0, y1 - 1, c, m);
        assert forall|x: int| x0 <= x <= x1 implies #[trigger] pix[pixel_index(w, x, y1, c)] == m by {}
        lemma_row_sum_uniform(pix, w, y1, x0, x1, c, m);
        let n = x1 - x0 + 1;
        assert(m * n * (y1 - 1 - y0 + 1) + m * n == m * n * (y1 - y0 + 1)) by (nonlinear_arith);
        if y1 - 1 < y0 {
            assert(m * n * 0 == 0) by (nonlinear_arith);
        }
    }
}

/// A coordinate lies in its own block.
proof fn lemma_block_contains(lo: int, bs: int, v: int)
    requires
        bs > 0,
        lo <= v,
    ensures
        lo <= block_start(lo, bs, v) <= v <= block_start(lo, bs, v) + bs - 1,
{
    let k = (v - lo) / bs;
    assert(k * bs <= v - lo < k * bs + bs && k >= 0) by (nonlinear_arith)
        requires
            bs > 0,
            v - lo >= 0,
            k == (v - lo) / bs,
    ;
}

/// Every coordinate of the block holding `v` has that same block.
proof fn lemma_same_block(lo: int, hi: int, bs: int, v: int, u: int)
    requires
        bs > 0,
        lo <= v,
        block_start(lo, bs, v) <= u <= block_start(lo, bs, v) + bs - 1,
    ensures
        block_start(lo, bs, u) == block_start(lo, bs, v),
        block_end(lo, hi, bs, u) == block_end(lo, hi, bs, v),
{
    let k = (v - lo) / bs;
    assert(k * bs <= v - lo < k * bs + bs && k >= 0) by (nonlinear_arith)
        requires
            bs > 0,
            v - lo >= 0,
            k == (v - lo) / bs,
    ;
    lemma_block_of(lo, hi, bs, k, u);
}

/// Law: pixelating a region that was just pixelated with the same corners
/// and block size changes nothing (every block already holds one color).
pub proof fn law_pixelate_idempotent(
    pix: Seq<u8>,
    once: Seq<u8>,
    w: u32,
    h: u32,
    x1: i32,
    y1: i32,
    x2: i32,
    y2: i32,
    bs: u32,
)
    requires
        bs >= 1,
        pix.len() == w as int * h as int * 4,
        once.len() == pix.len(),
        forall|x: int, y: int, c: int|
            0 <= x < w && 0 <= y < h && 0 <= c < 4 ==> #[trigger] once[pixel_index(w as int, x, y, c)]
                == pixelated_pixel(pix, w, h, x1, y1, x2, y2, bs, x, y, c),
    ensures
        forall|x: int, y: int, c: int|
            0 <= x < w && 0 <= y < h && 0 <= c < 4 ==> pixelated_pixel(once, w, h, x1, y1, x2, y2, bs, x, y, c)
                == #[trigger] once[pixel_index(w as int, x, y, c)],
{
    let lx = span_low(x1, x2);
    let hx = span_high(x1, x2, w);
    let ly = span_low(y1, y2);
    let hy = span_high(y1, y2, h);
    let wi = w as int;
    let b = bs as int;
    assert forall|x: int, y: int, c: int|
        0 <= x < w && 0 <= y < h && 0 <= c < 4 implies pixelated_pixel(once, w, h, x1, y1, x2, y2, bs, x, y, c)
        == #[trigger] once[pixel_index(w as int, x, y, c)] by {
        if lx <= x <= hx && ly <= y <= hy {
            let bx0 = block_start(lx, b, x);
            let bx1 = block_end(lx, hx, b, x);
            let by0 = block_start(ly, b, y);
            let by1 = block_end(ly, hy, b, y);
            lemma_block_contains(lx, b, x);
            lemma_block_contains(ly, b, y);
            let m = pixelated_value(pix, wi, lx, hx, ly, hy, b, x, y, c);
            assert forall|u: int, v: int| bx0 <= u <= bx1 && by0 <= v <= by1 implies #[trigger] once[pixel_index(
                wi,
                u,
                v,
                c,
            )] == m by {
                lemma_same_block(lx, hx, b, x, u);
                lemma_same_block(ly, hy, b, y, v);
                assert(u < w && v < h);
                assert(once[pixel_index(wi, u, v, c)] == pixelated_pixel(pix, w, h, x1, y1, x2, y2, bs, u, v, c));
            }
            assert(bx0 <= bx1);
            lemma_block_sum_uniform(once, wi, bx0, bx1, by0, by1, c, m);
            let n = (bx1 - bx0 + 1) * (by1 - by0 + 1);
            assert(m * (bx1 - bx0 + 1) * (by1 - by0 + 1) == m * n) by (nonlinear_arith)
                requires
                    n == (bx1 - bx0 + 1) * (by1 - by0 + 1),
            ;
            assert(n > 0) by (nonlinear_arith)
                requires
                    bx1 - bx0 + 1 > 0,
                    by1 - by0 + 1 > 0,
                    n == (bx1 - bx0 + 1) * (by1 - by0 + 1),
            ;
            assert(m * n / n == m) by (nonlinear_arith)
                requires
                    n > 0,
            ;
            assert(once[pixel_index(wi, x, y, c)] == m);
        }
    }
}

/// `a - b` saturated to the `i32` range, then read as a size (a negative
/// size is empty).
pub open spec fn saturating_extent(a: i32, b: i32) -> int {
    let d = a - b;
    let sat = if d > i32::MAX {
        i32::MAX as int
    } else if d < i32::MIN {
        i32::MIN as int
    } else {
        d
    };
    if sat < 0 {
        0
    } else {
        sat
    }
}

fn extent(a: i32, b: i32) -> (r: u32)
    ensures
        r == saturating_extent(a, b),
{
    let d: i64 = a as i64 - b as i64;
    if d < 0 {
        0
    } else if d > i32::MAX as i64 {
        i32::MAX as u32
    } else {
        d as u32
    }
}

/// Size of the canvas that a capture spanning several screens is drawn on:
/// the width and height of `bounds` (an inverted rectangle gives an empty
/// canvas).
pub fn canvas_size(bounds: Rect) -> (r: (u32, u32))
    ensures
        r.0 == saturating_extent(bounds.right, bounds.left),
        r.1 == saturating_extent(bounds.bottom, bounds.top),
{
    (extent(bounds.right, bounds.left), extent(bounds.bottom, bounds.top))
}

/// Where a screen's frame is placed on the canvas: its offset from the
/// canvas's top-left corner.
pub fn frame_offset(rect: Rect, bounds: Rect) -> (r: (i64, i64))
    ensures
        r.0 == rect.left - bounds.left,
        r.1 == rect.top - bounds.top,
{
    (rect.left as i64 - bounds.left as i64, rect.top as i64 - bounds.top as i64)
}

} // verus!
