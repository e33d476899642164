//! Asset management: CPU-side images, reference-counted handles and the
//! image cache.

use std::sync::Arc;
use vstd::prelude::*;
use crate::text::{skip_leading, strip_leading};
use vstd::arithmetic::div_mod::{
    lemma_fundamental_div_mod, lemma_fundamental_div_mod_converse, lemma_mod_pos_bound,
    lemma_div_pos_is_pos,
};

verus! {

// ─────────────────────────────────────────────
// Asset handle
// ─────────────────────────────────────────────

/// The shared part of an asset handle.
#[derive(Debug)]
struct AssetInner<T> {
    /// The loaded asset data.
    data: T,
    /// Path this was loaded from.
    path: String,
    /// Whether this asset has been modified (for hot-reload).
    modified: bool,
}

/// A reference-counted handle to a loaded asset.
///
/// Cheap to clone — all clones point to the same loaded data.
#[derive(Debug)]
pub struct AssetHandle<T> {
    inner: Arc<AssetInner<T>>,
}

/// `Arc::clone`: another pointer to the same allocation, which therefore
/// reads the same value.
#[verifier::external_body]
fn arc_clone<T>(a: &Arc<T>) -> (r: Arc<T>)
    ensures
        r == *a,
{
    Arc::clone(a)
}

/// `Arc::strong_count`: the number of strong pointers to the allocation,
/// which counts the one passed in, so it is at least one. How many other
/// pointers exist depends on the rest of the program and is not stated.
#[verifier::external_body]
fn arc_strong_count<T>(a: &Arc<T>) -> (n: usize)
    ensures
        n >= 1,
{
    Arc::strong_count(a)
}

impl<T> AssetHandle<T> {
    /// The asset data the handle points to.
    pub closed spec fn data(&self) -> T {
        self.inner.data
    }

    /// The path the asset was loaded from.
    pub closed spec fn spec_path(&self) -> Seq<char> {
        self.inner.path@
    }

    /// Get a reference to the asset data.
    pub fn get(&self) -> (r: &T)
        ensures
            *r == self.data(),
    {
        &self.inner.data
    }

    /// Get the path this asset was loaded from.
    pub fn path(&self) -> (r: &str)
        ensures
            r@ == self.spec_path(),
    {
        self.inner.path.as_str()
    }

    /// Strong reference count: how many handles share this asset (this one
    /// included).
    pub fn ref_count(&self) -> (n: usize)
        ensures
            n >= 1,
    {
        arc_strong_count(&self.inner)
    }
}

impl<T> Clone for AssetHandle<T> {
    /// Another handle to the same loaded asset.
    fn clone(&self) -> (r: Self)
        ensures
            r == *self,
    {
        AssetHandle { inner: arc_clone(&self.inner) }
    }
}

impl<T> std::ops::Deref for AssetHandle<T> {
    type Target = T;

    /// The asset data, so that a handle can be used where the data is expected.
    fn deref(&self) -> (r: &T)
        ensures
            *r == self.data(),
    {
        &self.inner.data
    }
}

/// Identifiers for different asset types.
#[derive(Debug, Clone, Copy, PartialEq, Eq, Hash, Structural)]
pub enum AssetType {
    /// Raw pixel data (before GPU upload).
    Image,
    /// GPU texture (after upload to the rendering backend).
    Texture,
    /// Font data.
    Font,
    /// Audio clip.
    Sound,
    /// Text/shader/JSON file.
    Text,
    /// Serialized data (JSON, RON, etc.).
    Data,
}

/// Pixel format.
#[derive(Debug, Clone, Copy, PartialEq, Eq, Structural)]
pub enum PixelFormat {
    /// 8-bit RGBA (4 bytes per pixel).
    Rgba8,
    /// 8-bit RGB (3 bytes per pixel).
    Rgb8,
    /// 8-bit grayscale (1 byte per pixel).
    Grayscale8,
}

/// Image asset (CPU-side pixel data), four bytes (RGBA) per pixel, rows stored
/// top to bottom.
#[derive(Debug, Clone)]
pub struct ImageAsset {
    /// Pixel width.
    pub width: u32,
    /// Pixel height.
    pub height: u32,
    /// Raw RGBA pixel data.
    pub pixels: Vec<u8>,
    /// Format.
    pub format: PixelFormat,
}

/// Byte offset of pixel `(x, y)` in an RGBA buffer `width` pixels wide.
pub open spec fn pixel_offset(width: u32, x: u32, y: u32) -> int {
    (y * width + x) * 4
}

/// The pixel offset of `(x, y)` is computable in `u32` arithmetic.
pub open spec fn offset_fits(width: u32, x: u32, y: u32) -> bool {
    pixel_offset(width, x, y) <= u32::MAX
}

/// The pixel read at `(x, y)` from `pixels`: its four bytes where all four lie
/// inside the buffer, else transparent black.
pub open spec fn pixel_at(pixels: Seq<u8>, width: u32, x: u32, y: u32) -> (u8, u8, u8, u8) {
    let i = pixel_offset(width, x, y);
    if i + 3 >= pixels.len() {
        (0, 0, 0, 0)
    } else {
        (pixels[i], pixels[i + 1], pixels[i + 2], pixels[i + 3])
    }
}

/// `pixels` with the four bytes of the pixel at byte offset `i` replaced.
pub open spec fn write_pixel(pixels: Seq<u8>, i: int, r: u8, g: u8, b: u8, a: u8) -> Seq<u8> {
    pixels.update(i, r).update(i + 1, g).update(i + 2, b).update(i + 3, a)
}


/// Component `ch` (0 = red, 1 = green, 2 = blue, 3 = alpha) of a pixel.
pub open spec fn component(p: (u8, u8, u8, u8), ch: int) -> u8 {
    if ch == 0 {
        p.0
    } else if ch == 1 {
        p.1
    } else if ch == 2 {
        p.2
    } else {
        p.3
    }
}

/// Where byte `i` of a horizontally flipped buffer comes from: inside the
/// `height` full rows of `width` pixels, the pixel of the same row at the
/// mirrored column, with its channel order kept; past them, byte `i` itself.
pub open spec fn hflip_source(width: u32, height: u32, i: int) -> int {
    let rb = width * 4;
    if 0 <= i < height * rb {
        let row = i / rb;
        let cb = i % rb;
        row * rb + (width - 1 - cb / 4) * 4 + cb % 4
    } else {
        i
    }
}

/// Where byte `i` of a vertically flipped buffer comes from: inside the
/// `height` full rows, the same byte of the mirrored row; past them, byte `i`
/// itself.
pub open spec fn vflip_source(width: u32, height: u32, i: int) -> int {
    let rb = width * 4;
    if 0 <= i < height * rb {
        (height - 1 - i / rb) * rb + i % rb
    } else {
        i
    }
}

/// Byte `i` of the `w`-pixel-wide region cut out of `pixels` (an image
/// `width` pixels wide) with its top-left corner at `(x, y)`.
pub open spec fn region_byte(pixels: Seq<u8>, width: u32, x: u32, y: u32, w: u32, i: int) -> u8 {
    let rb = w * 4;
    let py = i / rb;
    let cb = i % rb;
    component(pixel_at(pixels, width, (x + cb / 4) as u32, (y + py) as u32), cb % 4)
}

/// A buffer flipped horizontally (see `hflip_source`).
pub open spec fn hflipped(pixels: Seq<u8>, width: u32, height: u32) -> Seq<u8> {
    Seq::new(pixels.len(), |i: int| pixels[hflip_source(width, height, i)])
}

/// A buffer flipped vertically (see `vflip_source`).
pub open spec fn vflipped(pixels: Seq<u8>, width: u32, height: u32) -> Seq<u8> {
    Seq::new(pixels.len(), |i: int| pixels[vflip_source(width, height, i)])
}

/// The buffer of the `w` by `h` region cut out at `(x, y)`.
pub open spec fn region(pixels: Seq<u8>, width: u32, x: u32, y: u32, w: u32, h: u32) -> Seq<u8> {
    Seq::new((w * h * 4) as nat, |i: int| region_byte(pixels, width, x, y, w, i))
}

/// Splitting a byte offset inside `rows` full rows of `rb` bytes into its row
/// and its offset within the row.
proof fn lemma_row_split(i: int, rb: int, rows: int)
    requires
        rb > 0,
        0 <= i < rows * rb,
    ensures
        0 <= i / rb < rows,
        0 <= i % rb < rb,
        i == (i / rb) * rb + i % rb,
        (i / rb) * rb + rb <= rows * rb,
{
    lemma_fundamental_div_mod(i, rb);
    lemma_mod_pos_bound(i, rb);
    lemma_div_pos_is_pos(i, rb);
    let q = i / rb;
    assert(q * rb == rb * q) by (nonlinear_arith);
    assert(q < rows) by (nonlinear_arith)
        requires
            i == q * rb + i % rb,
            0 <= i % rb,
            i < rows * rb,
            rb > 0,
    ;
    assert(q * rb + rb <= rows * rb) by (nonlinear_arith)
        requires
            q < rows,
            rb > 0,
    ;
}

/// Joining a row and an offset within it back into a byte offset.
proof fn lemma_row_join(q: int, c: int, rb: int, rows: int)
    requires
        rb > 0,
        0 <= q < rows,
        0 <= c < rb,
    ensures
        (q * rb + c) / rb == q,
        (q * rb + c) % rb == c,
        0 <= q * rb + c < rows * rb,
{
    lemma_fundamental_div_mod_converse(q * rb + c, rb, q, c);
    assert(0 <= q * rb + c < rows * rb) by (nonlinear_arith)
        requires
            0 <= q < rows,
            0 <= c < rb,
            rb > 0,
    ;
}

/// The mirrored source of a byte offset inside the full rows stays inside
/// them and the map is its own inverse.
proof fn lemma_hflip_source(width: u32, height: u32, i: int)
    requires
        0 <= i < height * (width * 4),
    ensures
        0 <= hflip_source(width, height, i) < height * (width * 4),
        hflip_source(width, height, hflip_source(width, height, i)) == i,
{
    let rb = width * 4;
    lemma_row_split(i, rb, height as int);
    let row = i / rb;
    let cb = i % rb;
    lemma_row_split(cb, 4, width as int);
    let col = cb / 4;
    let ch = cb % 4;
    let mcol = width - 1 - col;
    let mcb = mcol * 4 + ch;
    lemma_row_join(mcol, ch, 4, width as int);
    lemma_row_join(row, mcb, rb, height as int);
    let j = row * rb + mcb;
    assert(hflip_source(width, height, i) == j);
    assert(hflip_source(width, height, j) == row * rb + (width - 1 - mcol) * 4 + ch);
}

/// The mirrored source of a byte offset inside the full rows stays inside
/// them and the map is its own inverse.
proof fn lemma_vflip_source(width: u32, height: u32, i: int)
    requires
        0 <= i < height * (width * 4),
    ensures
        0 <= vflip_source(width, height, i) < height * (width * 4),
        vflip_source(width, height, vflip_source(width, height, i)) == i,
{
    let rb = width * 4;
    lemma_row_split(i, rb, height as int);
    let row = i / rb;
    let c = i % rb;
    let mrow = height - 1 - row;
    lemma_row_join(mrow, c, rb, height as int);
    let j = mrow * rb + c;
    assert(vflip_source(width, height, i) == j);
}

/// The byte of a cut-out region at pixel `(px, py)`, channel `ch`, is that
/// channel of the source pixel `(x + px, y + py)`.
proof fn lemma_region_byte_at(
    pixels: Seq<u8>,
    width: u32,
    x: u32,
    y: u32,
    w: u32,
    h: u32,
    px: int,
    py: int,
    ch: int,
)
    requires
        0 <= px < w,
        0 <= py < h,
        0 <= ch < 4,
    ensures
        0 <= (py * w + px) * 4 + ch < w * h * 4,
        (py * w + px) * 4 + ch == py * (w * 4) + (px * 4 + ch),
        region_byte(pixels, width, x, y, w, (py * w + px) * 4 + ch) == component(
            pixel_at(pixels, width, (x + px) as u32, (y + py) as u32),
            ch,
        ),
{
    let rb = w * 4;
    lemma_row_join(px, ch, 4, w as int);
    lemma_row_join(py, px * 4 + ch, rb, h as int);
    assert((py * w + px) * 4 + ch == py * rb + (px * 4 + ch)) by (nonlinear_arith)
        requires
            rb == w * 4,
    ;
    assert(h * rb == w * h * 4) by (nonlinear_arith)
        requires
            rb == w * 4,
    ;
}

/// Offsets grow with the coordinates.
proof fn lemma_offset_monotone(width: u32, x1: u32, y1: u32, x2: u32, y2: u32)
    requires
        x1 <= x2,
        y1 <= y2,
    ensures
        pixel_offset(width, x1, y1) <= pixel_offset(width, x2, y2),
{
    assert(y1 * width <= y2 * width) by (nonlinear_arith)
        requires
            y1 <= y2,
            width >= 0,
    ;
}

impl ImageAsset {
    /// The pixel at `(x, y)` as `get_pixel` reads it.
    pub open spec fn spec_pixel(&self, x: u32, y: u32) -> (u8, u8, u8, u8) {
        pixel_at(self.pixels@, self.width, x, y)
    }

    /// Create an empty (all-zero) RGBA image with the given dimensions.
    pub fn new(width: u32, height: u32) -> (img: Self)
        requires
            width * height * 4 <= u32::MAX,
        ensures
            img.width == width,
            img.height == height,
            img.format == PixelFormat::Rgba8,
            img.pixels@ == Seq::new((width * height * 4) as nat, |i: int| 0u8),
    {
        let n: u32 = width * height * 4;
        let pixels: Vec<u8> = vec![0u8; n as usize];
        proof {
            assert forall|i: int| 0 <= i < pixels@.len() implies pixels@[i] == 0u8 by {
                assert(cloned(0u8, pixels@[i]));
            }
        }
        ImageAsset { width, height, pixels, format: PixelFormat::Rgba8 }
    }

    /// Get the pixel at `(x, y)` as `(r, g, b, a)`; `(0, 0, 0, 0)` where the
    /// pixel lies outside the buffer.
    pub fn get_pixel(&self, x: u32, y: u32) -> (p: (u8, u8, u8, u8))
        requires
            offset_fits(self.width, x, y),
        ensures
            p == self.spec_pixel(x, y),
    {
        let idx: usize = ((y * self.width + x) * 4) as usize;
        if idx + 3 >= self.pixels.len() {
            return (0, 0, 0, 0);
        }
        (self.pixels[idx], self.pixels[idx + 1], self.pixels[idx + 2], self.pixels[idx + 3])
    }

    /// Set the pixel at `(x, y)`; does nothing where the pixel lies outside
    /// the buffer.
    pub fn set_pixel(&mut self, x: u32, y: u32, r: u8, g: u8, b: u8, a: u8)
        requires
            offset_fits(old(self).width, x, y),
        ensures
            final(self).width == old(self).width,
            final(self).height == old(self).height,
            final(self).format == old(self).format,
            ({
                let i = pixel_offset(old(self).width, x, y);
                final(self).pixels@ == if i + 3 < old(self).pixels@.len() {
                    write_pixel(old(self).pixels@, i, r, g, b, a)
                } else {
                    old(self).pixels@
                }
            }),
    {
        let idx: usize = ((y * self.width + x) * 4) as usize;
        if idx + 3 < self.pixels.len() {
            self.pixels.set(idx, r);
            self.pixels.set(idx + 1, g);
            self.pixels.set(idx + 2, b);
            self.pixels.set(idx + 3, a);
        }
    }

    /// Flip the image horizontally: every row is mirrored pixel by pixel, the
    /// channel order inside each pixel is kept. Bytes past the last full row
    /// stay where they are.
    pub fn flip_horizontal(&mut self)
        requires
            old(self).width * 4 <= usize::MAX,
            old(self).height >= 1 ==> old(self).height * (old(self).width * 4)
                <= old(self).pixels@.len(),
        ensures
            final(self).width == old(self).width,
            final(self).height == old(self).height,
            final(self).format == old(self).format,
            final(self).pixels@ == hflipped(old(self).pixels@, old(self).width, old(self).height),
    {
        let w: usize = self.width as usize;
        let rb: usize = w * 4;
        let h: usize = self.height as usize;
        let len: usize = self.pixels.len();
        let limit: usize = if h == 0 { 0 } else { h * rb };
        proof {
            let hh = self.height as int;
            let ww = self.width as int;
            assert(limit == hh * (ww * 4)) by (nonlinear_arith)
                requires
                    h == hh,
                    rb == ww * 4,
                    (h == 0 && limit == 0) || (h == 1 && limit == rb) || (h >= 1 && limit
                        == h * rb),
            ;
        }
        let mut out: Vec<u8> = Vec::with_capacity(len);
        let mut i: usize = 0;
        while i < len
            invariant
                i <= len,
                len == self.pixels@.len(),
                w == self.width,
                rb == self.width * 4,
                h == self.height,
                limit == self.height * (self.width * 4),
                h >= 1 ==> limit <= len,
                out@.len() == i,
                forall|j: int|
                    0 <= j < i ==> #[trigger] out@[j] == self.pixels@[hflip_source(
                        self.width,
                        self.height,
                        j,
                    )],
            decreases len - i,
        {
            let src: usize = if i < limit {
                proof {
                    lemma_row_split(i as int, rb as int, h as int);
                    lemma_row_split((i % rb) as int, 4, w as int);
                    lemma_hflip_source(self.width, self.height, i as int);
                }
                let row: usize = i / rb;
                let cb: usize = i % rb;
                row * rb + (w - 1 - cb / 4) * 4 + cb % 4
            } else {
                i
            };
            out.push(self.pixels[src]);
            i += 1;
        }
        self.pixels = out;
    }

    /// Flip the image vertically: row `r` of the result is row
    /// `height - 1 - r` of the original. Bytes past the last full row stay
    /// where they are.
    pub fn flip_vertical(&mut self)
        requires
            old(self).width * 4 <= usize::MAX,
            old(self).height >= 2 ==> old(self).height * (old(self).width * 4)
                <= old(self).pixels@.len(),
        ensures
            final(self).width == old(self).width,
            final(self).height == old(self).height,
            final(self).format == old(self).format,
            final(self).pixels@ == vflipped(old(self).pixels@, old(self).width, old(self).height),
    {
        let w: usize = self.width as usize;
        let rb: usize = w * 4;
        let h: usize = self.height as usize;
        let len: usize = self.pixels.len();
        let limit: usize = if h == 0 {
            0
        } else if h == 1 {
            rb
        } else {
            h * rb
        };
        proof {
            let hh = self.height as int;
            let ww = self.width as int;
            assert(limit == hh * (ww * 4)) by (nonlinear_arith)
                requires
                    h == hh,
                    rb == ww * 4,
                    (h == 0 && limit == 0) || (h == 1 && limit == rb) || (h >= 1 && limit
                        == h * rb),
            ;
        }
        let mut out: Vec<u8> = Vec::with_capacity(len);
        let mut i: usize = 0;
        while i < len
            invariant
                i <= len,
                len == self.pixels@.len(),
                w == self.width,
                rb == self.width * 4,
                h == self.height,
                limit == self.height * (self.width * 4),
                h >= 2 ==> limit <= len,
                out@.len() == i,
                forall|j: int|
                    0 <= j < i ==> #[trigger] out@[j] == self.pixels@[vflip_source(
                        self.width,
                        self.height,
                        j,
                    )],
            decreases len - i,
        {
            let src: usize = if i < limit {
                proof {
                    lemma_row_split(i as int, rb as int, h as int);
                    lemma_vflip_source(self.width, self.height, i as int);
                }
                (h - 1 - i / rb) * rb + i % rb
            } else {
                i
            };
            out.push(self.pixels[src]);
            i += 1;
        }
        self.pixels = out;
    }

    /// Create a sub-image: the `w` by `h` region whose top-left corner is at
    /// `(x, y)`, each pixel read as `get_pixel` reads it (transparent black
    /// where the region leaves the source buffer).
    pub fn sub_image(&self, x: u32, y: u32, w: u32, h: u32) -> (sub: ImageAsset)
        requires
            w * h * 4 <= u32::MAX,
            w > 0 && h > 0 ==> {
                &&& x + w - 1 <= u32::MAX
                &&& y + h - 1 <= u32::MAX
                &&& offset_fits(self.width, (x + w - 1) as u32, (y + h - 1) as u32)
            },
        ensures
            sub.width == w,
            sub.height == h,
            sub.format == PixelFormat::Rgba8,
            sub.pixels@ == region(self.pixels@, self.width, x, y, w, h),
    {
        let mut out: Vec<u8> = Vec::new();
        let mut py: u32 = 0;
        while py < h
            invariant
                py <= h,
                w * h * 4 <= u32::MAX,
                w > 0 && h > 0 ==> {
                    &&& x + w - 1 <= u32::MAX
                    &&& y + h - 1 <= u32::MAX
                    &&& offset_fits(self.width, (x + w - 1) as u32, (y + h - 1) as u32)
                },
                out@.len() == py * w * 4,
                forall|j: int|
                    0 <= j < out@.len() ==> #[trigger] out@[j] == region_byte(
                        self.pixels@,
                        self.width,
                        x,
                        y,
                        w,
                        j,
                    ),
            decreases h - py,
        {
            let mut px: u32 = 0;
            while px < w
                invariant
                    px <= w,
                    py < h,
                    w * h * 4 <= u32::MAX,
                    w > 0 && h > 0 ==> {
                        &&& x + w - 1 <= u32::MAX
                        &&& y + h - 1 <= u32::MAX
                        &&& offset_fits(self.width, (x + w - 1) as u32, (y + h - 1) as u32)
                    },
                    out@.len() == (py * w + px) * 4,
                    forall|j: int|
                        0 <= j < out@.len() ==> #[trigger] out@[j] == region_byte(
                            self.pixels@,
                            self.width,
                            x,
                            y,
                            w,
                            j,
                        ),
                decreases w - px,
            {
                proof {
                    lemma_offset_monotone(
                        self.width,
                        (x + px) as u32,
                        (y + py) as u32,
                        (x + w - 1) as u32,
                        (y + h - 1) as u32,
                    );
                    lemma_region_byte_at(self.pixels@, self.width, x, y, w, h, px as int, py as int, 0);
                    lemma_region_byte_at(self.pixels@, self.width, x, y, w, h, px as int, py as int, 1);
                    lemma_region_byte_at(self.pixels@, self.width, x, y, w, h, px as int, py as int, 2);
                    lemma_region_byte_at(self.pixels@, self.width, x, y, w, h, px as int, py as int, 3);
                }
                let (r, g, b, a) = self.get_pixel(x + px, y + py);
                out.push(r);
                out.push(g);
                out.push(b);
                out.push(a);
                proof {
                    assert((py * w + px + 1) * 4 == (py * w + px) * 4 + 4);
                }
                px += 1;
            }
            proof {
                assert((py * w + w) * 4 == (py + 1) * w * 4) by (nonlinear_arith);
                assert(py * w * 4 == (py * w) * 4) by (nonlinear_arith);
            }
            py += 1;
        }
        proof {
            assert(h * w * 4 == w * h * 4) by (nonlinear_arith);
        }
        ImageAsset { width: w, height: h, pixels: out, format: PixelFormat::Rgba8 }
    }
}

} // verus!

verus! {

/// Flipping an image horizontally twice gives back the original buffer.
pub proof fn law_flip_horizontal_twice(pixels: Seq<u8>, width: u32, height: u32)
    requires
        height >= 1 ==> height * (width * 4) <= pixels.len(),
    ensures
        hflipped(hflipped(pixels, width, height), width, height) == pixels,
{
    let once = hflipped(pixels, width, height);
    let twice = hflipped(once, width, height);
    assert forall|i: int| 0 <= i < pixels.len() implies #[trigger] twice[i] == pixels[i] by {
        if i < height * (width * 4) {
            lemma_hflip_source(width, height, i);
        }
    }
    assert(twice =~= pixels);
}

/// Flipping an image vertically twice gives back the original buffer.
pub proof fn law_flip_vertical_twice(pixels: Seq<u8>, width: u32, height: u32)
    requires
        height >= 2 ==> height * (width * 4) <= pixels.len(),
    ensures
        vflipped(vflipped(pixels, width, height), width, height) == pixels,
{
    let once = vflipped(pixels, width, height);
    let twice = vflipped(once, width, height);
    assert forall|i: int| 0 <= i < pixels.len() implies #[trigger] twice[i] == pixels[i] by {
        if i < height * (width * 4) {
            lemma_vflip_source(width, height, i);
            if height == 1 {
                lemma_row_split(i, width * 4, 1);
                assert(i / (width * 4) == 0);
                assert(vflip_source(width, height, i) == 0 * (width * 4) + i % (width * 4));
                assert(0 * (width * 4) == 0) by (nonlinear_arith);
            }
        }
    }
    assert(twice =~= pixels);
}

/// In a well-formed image, the horizontal flip puts at `(x, y)` the pixel
/// that stood at the mirrored column `(width - 1 - x, y)`.
pub proof fn law_flip_horizontal_mirrors(pixels: Seq<u8>, width: u32, height: u32, x: u32, y: u32)
    requires
        pixels.len() == width * height * 4,
        x < width,
        y < height,
    ensures
        pixel_at(hflipped(pixels, width, height), width, x, y) == pixel_at(
            pixels,
            width,
            (width - 1 - x) as u32,
            y,
        ),
{
    let rb = width * 4;
    let mx = (width - 1 - x) as u32;
    let flipped = hflipped(pixels, width, height);
    assert(height * rb == width * height * 4) by (nonlinear_arith)
        requires
            rb == width * 4,
    ;
    assert(pixel_offset(width, x, y) == y * rb + x * 4) by (nonlinear_arith)
        requires
            rb == width * 4,
    ;
    assert(pixel_offset(width, mx, y) == y * rb + mx * 4) by (nonlinear_arith)
        requires
            rb == width * 4,
    ;
    assert forall|ch: int| 0 <= ch < 4 implies {
        &&& 0 <= #[trigger] (y * rb + x * 4 + ch) < height * rb
        &&& 0 <= y * rb + mx * 4 + ch < height * rb
        &&& hflip_source(width, height, y * rb + x * 4 + ch) == y * rb + mx * 4 + ch
    } by {
        lemma_row_join(x as int, ch, 4, width as int);
        lemma_row_join(mx as int, ch, 4, width as int);
        lemma_row_join(y as int, x * 4 + ch, rb, height as int);
        lemma_row_join(y as int, mx * 4 + ch, rb, height as int);
    }
    assert(y * rb + x * 4 + 0 == y * rb + x * 4);
    assert(y * rb + x * 4 + 3 == y * rb + x * 4 + 3);
}

/// In a well-formed image, the vertical flip puts at `(x, y)` the pixel
/// that stood at the mirrored row `(x, height - 1 - y)`.
pub proof fn law_flip_vertical_mirrors(pixels: Seq<u8>, width: u32, height: u32, x: u32, y: u32)
    requires
        pixels.len() == width * height * 4,
        x < width,
        y < height,
    ensures
        pixel_at(vflipped(pixels, width, height), width, x, y) == pixel_at(
            pixels,
            width,
            x,
            (height - 1 - y) as u32,
        ),
{
    let rb = width * 4;
    let my = (height - 1 - y) as u32;
    assert(height * rb == width * height * 4) by (nonlinear_arith)
        requires
            rb == width * 4,
    ;
    assert(pixel_offset(width, x, y) == y * rb + x * 4) by (nonlinear_arith)
        requires
            rb == width * 4,
    ;
    assert(pixel_offset(width, x, my) == my * rb + x * 4) by (nonlinear_arith)
        requires
            rb == width * 4,
    ;
    assert forall|ch: int| 0 <= ch < 4 implies {
        &&& 0 <= #[trigger] (y * rb + x * 4 + ch) < height * rb
        &&& 0 <= my * rb + x * 4 + ch < height * rb
        &&& vflip_source(width, height, y * rb + x * 4 + ch) == my * rb + x * 4 + ch
    } by {
        lemma_row_join(x as int, ch, 4, width as int);
        lemma_row_join(y as int, x * 4 + ch, rb, height as int);
        lemma_row_join(my as int, x * 4 + ch, rb, height as int);
    }
    assert(y * rb + x * 4 + 0 == y * rb + x * 4);
}

/// Writing a pixel and reading it back gives the written value.
pub proof fn law_set_then_get(pixels: Seq<u8>, width: u32, x: u32, y: u32, r: u8, g: u8, b: u8, a: u8)
    requires
        pixel_offset(width, x, y) + 3 < pixels.len(),
    ensures
        pixel_at(write_pixel(pixels, pixel_offset(width, x, y), r, g, b, a), width, x, y) == (
            r,
            g,
            b,
            a,
        ),
{
}

/// Writing a pixel leaves every pixel at another offset as it was.
pub proof fn law_set_leaves_others(
    pixels: Seq<u8>,
    width: u32,
    x: u32,
    y: u32,
    x2: u32,
    y2: u32,
    r: u8,
    g: u8,
    b: u8,
    a: u8,
)
    requires
        pixel_offset(width, x, y) + 3 < pixels.len(),
        pixel_offset(width, x, y) != pixel_offset(width, x2, y2),
    ensures
        pixel_at(write_pixel(pixels, pixel_offset(width, x, y), r, g, b, a), width, x2, y2)
            == pixel_at(pixels, width, x2, y2),
{
    let p = y * width + x;
    let q = y2 * width + x2;
    assert(p * 4 != q * 4);
    assert(p != q);
    assert(p < q ==> p * 4 + 4 <= q * 4);
    assert(q < p ==> q * 4 + 4 <= p * 4);
}

/// Cutting the whole of a well-formed image out of itself gives back its
/// buffer.
pub proof fn law_sub_image_whole(pixels: Seq<u8>, width: u32, height: u32)
    requires
        pixels.len() == width * height * 4,
    ensures
        region(pixels, width, 0, 0, width, height) == pixels,
{
    let rb = width * 4;
    let cut = region(pixels, width, 0, 0, width, height);
    assert(height * rb == width * height * 4) by (nonlinear_arith)
        requires
            rb == width * 4,
    ;
    assert forall|i: int| 0 <= i < pixels.len() implies #[trigger] cut[i] == pixels[i] by {
        lemma_row_split(i, rb, height as int);
        let py = i / rb;
        let cb = i % rb;
        lemma_row_split(cb, 4, width as int);
        let px = cb / 4;
        let ch = cb % 4;
        let pxu = px as u32;
        let pyu = py as u32;
        assert(pxu == px && pyu == py);
        assert(pixel_offset(width, pxu, pyu) == py * rb + px * 4) by (nonlinear_arith)
            requires
                rb == width * 4,
                pxu == px,
                pyu == py,
        ;
        assert(pixel_offset(width, pxu, pyu) + 3 < pixels.len());
    }
    assert(cut =~= pixels);
}

} // verus!

verus! {

// ─────────────────────────────────────────────
// Asset manager
// ─────────────────────────────────────────────

/// Configuration for asset loading.
#[derive(Debug, Clone)]
pub struct AssetConfig {
    /// Root directory for assets (default: "assets").
    pub root: String,
    /// Whether to enable hot-reload (debug builds only).
    pub hot_reload: bool,
}

/// The asset manager handles loading, caching, and lifecycle of game assets.
///
/// Images are cached by normalized path; loading a path twice hands out two
/// handles to the same image.
pub struct AssetManager {
    config: AssetConfig,
    /// Cached loaded images, at most one per normalized path.
    images: Vec<AssetHandle<ImageAsset>>,
    /// Loading queue.
    loading_queue: Vec<String>,
    /// Total bytes loaded.
    total_bytes: usize,
}

/// The cache key of `path` under the asset root `root`: the root, a slash,
/// and the path without its leading slashes and then its leading backslashes.
pub open spec fn normalized_path(root: Seq<char>, path: Seq<char>) -> Seq<char> {
    root + seq!['/'] + skip_leading(skip_leading(path, '/'), '\\')
}

/// Whether `img` is the placeholder image a fresh load produces: one
/// transparent-black RGBA pixel.
pub open spec fn is_placeholder(img: ImageAsset) -> bool {
    &&& img.width == 1
    &&& img.height == 1
    &&& img.format == PixelFormat::Rgba8
    &&& img.pixels@ == seq![0u8, 0u8, 0u8, 0u8]
}

/// The image cache as a map from path to image.
spec fn cache_map(s: Seq<AssetHandle<ImageAsset>>) -> Map<Seq<char>, ImageAsset>
    decreases s.len(),
{
    if s.len() == 0 {
        Map::empty()
    } else {
        cache_map(s.drop_last()).insert(s.last().spec_path(), s.last().data())
    }
}

/// No two cached handles share a path.
spec fn distinct_paths(s: Seq<AssetHandle<ImageAsset>>) -> bool {
    forall|i: int, j: int|
        0 <= i < s.len() && 0 <= j < s.len() && i != j ==> s[i].spec_path() != s[j].spec_path()
}

/// Total pixel bytes of the cached images.
spec fn bytes_of(s: Seq<AssetHandle<ImageAsset>>) -> int
    decreases s.len(),
{
    if s.len() == 0 {
        0
    } else {
        bytes_of(s.drop_last()) + s.last().data().pixels@.len()
    }
}

proof fn lemma_cache_contains(s: Seq<AssetHandle<ImageAsset>>, k: Seq<char>)
    ensures
        cache_map(s).contains_key(k) <==> exists|i: int|
            0 <= i < s.len() && #[trigger] s[i].spec_path() == k,
    decreases s.len(),
{
    if s.len() > 0 {
        lemma_cache_contains(s.drop_last(), k);
        if cache_map(s.drop_last()).contains_key(k) {
            let i = choose|i: int| 0 <= i < s.len() - 1 && #[trigger] s.drop_last()[i].spec_path() == k;
            assert(s[i].spec_path() == k);
        }
        if exists|i: int| 0 <= i < s.len() && #[trigger] s[i].spec_path() == k {
            let i = choose|i: int| 0 <= i < s.len() && #[trigger] s[i].spec_path() == k;
            if i < s.len() - 1 {
                assert(s.drop_last()[i].spec_path() == k);
            }
        }
    }
}

proof fn lemma_cache_value(s: Seq<AssetHandle<ImageAsset>>, i: int)
    requires
        distinct_paths(s),
        0 <= i < s.len(),
    ensures
        cache_map(s).contains_key(s[i].spec_path()),
        cache_map(s)[s[i].spec_path()] == s[i].data(),
    decreases s.len(),
{
    if i < s.len() - 1 {
        assert(distinct_paths(s.drop_last()));
        assert(s.drop_last()[i] == s[i]);
        lemma_cache_value(s.drop_last(), i);
    }
}

proof fn lemma_cache_len(s: Seq<AssetHandle<ImageAsset>>)
    requires
        distinct_paths(s),
    ensures
        cache_map(s).dom().finite(),
        cache_map(s).dom().len() == s.len(),
    decreases s.len(),
{
    if s.len() > 0 {
        let t = s.drop_last();
        assert(distinct_paths(t));
        lemma_cache_len(t);
        lemma_cache_contains(t, s.last().spec_path());
        if cache_map(t).contains_key(s.last().spec_path()) {
            let i = choose|i: int| 0 <= i < t.len() && #[trigger] t[i].spec_path() == s.last().spec_path();
            assert(s[i].spec_path() == s[s.len() - 1].spec_path());
        }
    }
}

proof fn lemma_cache_remove(s: Seq<AssetHandle<ImageAsset>>, i: int)
    requires
        distinct_paths(s),
        0 <= i < s.len(),
    ensures
        distinct_paths(s.remove(i)),
        cache_map(s.remove(i)) == cache_map(s).remove(s[i].spec_path()),
        bytes_of(s) == bytes_of(s.remove(i)) + s[i].data().pixels@.len(),
    decreases s.len(),
{
    let r = s.remove(i);
    assert(distinct_paths(r)) by {
        assert forall|a: int, b: int|
            0 <= a < r.len() && 0 <= b < r.len() && a != b implies r[a].spec_path()
            != r[b].spec_path() by {
            let sa = if a < i { a } else { a + 1 };
            let sb = if b < i { b } else { b + 1 };
            assert(r[a] == s[sa]);
            assert(r[b] == s[sb]);
        }
    }
    if i == s.len() - 1 {
        assert(r =~= s.drop_last());
        lemma_cache_contains(s.drop_last(), s[i].spec_path());
        assert(!cache_map(s.drop_last()).contains_key(s[i].spec_path())) by {
            if cache_map(s.drop_last()).contains_key(s[i].spec_path()) {
                let j = choose|j: int|
                    0 <= j < s.len() - 1 && #[trigger] s.drop_last()[j].spec_path()
                        == s[i].spec_path();
                assert(s[j].spec_path() == s[i].spec_path());
            }
        }
        assert(cache_map(s).remove(s[i].spec_path()) =~= cache_map(s.drop_last()));
    } else {
        let t = s.drop_last();
        assert(distinct_paths(t));
        assert(t[i] == s[i]);
        lemma_cache_remove(t, i);
        assert(r.drop_last() =~= t.remove(i));
        assert(r.last() == s.last());
        assert(s.last().spec_path() != s[i].spec_path());
        assert(cache_map(r) =~= cache_map(s).remove(s[i].spec_path()));
    }
}

proof fn lemma_bytes_nonneg(s: Seq<AssetHandle<ImageAsset>>)
    ensures
        bytes_of(s) >= 0,
    decreases s.len(),
{
    if s.len() > 0 {
        lemma_bytes_nonneg(s.drop_last());
    }
}

/// A finite set that is not empty holds the element it chooses.
pub proof fn lemma_nonempty_choose<A>(s: Set<A>)
    requires
        s.finite(),
        s.len() > 0,
    ensures
        s.contains(s.choose()),
{
    if !s.contains(s.choose()) {
        assert(s =~= Set::<A>::empty());
    }
}

/// The total pixel bytes of the images in a cache: the sum, over its
/// paths, of each image's pixel buffer length.
pub open spec fn cache_bytes(cache: Map<Seq<char>, ImageAsset>) -> int
    decreases cache.dom().len(),
{
    if cache.dom().finite() && cache.dom().len() > 0 {
        let k = cache.dom().choose();
        proof {
            lemma_nonempty_choose(cache.dom());
        }
        cache[k].pixels@.len() + cache_bytes(cache.remove(k))
    } else {
        0
    }
}

/// The sum does not depend on which path is taken first.
proof fn lemma_cache_bytes_remove(cache: Map<Seq<char>, ImageAsset>, k: Seq<char>)
    requires
        cache.dom().finite(),
        cache.dom().contains(k),
    ensures
        cache_bytes(cache) == cache[k].pixels@.len() + cache_bytes(cache.remove(k)),
    decreases cache.dom().len(),
{
    lemma_nonempty_choose(cache.dom());
    let k0 = cache.dom().choose();
    if k0 != k {
        let without0 = cache.remove(k0);
        let without = cache.remove(k);
        lemma_cache_bytes_remove(without0, k);
        lemma_cache_bytes_remove(without, k0);
        assert(without0.remove(k) =~= without.remove(k0));
    }
}

/// The byte count of a list of handles with distinct paths is the byte
/// count of the cache they make up.
proof fn lemma_bytes_of_cache(s: Seq<AssetHandle<ImageAsset>>)
    requires
        distinct_paths(s),
    ensures
        bytes_of(s) == cache_bytes(cache_map(s)),
    decreases s.len(),
{
    if s.len() == 0 {
        assert(cache_map(s).dom() =~= Set::<Seq<char>>::empty());
    } else {
        let t = s.drop_last();
        let k = s.last().spec_path();
        assert(distinct_paths(t));
        lemma_bytes_of_cache(t);
        lemma_cache_len(t);
        lemma_cache_contains(t, k);
        assert(!cache_map(t).contains_key(k)) by {
            if cache_map(t).contains_key(k) {
                let i = choose|i: int| 0 <= i < t.len() && #[trigger] t[i].spec_path() == k;
                assert(s[i].spec_path() == s[s.len() - 1].spec_path());
            }
        }
        let m = cache_map(s);
        assert(m == cache_map(t).insert(k, s.last().data()));
        lemma_cache_bytes_remove(m, k);
        assert(m.remove(k) =~= cache_map(t));
    }
}

/// What `load_image(path)` does to a manager `before`, leaving `after` and
/// returning `r`.
pub open spec fn load_image_post(
    before: AssetManager,
    path: Seq<char>,
    after: AssetManager,
    r: Result<AssetHandle<ImageAsset>, String>,
) -> bool {
    let k = normalized_path(before.root(), path);
    &&& after.root() == before.root()
    &&& after.hot_reload_enabled() == before.hot_reload_enabled()
    &&& match r {
        Ok(h) => {
            &&& h.spec_path() == k
            &&& if before@.contains_key(k) {
                &&& h.data() == before@[k]
                &&& after@ == before@
                &&& after.spec_total_bytes() == before.spec_total_bytes()
            } else {
                &&& is_placeholder(h.data())
                &&& after@ == before@.insert(k, h.data())
                &&& after.spec_total_bytes() == before.spec_total_bytes() + 4
            }
        },
        Err(_) => false,
    }
}

/// What `unload_image(path)` does to a manager `before`, leaving `after`.
pub open spec fn unload_image_post(before: AssetManager, path: Seq<char>, after: AssetManager) -> bool {
    let k = normalized_path(before.root(), path);
    &&& after.root() == before.root()
    &&& after.hot_reload_enabled() == before.hot_reload_enabled()
    &&& if before@.contains_key(k) {
        &&& after@ == before@.remove(k)
        &&& after.spec_total_bytes() == before.spec_total_bytes() - before@[k].pixels@.len()
    } else {
        &&& after@ == before@
        &&& after.spec_total_bytes() == before.spec_total_bytes()
    }
}

impl View for AssetManager {
    type V = Map<Seq<char>, ImageAsset>;

    /// The cached images, by normalized path.
    closed spec fn view(&self) -> Map<Seq<char>, ImageAsset> {
        cache_map(self.images@)
    }
}

impl AssetManager {
    /// The manager's internal consistency: one cached image per path, and the
    /// byte total matching the cached images. Every manager keeps it.
    #[verifier::type_invariant]
    pub closed spec fn wf(&self) -> bool {
        &&& distinct_paths(self.images@)
        &&& self.total_bytes == bytes_of(self.images@)
    }

    /// The asset root directory.
    pub closed spec fn root(&self) -> Seq<char> {
        self.config.root@
    }

    /// Whether hot reload is enabled.
    pub closed spec fn hot_reload_enabled(&self) -> bool {
        self.config.hot_reload
    }

    /// Total bytes of the cached images' pixel data.
    pub closed spec fn spec_total_bytes(&self) -> nat {
        self.total_bytes as nat
    }

    /// Create a new asset manager with an empty cache.
    pub fn new(config: AssetConfig) -> (m: Self)
        ensures
            m@ == Map::<Seq<char>, ImageAsset>::empty(),
            m.root() == config.root@,
            m.hot_reload_enabled() == config.hot_reload,
            m.spec_total_bytes() == 0,
    {
        AssetManager { config, images: Vec::new(), loading_queue: Vec::new(), total_bytes: 0 }
    }

    /// Normalize a path: drop its leading slashes (then backslashes) and put
    /// it under the asset root.
    fn normalize_path(&self, path: &str) -> (r: String)
        ensures
            r@ == normalized_path(self.root(), path@),
    {
        let no_slash = strip_leading(path, '/');
        let trimmed = strip_leading(no_slash, '\\');
        let mut out = self.config.root.clone();
        out.append("/");
        out.append(trimmed);
        proof {
            reveal_strlit("/");
        }
        out
    }

    /// Load an image.
    ///
    /// Returns a handle to the cached image when the normalized path is
    /// already cached; otherwise caches a placeholder image under it (the
    /// pixel data is read by the rendering backend) and returns a handle to
    /// that. This never fails.
    pub fn load_image(&mut self, path: &str) -> (r: Result<AssetHandle<ImageAsset>, String>)
        requires
            !old(self)@.contains_key(normalized_path(old(self).root(), path@))
                ==> old(self).spec_total_bytes() + 4 <= usize::MAX,
        ensures
            load_image_post(*old(self), path@, *final(self), r),
    {
        proof {
            use_type_invariant(&*self);
        }
        let normalized = self.normalize_path(path);
        proof {
            lemma_cache_contains(self.images@, normalized@);
        }
        match self.find(&normalized) {
            Some(i) => {
                proof {
                    lemma_cache_value(self.images@, i as int);
                }
                return Ok(self.images[i].clone());
            },
            None => {},
        }
        let asset = ImageAsset::new(1, 1);
        proof {
            assert(asset.pixels@ =~= seq![0u8, 0u8, 0u8, 0u8]);
        }
        let bytes = asset.pixels.len();
        let handle = AssetHandle {
            inner: Arc::new(AssetInner { data: asset, path: normalized, modified: false }),
        };
        let AssetManager { config, mut images, loading_queue, total_bytes } = self.take();
        let ghost old_images = images@;
        images.push(handle.clone());
        proof {
            assert(images@.drop_last() =~= old_images);
            assert(distinct_paths(images@));
        }
        *self = AssetManager { config, images, loading_queue, total_bytes: total_bytes + bytes };
        Ok(handle)
    }

    /// Unload an image by path; nothing happens when the normalized path is
    /// not cached.
    pub fn unload_image(&mut self, path: &str)
        ensures
            unload_image_post(*old(self), path@, *final(self)),
    {
        proof {
            use_type_invariant(&*self);
        }
        let normalized = self.normalize_path(path);
        proof {
            lemma_cache_contains(self.images@, normalized@);
        }
        match self.find(&normalized) {
            Some(i) => {
                let AssetManager { config, mut images, loading_queue, total_bytes } = self.take();
                let ghost old_images = images@;
                proof {
                    lemma_cache_value(old_images, i as int);
                    lemma_cache_remove(old_images, i as int);
                    lemma_bytes_nonneg(old_images.remove(i as int));
                }
                let handle = images.remove(i);
                let left = total_bytes - handle.get().pixels.len();
                *self = AssetManager { config, images, loading_queue, total_bytes: left };
            },
            None => {},
        }
    }

    /// Check for modified files and reload them if hot-reload is enabled.
    /// Watching files is the platform layer's part; the cache is left as it
    /// is.
    pub fn check_hot_reload(&mut self)
        ensures
            final(self)@ == old(self)@,
            final(self).root() == old(self).root(),
            final(self).hot_reload_enabled() == old(self).hot_reload_enabled(),
            final(self).spec_total_bytes() == old(self).spec_total_bytes(),
    {
        if !self.config.hot_reload {
            return;
        }
    }

    /// Total bytes of loaded image data: the sum of the cached images' pixel
    /// bytes.
    pub fn total_image_bytes(&self) -> (n: usize)
        ensures
            n == self.spec_total_bytes(),
            n == cache_bytes(self@),
    {
        proof {
            use_type_invariant(self);
            lemma_bytes_of_cache(self.images@);
        }
        self.total_bytes
    }

    /// Number of cached images.
    pub fn image_count(&self) -> (n: usize)
        ensures
            n == self@.dom().len(),
    {
        proof {
            use_type_invariant(self);
            lemma_cache_len(self.images@);
        }
        self.images.len()
    }

    /// Clear all cached assets.
    pub fn clear(&mut self)
        ensures
            final(self)@ == Map::<Seq<char>, ImageAsset>::empty(),
            final(self).root() == old(self).root(),
            final(self).hot_reload_enabled() == old(self).hot_reload_enabled(),
            final(self).spec_total_bytes() == 0,
    {
        let AssetManager { config, images: _, loading_queue, total_bytes: _ } = self.take();
        *self = AssetManager { config, images: Vec::new(), loading_queue, total_bytes: 0 };
    }

    /// Move the manager out of `self`, leaving an empty one with an empty
    /// root in its place.
    fn take(&mut self) -> (m: AssetManager)
        ensures
            m == *old(self),
            m.wf(),
    {
        proof {
            use_type_invariant(&*self);
        }
        let mut m = AssetManager {
            config: AssetConfig { root: String::new(), hot_reload: false },
            images: Vec::new(),
            loading_queue: Vec::new(),
            total_bytes: 0,
        };
        std::mem::swap(self, &mut m);
        m
    }

    /// Index of the cached image under `key`, if any.
    fn find(&self, key: &String) -> (r: Option<usize>)
        ensures
            match r {
                Some(i) => i < self.images@.len() && self.images@[i as int].spec_path() == key@,
                None => forall|i: int|
                    0 <= i < self.images@.len() ==> #[trigger] self.images@[i].spec_path()
                        != key@,
            },
    {
        let mut i: usize = 0;
        while i < self.images.len()
            invariant
                i <= self.images@.len(),
                forall|j: int| 0 <= j < i ==> #[trigger] self.images@[j].spec_path() != key@,
            decreases self.images@.len() - i,
        {
            if self.images[i].inner.path == *key {
                return Some(i);
            }
            i += 1;
        }
        None
    }
}

} // verus!

verus! {

/// Loading a path that is already cached hands out the cached image and
/// changes nothing: the second of two loads of one path returns the image
/// the first returned, and leaves the cache and the byte total as the first
/// left them.
pub proof fn law_load_twice(
    m0: AssetManager,
    path: Seq<char>,
    m1: AssetManager,
    r1: Result<AssetHandle<ImageAsset>, String>,
    m2: AssetManager,
    r2: Result<AssetHandle<ImageAsset>, String>,
)
    requires
        load_image_post(m0, path, m1, r1),
        load_image_post(m1, path, m2, r2),
    ensures
        r1 is Ok && r2 is Ok,
        r2->Ok_0.data() == r1->Ok_0.data(),
        r2->Ok_0.spec_path() == r1->Ok_0.spec_path(),
        m2@ == m1@,
        m2.spec_total_bytes() == m1.spec_total_bytes(),
{
}

/// Loading a path that was not cached and then unloading it gives back the
/// cache and the byte total from before the load.
pub proof fn law_load_then_unload(
    m0: AssetManager,
    path: Seq<char>,
    m1: AssetManager,
    r1: Result<AssetHandle<ImageAsset>, String>,
    m2: AssetManager,
)
    requires
        !m0@.contains_key(normalized_path(m0.root(), path)),
        load_image_post(m0, path, m1, r1),
        unload_image_post(m1, path, m2),
    ensures
        m2@ == m0@,
        m2.spec_total_bytes() == m0.spec_total_bytes(),
{
    let k = normalized_path(m0.root(), path);
    assert(m0@.insert(k, r1->Ok_0.data()).remove(k) =~= m0@);
}

/// The byte total of a manager is the sum of the pixel bytes of the images
/// it caches, one per cached path.
pub proof fn law_total_is_cache_bytes(m: AssetManager)
    requires
        m.wf(),
    ensures
        m.spec_total_bytes() == cache_bytes(m@),
{
    lemma_bytes_of_cache(m.images@);
}

/// Loading a path that was not cached adds exactly one image to the count;
/// loading a cached path adds none.
pub proof fn law_load_counts_once(
    m0: AssetManager,
    path: Seq<char>,
    m1: AssetManager,
    r1: Result<AssetHandle<ImageAsset>, String>,
)
    requires
        m0.wf(),
        load_image_post(m0, path, m1, r1),
    ensures
        m1@.dom().len() == m0@.dom().len() + if m0@.contains_key(normalized_path(m0.root(), path)) {
            0int
        } else {
            1int
        },
{
    lemma_cache_len(m0.images@);
}

/// Unloading a cached path removes exactly one image from the count.
pub proof fn law_unload_counts_once(m0: AssetManager, path: Seq<char>, m1: AssetManager)
    requires
        m0.wf(),
        unload_image_post(m0, path, m1),
    ensures
        m1@.dom().len() == m0@.dom().len() - if m0@.contains_key(normalized_path(m0.root(), path)) {
            1int
        } else {
            0int
        },
{
    lemma_cache_len(m0.images@);
}


// ─────────────────────────────────────────────
// Sprite-sheet grid
// ─────────────────────────────────────────────

/// The `(column, row)` cell of frame `index` in a sprite-sheet grid
/// `columns` cells wide, frames numbered row by row.
pub fn frame_cell(index: u32, columns: u32) -> (cell: (u32, u32))
    requires
        columns > 0,
    ensures
        cell == (index % columns, index / columns),
{
    (index % columns, index / columns)
}

/// Total number of frames of a `columns` by `rows` sprite-sheet grid.
pub fn grid_frame_count(columns: u32, rows: u32) -> (n: u32)
    requires
        columns * rows <= u32::MAX,
    ensures
        n == columns * rows,
{
    columns * rows
}

} // verus!
