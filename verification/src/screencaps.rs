//! Captured frames and the mosaic they are composited into.
//!
//! A decoded, filtered frame arrives from the media engine as a raw RGB
//! buffer, three bytes per pixel.  The composer lays the captured frames out
//! on a single canvas, row-major in capture order, each in its own cell with
//! a two-pixel gutter, and proves that the placement is deterministic and
//! that no two thumbnails overlap.  Encoding the finished canvas to an image
//! file is plain I/O and happens outside the library.

use vstd::prelude::*;

use crate::error::Error;
use crate::settings::Settings;
use crate::util::Dimensions;
use crate::util::HasDimensions;
use crate::util::HasWidthAndHeight;
use crate::video::VidInfo;

verus! {

/// The gutter between two neighbouring thumbnails, in pixels.
pub const GUTTER: u32 = 2;

/// A raw RGB pixel buffer: three bytes per pixel, row-major.
#[derive(Debug)]
pub struct FrameImage {
    pub width: u32,
    pub height: u32,
    pub data: Vec<u8>,
}

impl FrameImage {
    /// The buffer holds exactly three bytes for every pixel.
    pub open spec fn wf(&self) -> bool {
        self.data@.len() == 3 * self.width * self.height
    }

    /// The channel `ch` of the pixel at `(x, y)`.
    pub open spec fn spec_pixel(&self, x: int, y: int, ch: int) -> u8 {
        self.data@[3 * (y * self.width + x) + ch]
    }

    /// Adopts a raw buffer as an image of the given size.  A buffer with
    /// fewer bytes than the size demands is refused; extra trailing bytes —
    /// the engine pads its rows — are dropped.
    pub fn from_raw(width: u32, height: u32, data: Vec<u8>) -> (r: Option<Self>)
        ensures
            match r {
                Some(img) => {
                    &&& data@.len() >= 3 * width * height
                    &&& img.width == width
                    &&& img.height == height
                    &&& img.data@ == data@.subrange(0, 3 * width * height)
                    &&& img.wf()
                },
                None => data@.len() < 3 * width * height,
            },
    {
        proof {
            assert(3 * (width as int) * (height as int) <= u128::MAX as int) by (nonlinear_arith)
                requires
                    width <= u32::MAX,
                    height <= u32::MAX,
            ;
        }
        let needed128: u128 = 3u128 * (width as u128) * (height as u128);
        if (data.len() as u128) < needed128 {
            return None;
        }
        proof {
            assert(3 * (width as int) * (height as int) == (3u128 * (width as u128) * (
            height as u128)) as int) by (nonlinear_arith)
                requires
                    width <= u32::MAX,
                    height <= u32::MAX,
            ;
        }
        let needed: usize = needed128 as usize;
        let mut buf = data;
        buf.truncate(needed);
        proof {
            assert(buf@ =~= data@.subrange(0, 3 * width * height));
        }
        Some(FrameImage { width, height, data: buf })
    }
}

proof fn lemma_pixel_index_bound(w: int, h: int, x: int, y: int, ch: int)
    requires
        0 <= x < w,
        0 <= y < h,
        0 <= ch < 3,
    ensures
        0 <= 3 * (y * w + x) + ch < 3 * w * h,
{
    assert(0 <= y * w + x && y * w + x <= h * w - 1 && 3 * (h * w - 1) + ch < 3 * w * h)
        by (nonlinear_arith)
        requires
            0 <= x < w,
            0 <= y < h,
            0 <= ch < 3,
    ;
}

proof fn lemma_pixel_index_distinct(
    w: int,
    x1: int,
    y1: int,
    c1: int,
    x2: int,
    y2: int,
    c2: int,
)
    requires
        0 <= x1 < w,
        0 <= x2 < w,
        0 <= y1,
        0 <= y2,
        0 <= c1 < 3,
        0 <= c2 < 3,
        x1 != x2 || y1 != y2 || c1 != c2,
    ensures
        3 * (y1 * w + x1) + c1 != 3 * (y2 * w + x2) + c2,
{
    let p1 = y1 * w + x1;
    let p2 = y2 * w + x2;
    if c1 != c2 {
        assert(3 * p1 + c1 != 3 * p2 + c2) by (nonlinear_arith)
            requires
                0 <= c1 < 3,
                0 <= c2 < 3,
                c1 != c2,
        ;
    } else {
        assert(p1 != p2) by (nonlinear_arith)
            requires
                p1 == y1 * w + x1,
                p2 == y2 * w + x2,
                0 <= x1 < w,
                0 <= x2 < w,
                0 <= y1,
                0 <= y2,
                x1 != x2 || y1 != y2,
        ;
    }
}

/// How much of an image fits a cell: the smallest of the image's extent,
/// the cell's extent, and the room left on the canvas past the position.
pub open spec fn spec_clip(img_extent: int, cell_extent: int, canvas_extent: int, pos: int) -> int {
    let a = if img_extent <= cell_extent {
        img_extent
    } else {
        cell_extent
    };
    let room = canvas_extent - pos;
    if room <= 0 {
        0
    } else if a <= room {
        a
    } else {
        room
    }
}

/// The mosaic under construction: one RGB canvas, three bytes per pixel.
#[derive(Debug)]
pub struct MosaicCanvas {
    pub width: u32,
    pub height: u32,
    pub data: Vec<u8>,
}

impl MosaicCanvas {
    /// The buffer holds exactly three bytes for every pixel.
    pub open spec fn wf(&self) -> bool {
        self.data@.len() == 3 * self.width * self.height
    }

    /// The channel `ch` of the pixel at `(x, y)`.
    pub open spec fn spec_pixel(&self, x: int, y: int, ch: int) -> u8 {
        self.data@[3 * (y * self.width + x) + ch]
    }

    /// A black canvas of the given size.
    pub fn new(width: u32, height: u32) -> (r: Self)
        requires
            3 * width * height <= 0x7fff_ffff,
        ensures
            r.width == width,
            r.height == height,
            r.wf(),
            forall|x: int, y: int, ch: int|
                0 <= x < width && 0 <= y < height && 0 <= ch < 3 ==> r.spec_pixel(x, y, ch) == 0,
    {
        let len64: u64 = 3u64 * (width as u64) * (height as u64);
        let len: usize = len64 as usize;
        let mut data: Vec<u8> = Vec::new();
        while data.len() < len
            invariant
                data@.len() <= len,
                len == 3 * width * height,
                forall|k: int| 0 <= k < data@.len() ==> data@[k] == 0,
            decreases len - data@.len(),
        {
            data.push(0u8);
        }
        let r = MosaicCanvas { width, height, data };
        proof {
            assert forall|x: int, y: int, ch: int|
                0 <= x < width && 0 <= y < height && 0 <= ch < 3 implies r.spec_pixel(x, y, ch)
                == 0 by {
                lemma_pixel_index_bound(width as int, height as int, x, y, ch);
            }
        }
        r
    }

    /// Writes one pixel of an image onto the canvas; nothing else changes.
    fn copy_pixel(&mut self, img: &FrameImage, dx: u32, dy: u32, sx: u32, sy: u32)
        requires
            old(self).wf(),
            img.wf(),
            dx < old(self).width,
            dy < old(self).height,
            sx < img.width,
            sy < img.height,
        ensures
            final(self).wf(),
            final(self).width == old(self).width,
            final(self).height == old(self).height,
            forall|x: int, y: int, ch: int|
                0 <= x < old(self).width && 0 <= y < old(self).height && 0 <= ch < 3
                    ==> #[trigger] final(self).spec_pixel(x, y, ch) == (if x == dx && y == dy {
                    img.spec_pixel(sx as int, sy as int, ch)
                } else {
                    old(self).spec_pixel(x, y, ch)
                }),
    {
        let w = self.width as usize;
        let iw = img.width as usize;
        let n = self.data.len();
        let m = img.data.len();
        proof {
            lemma_pixel_index_bound(self.width as int, self.height as int, dx as int, dy as int, 2);
            lemma_pixel_index_bound(img.width as int, img.height as int, sx as int, sy as int, 2);
        }
        let di: usize = 3 * ((dy as usize) * w + (dx as usize));
        let si: usize = 3 * ((sy as usize) * iw + (sx as usize));
        let v0 = img.data[si];
        let v1 = img.data[si + 1];
        let v2 = img.data[si + 2];
        self.data[di] = v0;
        self.data[di + 1] = v1;
        self.data[di + 2] = v2;
        proof {
            let sw = old(self).width as int;
            let sh = old(self).height as int;
            assert forall|x: int, y: int, ch: int|
                0 <= x < sw && 0 <= y < sh && 0 <= ch < 3 implies #[trigger] self.spec_pixel(
                x,
                y,
                ch,
            ) == (if x == dx && y == dy {
                img.spec_pixel(sx as int, sy as int, ch)
            } else {
                old(self).spec_pixel(x, y, ch)
            }) by {
                lemma_pixel_index_bound(sw, sh, x, y, ch);
                if x != dx || y != dy {
                    lemma_pixel_index_distinct(sw, x, y, ch, dx as int, dy as int, 0);
                    lemma_pixel_index_distinct(sw, x, y, ch, dx as int, dy as int, 1);
                    lemma_pixel_index_distinct(sw, x, y, ch, dx as int, dy as int, 2);
                }
            }
        }
    }

    /// Lays an image onto the canvas with its top-left corner at `(x, y)`,
    /// clipped to the given cell size and to the canvas itself.
    pub fn place(&mut self, img: &FrameImage, x: u32, y: u32, cell_w: u32, cell_h: u32)
        requires
            old(self).wf(),
            img.wf(),
        ensures
            final(self).wf(),
            final(self).width == old(self).width,
            final(self).height == old(self).height,
            ({
                let ew = spec_clip(
                    img.width as int,
                    cell_w as int,
                    old(self).width as int,
                    x as int,
                );
                let eh = spec_clip(
                    img.height as int,
                    cell_h as int,
                    old(self).height as int,
                    y as int,
                );
                forall|gx: int, gy: int, ch: int|
                    0 <= gx < old(self).width && 0 <= gy < old(self).height && 0 <= ch < 3
                        ==> #[trigger] final(self).spec_pixel(gx, gy, ch) == (if x <= gx < x + ew
                        && y <= gy < y + eh {
                        img.spec_pixel(gx - x, gy - y, ch)
                    } else {
                        old(self).spec_pixel(gx, gy, ch)
                    })
            }),
    {
        let ghost ew = spec_clip(img.width as int, cell_w as int, old(self).width as int, x as int);
        let ghost eh = spec_clip(
            img.height as int,
            cell_h as int,
            old(self).height as int,
            y as int,
        );
        let mut eff_w: u32 = if img.width <= cell_w {
            img.width
        } else {
            cell_w
        };
        if x >= self.width {
            eff_w = 0;
        } else if eff_w > self.width - x {
            eff_w = self.width - x;
        }
        let mut eff_h: u32 = if img.height <= cell_h {
            img.height
        } else {
            cell_h
        };
        if y >= self.height {
            eff_h = 0;
        } else if eff_h > self.height - y {
            eff_h = self.height - y;
        }
        assert(eff_w == ew && eff_h == eh);
        let mut yy: u32 = 0;
        while yy < eff_h
            invariant
                0 <= yy <= eff_h,
                eff_w == ew,
                eff_h == eh,
                ew <= img.width,
                eh <= img.height,
                ew > 0 ==> x + ew <= old(self).width,
                eh > 0 ==> y + eh <= old(self).height,
                img.wf(),
                self.wf(),
                self.width == old(self).width,
                self.height == old(self).height,
                forall|gx: int, gy: int, ch: int|
                    0 <= gx < old(self).width && 0 <= gy < old(self).height && 0 <= ch < 3
                        ==> #[trigger] self.spec_pixel(gx, gy, ch) == (if x <= gx < x + ew && y
                        <= gy < y + yy {
                        img.spec_pixel(gx - x, gy - y, ch)
                    } else {
                        old(self).spec_pixel(gx, gy, ch)
                    }),
            decreases eff_h - yy,
        {
            let mut xx: u32 = 0;
            while xx < eff_w
                invariant
                    0 <= xx <= eff_w,
                    0 <= yy < eff_h,
                    eff_w == ew,
                    eff_h == eh,
                    ew <= img.width,
                    eh <= img.height,
                    ew > 0 ==> x + ew <= old(self).width,
                    eh > 0 ==> y + eh <= old(self).height,
                    img.wf(),
                    self.wf(),
                    self.width == old(self).width,
                    self.height == old(self).height,
                    forall|gx: int, gy: int, ch: int|
                        0 <= gx < old(self).width && 0 <= gy < old(self).height && 0 <= ch < 3
                            ==> #[trigger] self.spec_pixel(gx, gy, ch) == (if (x <= gx < x + ew && y
                            <= gy < y + yy) || (y + yy == gy && x <= gx < x + xx) {
                            img.spec_pixel(gx - x, gy - y, ch)
                        } else {
                            old(self).spec_pixel(gx, gy, ch)
                        }),
                decreases eff_w - xx,
            {
                self.copy_pixel(img, x + xx, y + yy, xx, yy);
                xx = xx + 1;
            }
            yy = yy + 1;
        }
    }
}

/// The pixels of an image after scaling to a new size.
pub uninterp spec fn scaled_pixels_of(
    data: Seq<u8>,
    src_w: int,
    src_h: int,
    out_w: int,
    out_h: int,
) -> Seq<u8>;

/// Relies on image's `imageops::thumbnail`: it scales a buffer down to
/// exactly the requested size, and the result is a function of the source
/// pixels and the two sizes alone.  The `requires` keep out of the call's
/// panic domain: the output's byte size must fit the machine word (its
/// buffer is allocated up front and the byte count is computed unchecked),
/// and each output pixel's source block must stay far below the limit of
/// the 32-bit channel sums the scaler accumulates — the bound here leaves a
/// wide margin under the roughly 2^24 pixels per block at which those sums
/// could overflow.
#[verifier::external_body]
fn scale_pixels(img: &FrameImage, out_w: u32, out_h: u32) -> (r: FrameImage)
    requires
        img.wf(),
        out_w >= 1,
        out_h >= 1,
        3 * out_w * out_h <= usize::MAX,
        (img.width as int / out_w as int + 2) * (img.height as int / out_h as int + 2)
            <= 0x0040_0000,
    ensures
        r.width == out_w,
        r.height == out_h,
        r.wf(),
        r.data@ == scaled_pixels_of(
            img.data@,
            img.width as int,
            img.height as int,
            out_w as int,
            out_h as int,
        ),
{
    let src = image::RgbImage::from_raw(img.width, img.height, img.data.clone()).unwrap();
    let scaled = image::imageops::thumbnail(&src, out_w, out_h);
    FrameImage { width: out_w, height: out_h, data: scaled.into_raw() }
}

/// One captured frame: when it was sampled, the thumbnail size it belongs
/// to, the source's pixel format, and the delivered pixels.
#[derive(Debug)]
pub struct ScreenCap {
    pub timestamp: i64,
    pub dimensions: Dimensions,
    pub pixel_format: String,
    pub image: FrameImage,
}

impl ScreenCap {
    /// Adopts the engine's delivered buffer for the sample at `timestamp`.
    /// The buffer's size must answer to the delivered dimensions; one that
    /// does not marks the sample as failed.
    pub fn new(timestamp: i64, info: &VidInfo, actual: Dimensions, frame_data: Vec<u8>) -> (r:
        Result<Self, Error>)
        ensures
            match r {
                Ok(c) => {
                    &&& frame_data@.len() >= 3 * actual.0 * actual.1
                    &&& c.timestamp == timestamp
                    &&& c.dimensions == info.capture_dimensions
                    &&& c.pixel_format@ == info.pixel_format@
                    &&& c.image.width == actual.0
                    &&& c.image.height == actual.1
                    &&& c.image.wf()
                    &&& c.image.data@ == frame_data@.subrange(0, 3 * actual.0 * actual.1)
                },
                Err(e) => frame_data@.len() < 3 * actual.0 * actual.1 && (e matches
                    Error::DecodeFailure { path, timestamp: t } && path@ == info.path@ && t
                    == timestamp),
            },
    {
        match FrameImage::from_raw(actual.width(), actual.height(), frame_data) {
            Some(image) => Ok(
                ScreenCap {
                    timestamp,
                    dimensions: *info.capture_dimensions(),
                    pixel_format: info.pixel_format().clone(),
                    image,
                },
            ),
            None => Err(Error::DecodeFailure { path: info.path().clone(), timestamp }),
        }
    }

    /// This capture's pixels scaled to its thumbnail cell.  The cell must
    /// be a real size whose byte count fits the machine word, and the
    /// capture must not shrink so steeply that one cell pixel draws on more
    /// source pixels than the scaler can sum.
    pub fn thumbnail(&self) -> (r: FrameImage)
        requires
            self.image.wf(),
            self.dimensions.0 >= 1,
            self.dimensions.1 >= 1,
            3 * self.dimensions.0 * self.dimensions.1 <= usize::MAX,
            (self.image.width as int / self.dimensions.0 as int + 2) * (self.image.height as int
                / self.dimensions.1 as int + 2) <= 0x0040_0000,
        ensures
            r.width == self.dimensions.0,
            r.height == self.dimensions.1,
            r.wf(),
            r.data@ == scaled_pixels_of(
                self.image.data@,
                self.image.width as int,
                self.image.height as int,
                self.dimensions.0 as int,
                self.dimensions.1 as int,
            ),
    {
        scale_pixels(&self.image, self.dimensions.width(), self.dimensions.height())
    }

    /// The underlying pixels.
    pub fn image(&self) -> (r: &FrameImage)
        ensures
            r == &self.image,
    {
        &self.image
    }

    /// The width of the thumbnail cell this capture belongs to.
    pub fn width(&self) -> (r: u32)
        ensures
            r == self.dimensions.0,
    {
        self.dimensions.width()
    }

    /// The height of the thumbnail cell this capture belongs to.
    pub fn height(&self) -> (r: u32)
        ensures
            r == self.dimensions.1,
    {
        self.dimensions.height()
    }
}

/// The horizontal position of cell `k`: a one-pixel margin, then full cells
/// of the thumbnail width plus a two-pixel gutter, row-major.
pub open spec fn spec_cell_x(k: int, cols: int, w: int) -> int {
    1 + (k % cols) * (w + 2)
}

/// The vertical position of cell `k`.
pub open spec fn spec_cell_y(k: int, cols: int, h: int) -> int {
    1 + (k / cols) * (h + 2)
}

/// Where capture `k` lands on the canvas.  Placement is purely a function of
/// the index and the grid, so two runs with the same configuration place
/// every thumbnail at the same coordinates.
pub fn cell_position(k: u32, columns: u32, cap_w: u32, cap_h: u32) -> (r: (u64, u64))
    requires
        columns >= 1,
        cap_w <= u32::MAX - 2,
        cap_h <= u32::MAX - 2,
    ensures
        r.0 == spec_cell_x(k as int, columns as int, cap_w as int),
        r.1 == spec_cell_y(k as int, columns as int, cap_h as int),
{
    let col = (k % columns) as u64;
    let row = (k / columns) as u64;
    proof {
        assert(col * (cap_w as u64 + 2) <= u32::MAX as int * u32::MAX as int && row * (
        cap_h as u64 + 2) <= u32::MAX as int * u32::MAX as int && u32::MAX as int * u32::MAX as int
            + 1 <= u64::MAX as int) by (nonlinear_arith)
            requires
                0 <= col <= u32::MAX as int,
                0 <= row <= u32::MAX as int,
                0 <= cap_w as u64 + 2 <= u32::MAX as int,
                0 <= cap_h as u64 + 2 <= u32::MAX as int,
        ;
    }
    (1 + col * (cap_w as u64 + GUTTER as u64), 1 + row * (cap_h as u64 + GUTTER as u64))
}

/// Two distinct cells never overlap, gutter included: their boxes are apart
/// either horizontally or vertically.  This is the invariant that lets the
/// composer lay every thumbnail down without disturbing another.
pub proof fn lemma_cell_boxes_disjoint(i: int, j: int, cols: int, w: int, h: int)
    requires
        0 <= i,
        0 <= j,
        i != j,
        cols >= 1,
        w >= 0,
        h >= 0,
    ensures
        spec_cell_x(i, cols, w) + w <= spec_cell_x(j, cols, w) || spec_cell_x(j, cols, w) + w
            <= spec_cell_x(i, cols, w) || spec_cell_y(i, cols, h) + h <= spec_cell_y(j, cols, h)
            || spec_cell_y(j, cols, h) + h <= spec_cell_y(i, cols, h),
{
    let ci = i % cols;
    let cj = j % cols;
    let ri = i / cols;
    let rj = j / cols;
    vstd::arithmetic::div_mod::lemma_fundamental_div_mod(i, cols);
    vstd::arithmetic::div_mod::lemma_fundamental_div_mod(j, cols);
    assert(0 <= ci < cols && 0 <= cj < cols && 0 <= ri && 0 <= rj) by (nonlinear_arith)
        requires
            0 <= i,
            0 <= j,
            cols >= 1,
            ci == i % cols,
            cj == j % cols,
            ri == i / cols,
            rj == j / cols,
    ;
    if ri == rj {
        assert(ci != cj) by (nonlinear_arith)
            requires
                i == cols * ri + ci,
                j == cols * rj + cj,
                ri == rj,
                i != j,
        ;
        assert((ci + 1) * (w + 2) <= cj * (w + 2) || (cj + 1) * (w + 2) <= ci * (w + 2))
            by (nonlinear_arith)
            requires
                ci != cj,
                w >= 0,
        ;
        assert((ci + 1) * (w + 2) == ci * (w + 2) + (w + 2) && (cj + 1) * (w + 2) == cj * (w + 2) + (
        w + 2)) by (nonlinear_arith);
    } else {
        assert((ri + 1) * (h + 2) <= rj * (h + 2) || (rj + 1) * (h + 2) <= ri * (h + 2))
            by (nonlinear_arith)
            requires
                ri != rj,
                h >= 0,
        ;
        assert((ri + 1) * (h + 2) == ri * (h + 2) + (h + 2) && (rj + 1) * (h + 2) == rj * (h + 2) + (
        h + 2)) by (nonlinear_arith);
    }
}

/// Whether capture `k`, clipped to its cell and the canvas, covers the
/// canvas point `(gx, gy)`.
pub open spec fn spec_covers(
    caps: Seq<ScreenCap>,
    k: int,
    cols: int,
    w: int,
    h: int,
    ww: int,
    hh: int,
    gx: int,
    gy: int,
) -> bool {
    let cx = spec_cell_x(k, cols, w);
    let cy = spec_cell_y(k, cols, h);
    &&& cx <= gx < cx + spec_clip(caps[k].image.width as int, w, ww, cx)
    &&& cy <= gy < cy + spec_clip(caps[k].image.height as int, h, hh, cy)
}

/// Whether any of the first `n` captures covers the canvas point.
pub open spec fn spec_covered_before(
    caps: Seq<ScreenCap>,
    n: int,
    cols: int,
    w: int,
    h: int,
    ww: int,
    hh: int,
    gx: int,
    gy: int,
) -> bool {
    exists|k: int| 0 <= k < n && spec_covers(caps, k, cols, w, h, ww, hh, gx, gy)
}

/// What a finished mosaic looks like: wherever a capture's cell covers a
/// point, the canvas shows that capture's pixel; everywhere else it is
/// black.  This pins every byte of the canvas, so the layout is a function
/// of the captures and the grid alone.
pub open spec fn spec_mosaic_of(
    canvas: MosaicCanvas,
    caps: Seq<ScreenCap>,
    cols: int,
    w: int,
    h: int,
) -> bool {
    &&& canvas.wf()
    &&& forall|k: int, gx: int, gy: int, ch: int|
        #![trigger canvas.spec_pixel(gx, gy, ch), spec_covers(caps, k, cols, w, h, canvas.width as int, canvas.height as int, gx, gy)]
        0 <= k < caps.len() && 0 <= gx < canvas.width && 0 <= gy < canvas.height && 0 <= ch < 3
            && spec_covers(
            caps,
            k,
            cols,
            w,
            h,
            canvas.width as int,
            canvas.height as int,
            gx,
            gy,
        ) ==> canvas.spec_pixel(gx, gy, ch) == caps[k].image.spec_pixel(
            gx - spec_cell_x(k, cols, w),
            gy - spec_cell_y(k, cols, h),
            ch,
        )
    &&& forall|gx: int, gy: int, ch: int|
        0 <= gx < canvas.width && 0 <= gy < canvas.height && 0 <= ch < 3 && !spec_covered_before(
            caps,
            caps.len() as int,
            cols,
            w,
            h,
            canvas.width as int,
            canvas.height as int,
            gx,
            gy,
        ) ==> #[trigger] canvas.spec_pixel(gx, gy, ch) == 0
}

/// Lays every captured frame onto a fresh canvas, row-major in capture
/// order, each clipped to its own cell.  The canvas is `columns` thumbnails
/// wide and `rows` gutter-padded thumbnails tall; what no capture covers
/// stays black.
pub fn compose(settings: &Settings, cap_dims: &Dimensions, caps: &Vec<ScreenCap>) -> (r:
    MosaicCanvas)
    requires
        settings.wf(),
        cap_dims.0 <= u32::MAX - 2,
        cap_dims.1 <= u32::MAX - 2,
        cap_dims.0 as int * settings.columns as int <= u32::MAX,
        (cap_dims.1 as int + 2) * settings.rows as int <= u32::MAX,
        3 * (cap_dims.0 as int * settings.columns as int) * ((cap_dims.1 as int + 2)
            * settings.rows as int) <= 0x7fff_ffff,
        forall|i: int| 0 <= i < caps@.len() ==> (#[trigger] caps@[i]).image.wf(),
        caps@.len() <= u32::MAX,
    ensures
        r.width == cap_dims.0 as int * settings.columns as int,
        r.height == (cap_dims.1 as int + 2) * settings.rows as int,
        spec_mosaic_of(r, caps@, settings.columns as int, cap_dims.0 as int, cap_dims.1 as int),
{
    let w = cap_dims.width();
    let h = cap_dims.height();
    let columns = settings.columns();
    let canvas_w: u32 = w * columns;
    let canvas_h: u32 = (h + GUTTER) * settings.rows();
    let mut canvas = MosaicCanvas::new(canvas_w, canvas_h);
    let ghost cols = columns as int;
    let ghost ww = canvas_w as int;
    let ghost hh = canvas_h as int;
    let mut k: usize = 0;
    while k < caps.len()
        invariant
            0 <= k <= caps@.len(),
            caps@.len() <= u32::MAX,
            cols == columns as int,
            columns >= 1,
            w <= u32::MAX - 2,
            h <= u32::MAX - 2,
            ww == canvas_w as int,
            hh == canvas_h as int,
            canvas.width == ww,
            canvas.height == hh,
            canvas.wf(),
            forall|i: int| 0 <= i < caps@.len() ==> (#[trigger] caps@[i]).image.wf(),
            forall|j: int, gx: int, gy: int, ch: int|
                #![trigger canvas.spec_pixel(gx, gy, ch), spec_covers(caps@, j, cols, w as int, h as int, ww, hh, gx, gy)]
                0 <= j < k && 0 <= gx < ww && 0 <= gy < hh && 0 <= ch < 3 && spec_covers(
                    caps@,
                    j,
                    cols,
                    w as int,
                    h as int,
                    ww,
                    hh,
                    gx,
                    gy,
                ) ==> canvas.spec_pixel(gx, gy, ch) == caps@[j].image.spec_pixel(
                    gx - spec_cell_x(j, cols, w as int),
                    gy - spec_cell_y(j, cols, h as int),
                    ch,
                ),
            forall|gx: int, gy: int, ch: int|
                0 <= gx < ww && 0 <= gy < hh && 0 <= ch < 3 && !spec_covered_before(
                    caps@,
                    k as int,
                    cols,
                    w as int,
                    h as int,
                    ww,
                    hh,
                    gx,
                    gy,
                ) ==> #[trigger] canvas.spec_pixel(gx, gy, ch) == 0,
        decreases caps@.len() - k,
    {
        let (cx64, cy64) = cell_position(k as u32, columns, w, h);
        let ghost cx = spec_cell_x(k as int, cols, w as int);
        let ghost cy = spec_cell_y(k as int, cols, h as int);
        let ghost prev = canvas;
        if cx64 < canvas_w as u64 && cy64 < canvas_h as u64 {
            canvas.place(&caps[k].image, cx64 as u32, cy64 as u32, w, h);
        } else {
            proof {
                assert forall|gx: int, gy: int|
                    0 <= gx < ww && 0 <= gy < hh implies !spec_covers(
                    caps@,
                    k as int,
                    cols,
                    w as int,
                    h as int,
                    ww,
                    hh,
                    gx,
                    gy,
                ) by {
                    if cx >= ww {
                        assert(spec_clip(caps@[k as int].image.width as int, w as int, ww, cx)
                            <= 0);
                    } else {
                        assert(cy >= hh);
                        assert(spec_clip(caps@[k as int].image.height as int, h as int, hh, cy)
                            <= 0);
                    }
                }
            }
        }
        proof {
            let ki = k as int;
            assert forall|j: int, gx: int, gy: int, ch: int|
                0 <= j < ki + 1 && 0 <= gx < ww && 0 <= gy < hh && 0 <= ch < 3 && spec_covers(
                    caps@,
                    j,
                    cols,
                    w as int,
                    h as int,
                    ww,
                    hh,
                    gx,
                    gy,
                ) implies canvas.spec_pixel(gx, gy, ch) == caps@[j].image.spec_pixel(
                gx - spec_cell_x(j, cols, w as int),
                gy - spec_cell_y(j, cols, h as int),
                ch,
            ) by {
                if j < ki {
                    lemma_cell_boxes_disjoint(j, ki, cols, w as int, h as int);
                    assert(spec_covers(caps@, j, cols, w as int, h as int, ww, hh, gx, gy));
                    assert(prev.spec_pixel(gx, gy, ch) == caps@[j].image.spec_pixel(
                        gx - spec_cell_x(j, cols, w as int),
                        gy - spec_cell_y(j, cols, h as int),
                        ch,
                    ));
                }
            }
            assert forall|gx: int, gy: int, ch: int|
                0 <= gx < ww && 0 <= gy < hh && 0 <= ch < 3 && !spec_covered_before(
                    caps@,
                    ki + 1,
                    cols,
                    w as int,
                    h as int,
                    ww,
                    hh,
                    gx,
                    gy,
                ) implies canvas.spec_pixel(gx, gy, ch) == 0 by {
                assert(!spec_covers(caps@, ki, cols, w as int, h as int, ww, hh, gx, gy));
                if spec_covered_before(caps@, ki, cols, w as int, h as int, ww, hh, gx, gy) {
                    let j = choose|j: int|
                        0 <= j < ki && spec_covers(caps@, j, cols, w as int, h as int, ww, hh, gx, gy);
                    assert(spec_covered_before(caps@, ki + 1, cols, w as int, h as int, ww, hh, gx, gy));
                }
                assert(prev.spec_pixel(gx, gy, ch) == 0);
            }
        }
        k = k + 1;
    }
    canvas
}

/// The layout is deterministic: two canvases of the same size that are both
/// mosaics of the same captures under the same grid agree byte for byte.
/// Re-running the pipeline over unchanged captures with an unchanged
/// configuration therefore reproduces the sheet exactly.
pub proof fn lemma_mosaic_layout_deterministic(
    a: MosaicCanvas,
    b: MosaicCanvas,
    caps: Seq<ScreenCap>,
    cols: int,
    w: int,
    h: int,
)
    requires
        a.width == b.width,
        a.height == b.height,
        spec_mosaic_of(a, caps, cols, w, h),
        spec_mosaic_of(b, caps, cols, w, h),
    ensures
        a.data@ == b.data@,
{
    let ww = a.width as int;
    let hh = a.height as int;
    assert forall|d: int| 0 <= d < a.data@.len() implies a.data@[d] == b.data@[d] by {
        let q = d / 3;
        let ch = d % 3;
        vstd::arithmetic::div_mod::lemma_fundamental_div_mod(d, 3);
        assert(0 <= ch < 3 && 0 <= q) by (nonlinear_arith)
            requires
                d >= 0,
                ch == d % 3,
                q == d / 3,
        ;
        assert(ww > 0 && hh > 0) by (nonlinear_arith)
            requires
                0 <= ww,
                0 <= hh,
                3 * ww * hh > 0,
        ;
        let gy = q / ww;
        let gx = q % ww;
        vstd::arithmetic::div_mod::lemma_fundamental_div_mod(q, ww);
        assert(0 <= gx < ww) by (nonlinear_arith)
            requires
                ww > 0,
                q >= 0,
                gx == q % ww,
        ;
        assert(q < ww * hh) by (nonlinear_arith)
            requires
                3 * q <= d,
                d < 3 * ww * hh,
        ;
        assert(0 <= gy < hh) by (nonlinear_arith)
            requires
                q < ww * hh,
                gy == q / ww,
                ww > 0,
                q >= 0,
        ;
        assert(3 * (gy * ww + gx) + ch == d) by (nonlinear_arith)
            requires
                q == ww * gy + gx,
                d == 3 * q + ch,
        ;
        assert(a.spec_pixel(gx, gy, ch) == a.data@[d]);
        assert(b.spec_pixel(gx, gy, ch) == b.data@[d]);
        if spec_covered_before(caps, caps.len() as int, cols, w, h, ww, hh, gx, gy) {
            let k = choose|k: int|
                0 <= k < caps.len() && spec_covers(caps, k, cols, w, h, ww, hh, gx, gy);
            assert(a.spec_pixel(gx, gy, ch) == caps[k].image.spec_pixel(
                gx - spec_cell_x(k, cols, w),
                gy - spec_cell_y(k, cols, h),
                ch,
            ));
            assert(b.spec_pixel(gx, gy, ch) == caps[k].image.spec_pixel(
                gx - spec_cell_x(k, cols, w),
                gy - spec_cell_y(k, cols, h),
                ch,
            ));
        } else {
            assert(a.spec_pixel(gx, gy, ch) == 0);
            assert(b.spec_pixel(gx, gy, ch) == 0);
        }
    }
    assert(a.data@ =~= b.data@);
}

/// The widest a file name may render in the progress display.
pub const MAX_DISPLAY_NAME_WIDTH: usize = 80;

/// The name a job shows while running: the file name, shortened with an
/// ellipsis when it renders too wide.
/// `r` is `full` cut down to the width budget with an ellipsis: a prefix
/// that fits (or is empty), no longer prefix fitting, then `"..."`.
pub open spec fn spec_ellipsized(full: Seq<char>, r: Seq<char>, limit: int) -> bool {
    exists|n: int|
        {
            &&& 0 <= n <= full.len()
            &&& r == #[trigger] full.subrange(0, n) + "..."@
            &&& (crate::util::display_width_of(full.subrange(0, n)) <= limit || n == 0)
            &&& forall|k: int|
                n < k <= full.len() ==> crate::util::display_width_of(
                    #[trigger] full.subrange(0, k),
                ) > limit
        }
}

pub fn display_name(filename: &str) -> (r: String)
    ensures
        crate::util::display_width_of(filename@) <= MAX_DISPLAY_NAME_WIDTH ==> r@ == filename@,
        crate::util::display_width_of(filename@) > MAX_DISPLAY_NAME_WIDTH ==> spec_ellipsized(
            filename@,
            r@,
            MAX_DISPLAY_NAME_WIDTH as int,
        ),
{
    let w = crate::util::display_width(filename);
    if w > MAX_DISPLAY_NAME_WIDTH {
        let t = crate::util::safe_string_truncate(filename, MAX_DISPLAY_NAME_WIDTH);
        let ghost n = t@.len() as int;
        let mut r = t;
        r.append("...");
        proof {
            assert(filename@.subrange(0, n) =~= r@.subrange(0, n));
            assert(r@ == filename@.subrange(0, n) + "..."@);
            assert(spec_ellipsized(filename@, r@, MAX_DISPLAY_NAME_WIDTH as int)) by {
                assert({
                    &&& 0 <= n <= filename@.len()
                    &&& r@ == filename@.subrange(0, n) + "..."@
                    &&& (crate::util::display_width_of(filename@.subrange(0, n))
                        <= MAX_DISPLAY_NAME_WIDTH as int || n == 0)
                    &&& forall|k: int|
                        n < k <= filename@.len() ==> crate::util::display_width_of(
                            #[trigger] filename@.subrange(0, k),
                        ) > MAX_DISPLAY_NAME_WIDTH as int
                });
            }
        }
        r
    } else {
        filename.to_owned()
    }
}

/// How one video's job ended.
#[derive(Debug)]
pub enum JobOutcome {
    /// The sheet was composed and written to this path.
    Saved { output: String },
    /// An equivalent sheet already existed; the output is a link to it.
    LinkedEquivalent { target: String },
    /// The job failed; nothing was written.
    Failed { error: Error },
}

/// Where the directory part of a path ends: everything before the last
/// separator, or nothing.
pub open spec fn spec_parent_dir(p: Seq<char>) -> Seq<char> {
    let cut = crate::files::spec_last_index_of(p, '/');
    if cut >= 0 {
        p.subrange(0, cut)
    } else {
        Seq::empty()
    }
}

/// The sheet a symbolic-link video may point to instead of regenerating:
/// `<dir of the link's target>/screens/<link's file name>.jpg`.  There is
/// one only when link-following is enabled, the video is itself a symbolic
/// link, and its target could be resolved.
pub fn image_link_target(
    settings: &Settings,
    video_is_symlink: bool,
    canonical: &Option<String>,
    video_file: &str,
) -> (r: Option<String>)
    ensures
        r is Some <==> settings.allow_links && video_is_symlink && canonical is Some,
        r matches Some(c) ==> c@ == spec_parent_dir(canonical->0@) + "/screens/"@
            + crate::files::spec_filename(video_file@) + ".jpg"@,
{
    if !settings.allow_links() {
        return None;
    }
    if !video_is_symlink {
        return None;
    }
    match canonical {
        None => None,
        Some(p) => {
            let mut dir = match crate::files::find_last_index_of(p.as_str(), '/') {
                Some(cut) => p.as_str().substring_char(0, cut).to_owned(),
                None => String::new(),
            };
            dir.append("/screens/");
            dir.append(crate::files::get_filename(video_file).as_str());
            dir.append(".jpg");
            Some(dir)
        },
    }
}

/// The position of the first failed sample, or `-1` when every sample
/// decoded.
pub open spec fn spec_first_err(s: Seq<Result<ScreenCap, Error>>) -> int
    decreases s.len(),
{
    if s.len() == 0 {
        -1
    } else if s[0] is Err {
        0
    } else {
        let r = spec_first_err(s.drop_first());
        if r == -1 {
            -1
        } else {
            r + 1
        }
    }
}

/// Applies the job's failure policy to the extracted samples: every sample
/// must have decoded, in order, or the whole job fails with the first
/// error — no partial mosaic is ever composed.
pub fn collect_captures(results: Vec<Result<ScreenCap, Error>>) -> (r: Result<Vec<ScreenCap>, Error>)
    ensures
        r is Ok <==> spec_first_err(results@) == -1,
        r matches Ok(caps) ==> caps@.len() == results@.len() && forall|i: int|
            0 <= i < results@.len() ==> #[trigger] caps@[i] == results@[i]->Ok_0,
        r matches Err(e) ==> ({
            let f = spec_first_err(results@);
            &&& 0 <= f < results@.len()
            &&& results@[f] is Err
            &&& e == results@[f]->Err_0
            &&& forall|j: int| 0 <= j < f ==> results@[j] is Ok
        }),
{
    let ghost orig = results@;
    let mut rest = results;
    let mut caps: Vec<ScreenCap> = Vec::new();
    loop
        invariant
            orig == results@,
            orig.len() == caps@.len() + rest@.len(),
            rest@ == orig.skip(caps@.len() as int),
            forall|j: int| 0 <= j < caps@.len() ==> #[trigger] orig[j] is Ok,
            forall|j: int| 0 <= j < caps@.len() ==> #[trigger] caps@[j] == orig[j]->Ok_0,
        decreases rest@.len(),
    {
        if rest.len() == 0 {
            proof {
                lemma_first_err_all_ok(orig);
            }
            return Ok(caps);
        }
        let ghost done = caps@.len() as int;
        match rest.remove(0) {
            Ok(c) => {
                proof {
                    assert(orig.skip(done)[0] == orig[done]);
                    assert(orig.skip(done).drop_first() =~= orig.skip(done + 1));
                }
                caps.push(c);
            },
            Err(e) => {
                proof {
                    assert(orig.skip(done)[0] == orig[done]);
                    lemma_first_err_at(orig, done);
                }
                return Err(e);
            },
        }
    }
}

proof fn lemma_first_err_all_ok(s: Seq<Result<ScreenCap, Error>>)
    requires
        forall|j: int| 0 <= j < s.len() ==> s[j] is Ok,
    ensures
        spec_first_err(s) == -1,
    decreases s.len(),
{
    if s.len() > 0 {
        lemma_first_err_all_ok(s.drop_first());
    }
}

proof fn lemma_first_err_at(s: Seq<Result<ScreenCap, Error>>, i: int)
    requires
        0 <= i < s.len(),
        s[i] is Err,
        forall|j: int| 0 <= j < i ==> s[j] is Ok,
    ensures
        spec_first_err(s) == i,
    decreases s.len(),
{
    if i > 0 {
        lemma_first_err_at(s.drop_first(), i - 1);
    }
}

/// Where one video's job stands.
#[derive(Debug)]
pub enum JobPhase {
    /// The container is open and the stream selected.
    Opened,
    /// The capture timestamps are fixed; none extracted yet.
    Scheduled { total: u32 },
    /// `done` of `total` samples are extracted.
    Extracting { total: u32, done: u32 },
    /// Every sample is in hand; the mosaic is being composed and saved.
    Composing { total: u32 },
    /// The sheet was written.
    Saved,
    /// An equivalent sheet existed; a link was emitted instead.
    LinkedEquivalent,
    /// The job failed; nothing was written.
    Failed,
}

/// What the driver reports back to the job.
#[derive(Debug)]
pub enum JobEvent {
    /// A sheet to link to was found beside the video's target.
    LinkFound { target: String },
    /// The filesystem link was emitted.
    LinkEmitted,
    /// No link shortcut applies.
    NoLink,
    /// The scheduler produced this many capture timestamps.
    TimesReady { count: u32 },
    /// One sample decoded.
    FrameOk,
    /// One sample failed to decode.
    FrameFailed,
    /// The mosaic is composed.
    Composed,
    /// The sheet was written to disk.
    SaveOk,
    /// Writing the sheet failed.
    SaveFailed,
}

/// What the job asks the driver to do next.
#[derive(Debug)]
pub enum JobAction {
    /// Compute the capture timestamps.
    Schedule,
    /// Seek and decode the next sample.
    ExtractNext,
    /// Compose the mosaic from the samples.
    Compose,
    /// Encode and write the sheet.
    Save,
    /// Emit a filesystem link to this existing sheet.
    EmitLink { target: String },
    /// Give the output the video's modified time.
    SyncTimes,
    /// Stop; the job failed.
    Abort,
    /// Nothing: the job is finished.
    Idle,
}

/// A phase the machine can actually be in.
pub open spec fn spec_phase_wf(s: JobPhase) -> bool {
    match s {
        JobPhase::Scheduled { total } => total >= 1,
        JobPhase::Extracting { total, done } => 1 <= done < total,
        _ => true,
    }
}

/// One step of the job: from a phase and the driver's event to the next
/// phase and the next thing to do.  A failed sample moves the job to
/// `Failed` at once; `Failed` is absorbing; only a fully extracted job ever
/// asks for a save.
pub open spec fn spec_job_step(s: JobPhase, e: JobEvent) -> (JobPhase, JobAction) {
    match s {
        JobPhase::Saved => (JobPhase::Saved, JobAction::Idle),
        JobPhase::LinkedEquivalent => match e {
            JobEvent::LinkEmitted => (JobPhase::LinkedEquivalent, JobAction::SyncTimes),
            _ => (JobPhase::LinkedEquivalent, JobAction::Idle),
        },
        JobPhase::Failed => (JobPhase::Failed, JobAction::Abort),
        JobPhase::Opened => match e {
            JobEvent::LinkFound { target } => (
                JobPhase::LinkedEquivalent,
                JobAction::EmitLink { target },
            ),
            JobEvent::NoLink => (JobPhase::Opened, JobAction::Schedule),
            JobEvent::TimesReady { count } => if count == 0 {
                (JobPhase::Failed, JobAction::Abort)
            } else {
                (JobPhase::Scheduled { total: count }, JobAction::ExtractNext)
            },
            _ => (JobPhase::Failed, JobAction::Abort),
        },
        JobPhase::Scheduled { total } => match e {
            JobEvent::FrameOk => if total == 1 {
                (JobPhase::Composing { total }, JobAction::Compose)
            } else {
                (JobPhase::Extracting { total, done: 1 }, JobAction::ExtractNext)
            },
            _ => (JobPhase::Failed, JobAction::Abort),
        },
        JobPhase::Extracting { total, done } => match e {
            JobEvent::FrameOk => if done + 1 == total {
                (JobPhase::Composing { total }, JobAction::Compose)
            } else {
                (JobPhase::Extracting { total, done: (done + 1) as u32 }, JobAction::ExtractNext)
            },
            _ => (JobPhase::Failed, JobAction::Abort),
        },
        JobPhase::Composing { total } => match e {
            JobEvent::Composed => (JobPhase::Composing { total }, JobAction::Save),
            JobEvent::SaveOk => (JobPhase::Saved, JobAction::SyncTimes),
            _ => (JobPhase::Failed, JobAction::Abort),
        },
    }
}

/// Drives the job one step.
pub fn job_step(state: JobPhase, event: JobEvent) -> (r: (JobPhase, JobAction))
    requires
        spec_phase_wf(state),
    ensures
        r == spec_job_step(state, event),
        spec_phase_wf(r.0),
{
    match state {
        JobPhase::Saved => (JobPhase::Saved, JobAction::Idle),
        JobPhase::LinkedEquivalent => match event {
            JobEvent::LinkEmitted => (JobPhase::LinkedEquivalent, JobAction::SyncTimes),
            _ => (JobPhase::LinkedEquivalent, JobAction::Idle),
        },
        JobPhase::Failed => (JobPhase::Failed, JobAction::Abort),
        JobPhase::Opened => match event {
            JobEvent::LinkFound { target } => (
                JobPhase::LinkedEquivalent,
                JobAction::EmitLink { target },
            ),
            JobEvent::NoLink => (JobPhase::Opened, JobAction::Schedule),
            JobEvent::TimesReady { count } => if count == 0 {
                (JobPhase::Failed, JobAction::Abort)
            } else {
                (JobPhase::Scheduled { total: count }, JobAction::ExtractNext)
            },
            _ => (JobPhase::Failed, JobAction::Abort),
        },
        JobPhase::Scheduled { total } => match event {
            JobEvent::FrameOk => if total == 1 {
                (JobPhase::Composing { total }, JobAction::Compose)
            } else {
                (JobPhase::Extracting { total, done: 1 }, JobAction::ExtractNext)
            },
            _ => (JobPhase::Failed, JobAction::Abort),
        },
        JobPhase::Extracting { total, done } => match event {
            JobEvent::FrameOk => if done + 1 == total {
                (JobPhase::Composing { total }, JobAction::Compose)
            } else {
                (JobPhase::Extracting { total, done: done + 1 }, JobAction::ExtractNext)
            },
            _ => (JobPhase::Failed, JobAction::Abort),
        },
        JobPhase::Composing { total } => match event {
            JobEvent::Composed => (JobPhase::Composing { total }, JobAction::Save),
            JobEvent::SaveOk => (JobPhase::Saved, JobAction::SyncTimes),
            _ => (JobPhase::Failed, JobAction::Abort),
        },
    }
}

/// A failed sample ends the job at once: from any phase still working, a
/// `FrameFailed` event yields the `Failed` phase, and the job never asks
/// for a save — no partial mosaic is ever written.
pub proof fn lemma_decode_failure_aborts(state: JobPhase, event: JobEvent)
    requires
        spec_phase_wf(state),
        !(state is Saved),
        !(state is LinkedEquivalent),
        event is FrameFailed,
    ensures
        spec_job_step(state, event).0 is Failed,
        !(spec_job_step(state, event).1 is Save),
{
}

/// `Failed` is absorbing: whatever the driver reports afterwards, the job
/// stays failed and never asks for a save.
pub proof fn lemma_failed_is_absorbing(event: JobEvent)
    ensures
        spec_job_step(JobPhase::Failed, event).0 is Failed,
        spec_job_step(JobPhase::Failed, event).1 is Abort,
{
}

/// The link shortcut skips extraction entirely: a found sheet moves an
/// opened job straight to `LinkedEquivalent`, and the only action is to
/// emit the link — never a schedule, an extraction, or a save.  Once the
/// link is emitted, the job still asks for the output's modified time to be
/// synchronized with the source's.
pub proof fn lemma_link_shortcut_extracts_nothing(state: JobPhase, target: String)
    requires
        state is Opened,
    ensures
        spec_job_step(state, JobEvent::LinkFound { target }).0 is LinkedEquivalent,
        spec_job_step(state, JobEvent::LinkFound { target }).1 == (JobAction::EmitLink { target }),
        spec_job_step(
            spec_job_step(state, JobEvent::LinkFound { target }).0,
            JobEvent::LinkEmitted,
        ) == (JobPhase::LinkedEquivalent, JobAction::SyncTimes),
{
}

impl HasDimensions for FrameImage {
    fn dimensions(&self) -> Dimensions {
        Dimensions::new(self.width, self.height)
    }
}

impl HasWidthAndHeight for FrameImage {
    fn width(&self) -> u32 {
        self.width
    }

    fn height(&self) -> u32 {
        self.height
    }
}

} // verus!
