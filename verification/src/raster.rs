//! Captured pixels: a frame and its place on the desktop, cropping a frame to
//! a selection, and the bottom-up BGRA bitmap the clipboard takes.
use vstd::prelude::*;
use crate::geometry::{clamp_i32, max_i32, rect_ok, spec_clamp, spec_max, RectPx};
use crate::overlay::block_copied;

verus! {

/// RGBA pixels, row by row from the top, four bytes a pixel.
pub struct Raster {
    pub width: u32,
    pub height: u32,
    pub pixels: Vec<u8>,
}

/// The buffer holds exactly `width * height` pixels.
pub open spec fn raster_wf(r: Raster) -> bool {
    r.pixels@.len() == r.width * r.height * 4
}

/// A captured frame and the desktop rectangle it shows.
pub struct CaptureFrame {
    pub bounds: RectPx,
    pub image: Raster,
}

/// The frame's picture has the size of its rectangle.
pub open spec fn frame_wf(f: CaptureFrame) -> bool {
    &&& raster_wf(f.image)
    &&& rect_ok(f.bounds)
    &&& f.image.width == f.bounds.right - f.bounds.left
    &&& f.image.height == f.bounds.bottom - f.bounds.top
}

/// Crops an RGBA buffer of `width` x `height` with `image`: wraps it with
/// `RgbaImage::from_raw` (which accepts a buffer of exactly that size), cuts
/// the view with `imageops::crop_imm` (which clamps only crops that leave
/// the image), and copies it out with `to_image().into_raw()`: the rows of
/// the crop, each `crop_width` pixels from column `x`, for `crop_height`
/// rows from row `y`.
#[verifier::external_body]
fn image_crop(pixels: &Vec<u8>, width: u32, height: u32, x: u32, y: u32, crop_width: u32, crop_height: u32) -> (out: Vec<u8>)
    requires
        pixels@.len() == width * height * 4,
        x + crop_width <= width,
        y + crop_height <= height,
    ensures
        block_copied(pixels@, width * 4, x * 4, y as int, crop_width * 4, crop_height as int, out@),
{
    match image::RgbaImage::from_raw(width, height, pixels.clone()) {
        Some(img) => image::imageops::crop_imm(&img, x, y, crop_width, crop_height).to_image().into_raw(),
        None => Vec::new(),
    }
}

/// Why a frame could not be cropped.
#[derive(Clone, Copy, Debug, PartialEq, Eq, Structural)]
pub enum CropError {
    /// The crop leaves the frame.
    OutsideSource,
    /// The crop has no area; its width and height.
    InvalidBounds { width: i32, height: i32 },
}

/// The crop lies inside the frame.
pub open spec fn crop_inside(source: RectPx, bounds: RectPx) -> bool {
    &&& source.left <= bounds.left
    &&& source.top <= bounds.top
    &&& bounds.right <= source.right
    &&& bounds.bottom <= source.bottom
}

/// The part of a frame under `bounds`, as a frame of its own.
pub fn crop_capture_frame(source: &CaptureFrame, bounds: RectPx) -> (r: Result<CaptureFrame, CropError>)
    requires
        frame_wf(*source),
        rect_ok(bounds),
    ensures
        !crop_inside(source.bounds, bounds) ==> r == Err::<CaptureFrame, CropError>(CropError::OutsideSource),
        crop_inside(source.bounds, bounds) && (bounds.right - bounds.left <= 0 || bounds.bottom - bounds.top <= 0)
            ==> r == Err::<CaptureFrame, CropError>(CropError::InvalidBounds {
                width: (bounds.right - bounds.left) as i32,
                height: (bounds.bottom - bounds.top) as i32,
            }),
        crop_inside(source.bounds, bounds) && bounds.right - bounds.left > 0 && bounds.bottom - bounds.top > 0 ==> r is Ok,
        r matches Ok(f) ==> {
            &&& crop_inside(source.bounds, bounds)
            &&& f.bounds == bounds
            &&& f.image.width == bounds.right - bounds.left
            &&& f.image.height == bounds.bottom - bounds.top
            &&& frame_wf(f)
            &&& block_copied(
                source.image.pixels@,
                source.image.width * 4,
                (bounds.left - source.bounds.left) * 4,
                bounds.top - source.bounds.top,
                f.image.width * 4,
                f.image.height as int,
                f.image.pixels@,
            )
        },
{
    if bounds.left < source.bounds.left || bounds.top < source.bounds.top || bounds.right > source.bounds.right
        || bounds.bottom > source.bounds.bottom {
        return Err(CropError::OutsideSource);
    }
    let width = bounds.width();
    let height = bounds.height();
    if width <= 0 || height <= 0 {
        return Err(CropError::InvalidBounds { width, height });
    }
    let src_x = (bounds.left - source.bounds.left) as u32;
    let src_y = (bounds.top - source.bounds.top) as u32;
    let w = width as u32;
    let h = height as u32;
    let pixels = image_crop(&source.image.pixels, source.image.width, source.image.height, src_x, src_y, w, h);
    proof {
        assert(pixels@.len() == w * 4 * h);
        assert(w * 4 * h == w * h * 4) by (nonlinear_arith);
    }
    Ok(CaptureFrame { bounds, image: Raster { width: w, height: h, pixels } })
}

/// The size of the bitmap header that precedes the pixels.
pub const DIB_HEADER_SIZE: usize = 40;

/// `v` as four little-endian bytes.
pub open spec fn le32(v: int) -> Seq<u8> {
    seq![(v % 256) as u8, ((v / 256) % 256) as u8, ((v / 65536) % 256) as u8, ((v / 16777216) % 256) as u8]
}

/// `v` as two little-endian bytes.
pub open spec fn le16(v: int) -> Seq<u8> {
    seq![(v % 256) as u8, ((v / 256) % 256) as u8]
}

/// The `BITMAPINFOHEADER` of a bottom-up 32-bit uncompressed bitmap of
/// `width` x `height`: its size (40), width, height, one plane, 32 bits per
/// pixel, `BI_RGB`, the pixel bytes (as a 32-bit field), and zero resolution
/// and palette fields.
pub open spec fn dib_header(width: int, height: int) -> Seq<u8> {
    le32(40) + le32(width) + le32(height) + le16(1) + le16(32) + le32(0) + le32((width * height * 4) % 0x1_0000_0000)
        + le32(0) + le32(0) + le32(0) + le32(0)
}

/// Where a bitmap byte comes from in its pixel: blue, green and red are the
/// source's third, second and first bytes; alpha stays.
pub open spec fn bgra_source_offset(k: int) -> int {
    if k == 0 {
        2
    } else if k == 2 {
        0
    } else {
        k
    }
}

/// The bitmap's pixel bytes: row `y` of the bitmap is row `height - 1 - y`
/// of the image (the bitmap is stored bottom-up), each pixel in BGRA order.
pub open spec fn dib_pixels_ok(src: Seq<u8>, width: int, height: int, out: Seq<u8>) -> bool {
    &&& out.len() == height * (width * 4)
    &&& forall|y: int, j: int|
        0 <= y < height && 0 <= j < width * 4 ==> #[trigger] out[y * (width * 4) + j] == src[(height - 1 - y) * (width
            * 4) + (j - j % 4) + bgra_source_offset(j % 4)]
}

fn push_le32(out: &mut Vec<u8>, v: u32)
    ensures
        final(out)@ == old(out)@ + le32(v as int),
{
    out.push((v % 256) as u8);
    out.push(((v / 256) % 256) as u8);
    out.push(((v / 65536) % 256) as u8);
    out.push(((v / 16777216) % 256) as u8);
    assert(final(out)@ =~= old(out)@ + le32(v as int));
}

fn push_le16(out: &mut Vec<u8>, v: u16)
    ensures
        final(out)@ == old(out)@ + le16(v as int),
{
    out.push((v % 256) as u8);
    out.push(((v / 256) % 256) as u8);
    assert(final(out)@ =~= old(out)@ + le16(v as int));
}

proof fn lemma_dib_source_index(h: int, y: int, rb: int, j: int)
    requires
        0 <= y < h,
        0 <= j < rb,
        rb % 4 == 0,
    ensures
        0 <= (h - 1 - y) * rb + (j - j % 4) + bgra_source_offset(j % 4) < h * rb,
        0 <= (h - 1 - y) * rb,
{
    assert(0 <= (h - 1 - y) * rb) by (nonlinear_arith)
        requires
            0 <= h - 1 - y,
            0 <= rb,
    ;
    assert((h - 1 - y) * rb + rb <= h * rb) by (nonlinear_arith)
        requires
            h - 1 - y < h,
            0 <= rb,
            0 <= y,
    ;
    assert(j - j % 4 + 3 < rb);
}

/// The device-independent bitmap the clipboard takes for an image: the
/// header, then the rows bottom-up with each pixel's red and blue exchanged.
pub fn build_dib(image: &Raster) -> (dib: Vec<u8>)
    requires
        raster_wf(*image),
        image.pixels@.len() + DIB_HEADER_SIZE <= usize::MAX,
    ensures
        dib@.len() == DIB_HEADER_SIZE + image.pixels@.len(),
        dib@.subrange(0, 40) == dib_header(image.width as int, image.height as int),
        dib_pixels_ok(image.pixels@, image.width as int, image.height as int, dib@.subrange(40, dib@.len() as int)),
{
    let width = image.width as usize;
    let height = image.height as usize;
    let n = image.pixels.len();
    proof {
        assert(height * (width * 4) == width * height * 4) by (nonlinear_arith);
    }
    let pixel_bytes = n;
    let mut dib: Vec<u8> = Vec::new();
    push_le32(&mut dib, 40);
    push_le32(&mut dib, image.width);
    push_le32(&mut dib, image.height);
    push_le16(&mut dib, 1);
    push_le16(&mut dib, 32);
    push_le32(&mut dib, 0);
    push_le32(&mut dib, #[verifier::truncate] (pixel_bytes as u32));
    proof {
        assert((pixel_bytes as u32) as int == (image.width * image.height * 4) % 0x1_0000_0000) by {
            assert(pixel_bytes as int == image.width * image.height * 4);
            assert((pixel_bytes as u32) as int == pixel_bytes as int % 0x1_0000_0000) by (bit_vector);
        }
    }
    push_le32(&mut dib, 0);
    push_le32(&mut dib, 0);
    push_le32(&mut dib, 0);
    push_le32(&mut dib, 0);
    let ghost header = dib@;
    assert(header =~= dib_header(image.width as int, image.height as int));
    let src = &image.pixels;
    if height == 0 {
        assert(dib@.len() == 40);
        assert(dib@.subrange(40, dib@.len() as int) =~= Seq::<u8>::empty());
        assert(height * (width * 4) == 0) by (nonlinear_arith)
            requires
                height == 0,
        ;
        return dib;
    }
    proof {
        assert(width * 4 <= height * (width * 4)) by (nonlinear_arith)
            requires
                1 <= height,
        ;
    }
    let row_bytes = width * 4;
    let mut y: usize = 0;
    while y < height
        invariant
            n == src@.len(),
            n == height * row_bytes,
            row_bytes == width * 4,
            y <= height,
            header.len() == 40,
            dib@.subrange(0, 40) == header,
            dib@.len() == 40 + y * row_bytes,
            forall|yy: int, j: int|
                0 <= yy < y && 0 <= j < row_bytes ==> #[trigger] dib@[40 + yy * row_bytes + j] == src@[(height - 1 - yy)
                    * row_bytes + (j - j % 4) + bgra_source_offset(j % 4)],
        decreases height - y,
    {
        proof {
            assert(0 <= (height - 1 - y) * row_bytes <= height * row_bytes) by (nonlinear_arith)
                requires
                    y < height,
                    0 <= row_bytes,
            ;
        }
        let src_row = (height - 1 - y) * row_bytes;
        let mut j: usize = 0;
        while j < row_bytes
            invariant
                n == src@.len(),
                n == height * row_bytes,
                row_bytes == width * 4,
                y < height,
                src_row == (height - 1 - y) * row_bytes,
                j <= row_bytes,
                dib@.subrange(0, 40) == header,
                dib@.len() == 40 + y * row_bytes + j,
                forall|yy: int, jj: int|
                    0 <= yy < y && 0 <= jj < row_bytes ==> #[trigger] dib@[40 + yy * row_bytes + jj] == src@[(height - 1
                        - yy) * row_bytes + (jj - jj % 4) + bgra_source_offset(jj % 4)],
                forall|jj: int|
                    0 <= jj < j ==> #[trigger] dib@[40 + y * row_bytes + jj] == src@[(height - 1 - y) * row_bytes + (jj
                        - jj % 4) + bgra_source_offset(jj % 4)],
            decreases row_bytes - j,
        {
            proof {
                lemma_dib_source_index(height as int, y as int, row_bytes as int, j as int);
            }
            let k = j % 4;
            let off: usize = if k == 0 { 2 } else if k == 2 { 0 } else { k };
            let idx = src_row + (j - k) + off;
            let ghost before = dib@;
            dib.push(src[idx]);
            proof {
                assert(dib@.subrange(0, 40) =~= before.subrange(0, 40));
                assert forall|yy: int, jj: int|
                    0 <= yy < y && 0 <= jj < row_bytes implies #[trigger] dib@[40 + yy * row_bytes + jj] == src@[(height
                        - 1 - yy) * row_bytes + (jj - jj % 4) + bgra_source_offset(jj % 4)] by {
                    crate::overlay::lemma_row_before(yy, y as int, jj, row_bytes as int);
                    assert(dib@[40 + yy * row_bytes + jj] == before[40 + yy * row_bytes + jj]);
                }
                assert forall|jj: int| 0 <= jj < j + 1 implies #[trigger] dib@[40 + y * row_bytes + jj] == src@[(height
                    - 1 - y) * row_bytes + (jj - jj % 4) + bgra_source_offset(jj % 4)] by {
                    if jj < j {
                        assert(dib@[40 + y * row_bytes + jj] == before[40 + y * row_bytes + jj]);
                    }
                }
            }
            j = j + 1;
        }
        proof {
            assert((y + 1) * row_bytes == y * row_bytes + row_bytes) by (nonlinear_arith);
            assert forall|yy: int, jj: int|
                0 <= yy < y + 1 && 0 <= jj < row_bytes implies #[trigger] dib@[40 + yy * row_bytes + jj] == src@[(height
                    - 1 - yy) * row_bytes + (jj - jj % 4) + bgra_source_offset(jj % 4)] by {
                if yy == y {
                    assert(dib@[40 + y * row_bytes + jj] == src@[(height - 1 - y) * row_bytes + (jj - jj % 4)
                        + bgra_source_offset(jj % 4)]);
                }
            }
        }
        y = y + 1;
    }
    proof {
        let body = dib@.subrange(40, dib@.len() as int);
        assert forall|yy: int, jj: int|
            0 <= yy < height && 0 <= jj < row_bytes implies #[trigger] body[yy * row_bytes + jj] == src@[(height - 1 - yy)
                * row_bytes + (jj - jj % 4) + bgra_source_offset(jj % 4)] by {
            crate::overlay::lemma_row_before(yy, height as int, jj, row_bytes as int);
            assert(body[yy * row_bytes + jj] == dib@[40 + yy * row_bytes + jj]);
        }
    }
    dib
}

/// `v` clamped onto the indices `0..n` of a line.
pub open spec fn clamp_index(v: int, n: int) -> int {
    if v < 0 {
        0
    } else if v >= n {
        n - 1
    } else {
        v
    }
}

/// Sum of channel `c` of row `y` over the `k` columns from `lo`, each column
/// clamped onto the row (edge pixels repeat).
pub open spec fn hsum(src: Seq<u8>, w: int, y: int, c: int, lo: int, k: nat) -> int
    decreases k,
{
    if k == 0 {
        0
    } else {
        hsum(src, w, y, c, lo, (k - 1) as nat) + src[(y * w + clamp_index(lo + k - 1, w)) * 4 + c] as int
    }
}

/// The horizontal box blur of radius `r` at column `x` of row `y`.
pub open spec fn hval(src: Seq<u8>, w: int, r: int, y: int, x: int, c: int) -> int {
    hsum(src, w, y, c, x - r, (2 * r + 1) as nat) / (2 * r + 1)
}

/// Sum of the horizontal blur of channel `c` of column `x` over the `k` rows
/// from `lo`, each row clamped onto the column.
pub open spec fn vsum(src: Seq<u8>, w: int, h: int, r: int, x: int, c: int, lo: int, k: nat) -> int
    decreases k,
{
    if k == 0 {
        0
    } else {
        vsum(src, w, h, r, x, c, lo, (k - 1) as nat) + hval(src, w, r, clamp_index(lo + k - 1, h), x, c)
    }
}

/// The box blur of radius `r`: the horizontal blur, then the vertical blur
/// of that, each a mean over `2r + 1` clamped samples rounded down.
pub open spec fn blur_value(src: Seq<u8>, w: int, h: int, r: int, y: int, x: int, c: int) -> int {
    vsum(src, w, h, r, x, c, y - r, (2 * r + 1) as nat) / (2 * r + 1)
}

proof fn lemma_hsum_bounds(src: Seq<u8>, w: int, y: int, c: int, lo: int, k: nat)
    ensures
        0 <= hsum(src, w, y, c, lo, k) <= 255 * k,
    decreases k,
{
    if k > 0 {
        lemma_hsum_bounds(src, w, y, c, lo, (k - 1) as nat);
    }
}

proof fn lemma_hval_bounds(src: Seq<u8>, w: int, r: int, y: int, x: int, c: int)
    requires
        r >= 0,
    ensures
        0 <= hval(src, w, r, y, x, c) <= 255,
{
    let k = (2 * r + 1) as nat;
    lemma_hsum_bounds(src, w, y, c, x - r, k);
    let s = hsum(src, w, y, c, x - r, k);
    assert(0 <= s / (2 * r + 1) <= 255) by (nonlinear_arith)
        requires
            0 <= s <= 255 * (2 * r + 1),
            r >= 0,
    ;
}

proof fn lemma_vsum_bounds(src: Seq<u8>, w: int, h: int, r: int, x: int, c: int, lo: int, k: nat)
    requires
        r >= 0,
    ensures
        0 <= vsum(src, w, h, r, x, c, lo, k) <= 255 * k,
    decreases k,
{
    if k > 0 {
        lemma_vsum_bounds(src, w, h, r, x, c, lo, (k - 1) as nat);
        lemma_hval_bounds(src, w, r, clamp_index(lo + k - 1, h), x, c);
    }
}

/// Moving the window one step drops its first sample and adds the next.
proof fn lemma_hsum_slide(src: Seq<u8>, w: int, y: int, c: int, lo: int, k: nat)
    requires
        k >= 1,
    ensures
        hsum(src, w, y, c, lo + 1, k) == hsum(src, w, y, c, lo, k) - src[(y * w + clamp_index(lo, w)) * 4 + c] as int
            + src[(y * w + clamp_index(lo + k, w)) * 4 + c] as int,
    decreases k,
{
    if k > 1 {
        lemma_hsum_slide(src, w, y, c, lo, (k - 1) as nat);
        assert(hsum(src, w, y, c, lo + 1, k) == hsum(src, w, y, c, lo + 1, (k - 1) as nat) + src[(y * w + clamp_index(
            lo + k,
            w,
        )) * 4 + c] as int);
    } else {
        assert(hsum(src, w, y, c, lo + 1, 0) == 0);
        assert(hsum(src, w, y, c, lo, 0) == 0);
    }
}

proof fn lemma_vsum_slide(src: Seq<u8>, w: int, h: int, r: int, x: int, c: int, lo: int, k: nat)
    requires
        k >= 1,
    ensures
        vsum(src, w, h, r, x, c, lo + 1, k) == vsum(src, w, h, r, x, c, lo, k) - hval(src, w, r, clamp_index(lo, h), x, c)
            + hval(src, w, r, clamp_index(lo + k, h), x, c),
    decreases k,
{
    if k > 1 {
        lemma_vsum_slide(src, w, h, r, x, c, lo, (k - 1) as nat);
        assert(vsum(src, w, h, r, x, c, lo + 1, k) == vsum(src, w, h, r, x, c, lo + 1, (k - 1) as nat) + hval(
            src,
            w,
            r,
            clamp_index(lo + k, h),
            x,
            c,
        ));
    } else {
        assert(vsum(src, w, h, r, x, c, lo + 1, 0) == 0);
        assert(vsum(src, w, h, r, x, c, lo, 0) == 0);
    }
}

/// Pixel `(y, x)` of a `w` x `h` image lies inside it, and no other pixel
/// has its index.
proof fn lemma_pixel_index(y: int, x: int, w: int, h: int)
    requires
        0 <= y < h,
        0 <= x < w,
    ensures
        0 <= y * w + x < h * w,
        0 <= (y * w + x) * 4 + 3 < w * h * 4,
        forall|yy: int, xx: int| 0 <= yy && 0 <= xx < w && #[trigger] (yy * w + xx) == y * w + x ==> yy == y && xx == x,
{
    assert(0 <= y * w) by (nonlinear_arith)
        requires
            0 <= y,
            0 <= w,
    ;
    assert(y * w + w <= h * w) by (nonlinear_arith)
        requires
            y < h,
            0 <= w,
    ;
    assert(h * w == w * h) by (nonlinear_arith);
    assert forall|yy: int, xx: int| 0 <= yy && 0 <= xx < w && #[trigger] (yy * w + xx) == y * w + x implies yy == y && xx == x by {
        assert(yy == y) by (nonlinear_arith)
            requires
                0 <= yy,
                0 <= y,
                0 <= xx < w,
                0 <= x < w,
                yy * w + xx == y * w + x,
        ;
    }
}

/// The first horizontal window of row `y`: the `2 * radius + 1` samples
/// from column `-radius`, edge pixels repeated, summed one at a time.
fn h_window_init(src: &Vec<u8>, width: usize, height: usize, y: usize, c: usize, radius: usize) -> (s: i32)
    requires
        width >= 1,
        y < height,
        c < 4,
        width * height * 4 <= src@.len(),
        (2 * radius + 2) * 255 <= i32::MAX,
    ensures
        s == hsum(src@, width as int, y as int, c as int, -(radius as int), (2 * radius + 1) as nat),
{
    let n = src.len();
    let mut s: i32 = 0;
    let mut i: usize = 0;
    while i <= 2 * radius
        invariant
            n == src@.len(),
            width >= 1,
            y < height,
            c < 4,
            width * height * 4 <= src@.len(),
            (2 * radius + 2) * 255 <= i32::MAX,
            i <= 2 * radius + 1,
            s == hsum(src@, width as int, y as int, c as int, -(radius as int), i as nat),
        decreases 2 * radius + 1 - i,
    {
        proof {
            lemma_hsum_bounds(src@, width as int, y as int, c as int, -(radius as int), i as nat);
        }
        let x = if i < radius {
            0
        } else if i - radius < width - 1 {
            i - radius
        } else {
            width - 1
        };
        assert(x == clamp_index(-(radius as int) + i, width as int));
        proof {
            lemma_pixel_index(y as int, x as int, width as int, height as int);
        }
        s = s + src[(y * width + x) * 4 + c] as i32;
        i = i + 1;
    }
    s
}

/// The window sum for the next column: drop the sample `radius` before
/// `x`, add the one `radius + 1` after (both clamped onto the row).
fn h_slide(s: i32, src: &Vec<u8>, width: usize, height: usize, y: usize, x: usize, c: usize, radius: usize) -> (next: i32)
    requires
        x < width,
        y < height,
        c < 4,
        width * height * 4 <= src@.len(),
        (2 * radius + 2) * 255 <= i32::MAX,
        s == hsum(src@, width as int, y as int, c as int, x - radius, (2 * radius + 1) as nat),
    ensures
        next == hsum(src@, width as int, y as int, c as int, x + 1 - radius, (2 * radius + 1) as nat),
{
    let n = src.len();
    proof {
        lemma_pixel_index(y as int, x as int, width as int, height as int);
        lemma_hsum_bounds(src@, width as int, y as int, c as int, x - radius, (2 * radius + 1) as nat);
        lemma_hsum_slide(src@, width as int, y as int, c as int, x - radius, (2 * radius + 1) as nat);
    }
    let out_x = if x >= radius { x - radius } else { 0 };
    let in_x = if x + radius + 1 < width - 1 { x + radius + 1 } else { width - 1 };
    proof {
        lemma_pixel_index(y as int, out_x as int, width as int, height as int);
        lemma_pixel_index(y as int, in_x as int, width as int, height as int);
    }
    let added = s + src[(y * width + in_x) * 4 + c] as i32;
    added - src[(y * width + out_x) * 4 + c] as i32
}

/// The horizontal blur values, pixel after pixel.
pub open spec fn horizontal_done(src: Seq<u8>, w: int, r: int, hb: Seq<u8>, upto: int) -> bool {
    forall|yy: int, xx: int, cc: int|
        0 <= yy && 0 <= xx < w && 0 <= cc < 4 && yy * w + xx < upto ==> #[trigger] hb[(yy * w + xx) * 4 + cc] == hval(
            src,
            w,
            r,
            yy,
            xx,
            cc,
        ) as u8
}

fn horizontal_pass(src: &Vec<u8>, width: usize, height: usize, radius: usize) -> (hb: Vec<u8>)
    requires
        width >= 1,
        height >= 1,
        width * height * 4 <= src@.len(),
        (2 * radius + 2) * 255 <= i32::MAX,
    ensures
        hb@.len() == width * height * 4,
        horizontal_done(src@, width as int, radius as int, hb@, width * height),
{
    let kernel = (radius * 2 + 1) as i32;
    let mut hb: Vec<u8> = Vec::new();
    let mut y: usize = 0;
    proof {
        assert(width * height == height * width) by (nonlinear_arith);
    }
    while y < height
        invariant
            width >= 1,
            height >= 1,
            width * height * 4 <= src@.len(),
            (2 * radius + 2) * 255 <= i32::MAX,
            kernel == 2 * radius + 1,
            y <= height,
            hb@.len() == y * width * 4,
            horizontal_done(src@, width as int, radius as int, hb@, y * width),
        decreases height - y,
    {
        let mut s0 = h_window_init(src, width, height, y, 0, radius);
        let mut s1 = h_window_init(src, width, height, y, 1, radius);
        let mut s2 = h_window_init(src, width, height, y, 2, radius);
        let mut s3 = h_window_init(src, width, height, y, 3, radius);
        let mut x: usize = 0;
        while x < width
            invariant
                width >= 1,
                height >= 1,
                width * height * 4 <= src@.len(),
                (2 * radius + 2) * 255 <= i32::MAX,
                kernel == 2 * radius + 1,
                y < height,
                x <= width,
                hb@.len() == (y * width + x) * 4,
                horizontal_done(src@, width as int, radius as int, hb@, y * width + x),
                s0 == hsum(src@, width as int, y as int, 0, x - radius, (2 * radius + 1) as nat),
                s1 == hsum(src@, width as int, y as int, 1, x - radius, (2 * radius + 1) as nat),
                s2 == hsum(src@, width as int, y as int, 2, x - radius, (2 * radius + 1) as nat),
                s3 == hsum(src@, width as int, y as int, 3, x - radius, (2 * radius + 1) as nat),
            decreases width - x,
        {
            proof {
                lemma_pixel_index(y as int, x as int, width as int, height as int);
                lemma_hval_bounds(src@, width as int, radius as int, y as int, x as int, 0);
                lemma_hval_bounds(src@, width as int, radius as int, y as int, x as int, 1);
                lemma_hval_bounds(src@, width as int, radius as int, y as int, x as int, 2);
                lemma_hval_bounds(src@, width as int, radius as int, y as int, x as int, 3);
                lemma_hsum_bounds(src@, width as int, y as int, 0, x - radius, (2 * radius + 1) as nat);
                lemma_hsum_bounds(src@, width as int, y as int, 1, x - radius, (2 * radius + 1) as nat);
                lemma_hsum_bounds(src@, width as int, y as int, 2, x - radius, (2 * radius + 1) as nat);
                lemma_hsum_bounds(src@, width as int, y as int, 3, x - radius, (2 * radius + 1) as nat);
            }
            let ghost before = hb@;
            hb.push(channel_mean(s0, kernel));
            hb.push(channel_mean(s1, kernel));
            hb.push(channel_mean(s2, kernel));
            hb.push(channel_mean(s3, kernel));
            proof {
                let cur = y * width + x;
                assert forall|yy: int, xx: int, cc: int|
                    0 <= yy && 0 <= xx < width && 0 <= cc < 4 && yy * width + xx < cur + 1 implies #[trigger] hb@[(yy
                        * width + xx) * 4 + cc] == hval(src@, width as int, radius as int, yy, xx, cc) as u8 by {
                    if yy * width + xx < cur {
                        assert(hb@[(yy * width + xx) * 4 + cc] == before[(yy * width + xx) * 4 + cc]);
                    } else {
                        assert(yy == y && xx == x);
                    }
                }
            }
            s0 = h_slide(s0, src, width, height, y, x, 0, radius);
            s1 = h_slide(s1, src, width, height, y, x, 1, radius);
            s2 = h_slide(s2, src, width, height, y, x, 2, radius);
            s3 = h_slide(s3, src, width, height, y, x, 3, radius);
            x = x + 1;
        }
        proof {
            assert(y * width + width == (y + 1) * width) by (nonlinear_arith);
        }
        y = y + 1;
    }
    hb
}

/// A window sum divided by the window size, kept to a byte.
fn channel_mean(s: i32, kernel: i32) -> (v: u8)
    requires
        kernel >= 1,
        s >= 0,
        s / kernel <= 255,
    ensures
        v == s / kernel,
{
    let q = s / kernel;
    let clamped = if q < 0 { 0 } else if q > 255 { 255 } else { q };
    clamped as u8
}

fn v_window_init(hb: &Vec<u8>, src: Ghost<Seq<u8>>, width: usize, height: usize, x: usize, c: usize, radius: usize) -> (s: i32)
    requires
        x < width,
        height >= 1,
        c < 4,
        hb@.len() == width * height * 4,
        horizontal_done(src@, width as int, radius as int, hb@, width * height),
        (2 * radius + 2) * 255 <= i32::MAX,
    ensures
        s == vsum(src@, width as int, height as int, radius as int, x as int, c as int, -(radius as int), (2 * radius + 1) as nat),
{
    let n = hb.len();
    let mut s: i32 = 0;
    let mut i: usize = 0;
    while i <= 2 * radius
        invariant
            n == hb@.len(),
            x < width,
            height >= 1,
            c < 4,
            hb@.len() == width * height * 4,
            horizontal_done(src@, width as int, radius as int, hb@, width * height),
            (2 * radius + 2) * 255 <= i32::MAX,
            i <= 2 * radius + 1,
            s == vsum(src@, width as int, height as int, radius as int, x as int, c as int, -(radius as int), i as nat),
        decreases 2 * radius + 1 - i,
    {
        proof {
            lemma_vsum_bounds(src@, width as int, height as int, radius as int, x as int, c as int, -(radius as int), i as nat);
        }
        let y = if i < radius {
            0
        } else if i - radius < height - 1 {
            i - radius
        } else {
            height - 1
        };
        assert(y == clamp_index(-(radius as int) + i, height as int));
        proof {
            lemma_pixel_index(y as int, x as int, width as int, height as int);
            lemma_hval_bounds(src@, width as int, radius as int, y as int, x as int, c as int);
            assert(hb@[(y * width + x) * 4 + c] == hval(src@, width as int, radius as int, y as int, x as int, c as int) as u8);
        }
        s = s + hb[(y * width + x) * 4 + c] as i32;
        i = i + 1;
    }
    s
}

fn v_slide(s: i32, hb: &Vec<u8>, src: Ghost<Seq<u8>>, width: usize, height: usize, y: usize, x: usize, c: usize, radius: usize) -> (next: i32)
    requires
        x < width,
        y < height,
        c < 4,
        hb@.len() == width * height * 4,
        horizontal_done(src@, width as int, radius as int, hb@, width * height),
        (2 * radius + 2) * 255 <= i32::MAX,
        s == vsum(src@, width as int, height as int, radius as int, x as int, c as int, y - radius, (2 * radius + 1) as nat),
    ensures
        next == vsum(src@, width as int, height as int, radius as int, x as int, c as int, y + 1 - radius, (2 * radius + 1) as nat),
{
    let n = hb.len();
    proof {
        assert(height * 4 <= width * height * 4) by (nonlinear_arith)
            requires
                width >= 1,
        ;
        lemma_pixel_index(y as int, x as int, width as int, height as int);
        lemma_vsum_bounds(src@, width as int, height as int, radius as int, x as int, c as int, y - radius, (2 * radius + 1) as nat);
        lemma_vsum_slide(src@, width as int, height as int, radius as int, x as int, c as int, y - radius, (2 * radius + 1) as nat);
    }
    let out_y = if y >= radius { y - radius } else { 0 };
    let in_y = if y + radius + 1 < height - 1 { y + radius + 1 } else { height - 1 };
    proof {
        lemma_pixel_index(out_y as int, x as int, width as int, height as int);
        lemma_pixel_index(in_y as int, x as int, width as int, height as int);
        lemma_hval_bounds(src@, width as int, radius as int, out_y as int, x as int, c as int);
        lemma_hval_bounds(src@, width as int, radius as int, in_y as int, x as int, c as int);
        assert(hb@[(in_y * width + x) * 4 + c] == hval(src@, width as int, radius as int, in_y as int, x as int, c as int) as u8);
        assert(hb@[(out_y * width + x) * 4 + c] == hval(src@, width as int, radius as int, out_y as int, x as int, c as int) as u8);
    }
    let added = s + hb[(in_y * width + x) * 4 + c] as i32;
    added - hb[(out_y * width + x) * 4 + c] as i32
}

/// The blurred values of the columns before `x` and of the first `y` rows of column `x`.
pub open spec fn vertical_done(src: Seq<u8>, w: int, h: int, r: int, out: Seq<u8>, x: int, y: int) -> bool {
    forall|yy: int, xx: int, cc: int|
        0 <= yy < h && 0 <= xx < w && 0 <= cc < 4 && (xx < x || (xx == x && yy < y)) ==> #[trigger] out[(yy * w + xx) * 4
            + cc] == blur_value(src, w, h, r, yy, xx, cc) as u8
}

/// A box blur of radius `radius` over an RGBA buffer of `width` x `height`
/// (a horizontal pass, then a vertical one, each a mean over `2 * radius +
/// 1` pixels with the edge pixels repeated). An empty buffer, an empty
/// image or radius 0 gives the buffer back unchanged; bytes past the image
/// come back zero.
pub fn blur_buffer_4ch(src: &Vec<u8>, width: usize, height: usize, radius: usize) -> (out: Vec<u8>)
    requires
        width * height * 4 <= src@.len(),
        (2 * radius + 2) * 255 <= i32::MAX,
    ensures
        src@.len() == 0 || width == 0 || height == 0 || radius == 0 ==> out@ == src@,
        !(src@.len() == 0 || width == 0 || height == 0 || radius == 0) ==> {
            &&& out@.len() == src@.len()
            &&& forall|y: int, x: int, c: int|
                0 <= y < height && 0 <= x < width && 0 <= c < 4 ==> #[trigger] out@[(y * width + x) * 4 + c] == blur_value(
                    src@,
                    width as int,
                    height as int,
                    radius as int,
                    y,
                    x,
                    c,
                ) as u8
            &&& forall|k: int| width * height * 4 <= k < src@.len() ==> #[trigger] out@[k] == 0
        },
{
    if src.len() == 0 || width == 0 || height == 0 || radius == 0 {
        return src.clone();
    }
    let kernel = (radius * 2 + 1) as i32;
    let hb = horizontal_pass(src, width, height, radius);
    let n = src.len();
    let mut out: Vec<u8> = Vec::new();
    let mut k: usize = 0;
    while k < n
        invariant
            k <= n,
            n == src@.len(),
            out@.len() == k,
            forall|j: int| 0 <= j < k ==> #[trigger] out@[j] == 0,
        decreases n - k,
    {
        out.push(0);
        k = k + 1;
    }
    let ghost g = src@;
    let mut x: usize = 0;
    while x < width
        invariant
            g == src@,
            n == src@.len(),
            width >= 1,
            height >= 1,
            width * height * 4 <= src@.len(),
            (2 * radius + 2) * 255 <= i32::MAX,
            kernel == 2 * radius + 1,
            hb@.len() == width * height * 4,
            horizontal_done(g, width as int, radius as int, hb@, width * height),
            out@.len() == src@.len(),
            x <= width,
            vertical_done(g, width as int, height as int, radius as int, out@, x as int, 0),
            forall|j: int| width * height * 4 <= j < src@.len() ==> #[trigger] out@[j] == 0,
        decreases width - x,
    {
        let mut s0 = v_window_init(&hb, Ghost(g), width, height, x, 0, radius);
        let mut s1 = v_window_init(&hb, Ghost(g), width, height, x, 1, radius);
        let mut s2 = v_window_init(&hb, Ghost(g), width, height, x, 2, radius);
        let mut s3 = v_window_init(&hb, Ghost(g), width, height, x, 3, radius);
        let mut y: usize = 0;
        while y < height
            invariant
                g == src@,
                n == src@.len(),
                width >= 1,
                height >= 1,
                width * height * 4 <= src@.len(),
                (2 * radius + 2) * 255 <= i32::MAX,
                kernel == 2 * radius + 1,
                hb@.len() == width * height * 4,
                horizontal_done(g, width as int, radius as int, hb@, width * height),
                out@.len() == src@.len(),
                x < width,
                y <= height,
                vertical_done(g, width as int, height as int, radius as int, out@, x as int, y as int),
                forall|j: int| width * height * 4 <= j < src@.len() ==> #[trigger] out@[j] == 0,
                s0 == vsum(g, width as int, height as int, radius as int, x as int, 0, y - radius, (2 * radius + 1) as nat),
                s1 == vsum(g, width as int, height as int, radius as int, x as int, 1, y - radius, (2 * radius + 1) as nat),
                s2 == vsum(g, width as int, height as int, radius as int, x as int, 2, y - radius, (2 * radius + 1) as nat),
                s3 == vsum(g, width as int, height as int, radius as int, x as int, 3, y - radius, (2 * radius + 1) as nat),
            decreases height - y,
        {
            proof {
                lemma_pixel_index(y as int, x as int, width as int, height as int);
                lemma_vsum_bounds(g, width as int, height as int, radius as int, x as int, 0, y - radius, (2 * radius + 1) as nat);
                lemma_vsum_bounds(g, width as int, height as int, radius as int, x as int, 1, y - radius, (2 * radius + 1) as nat);
                lemma_vsum_bounds(g, width as int, height as int, radius as int, x as int, 2, y - radius, (2 * radius + 1) as nat);
                lemma_vsum_bounds(g, width as int, height as int, radius as int, x as int, 3, y - radius, (2 * radius + 1) as nat);
                let kk = 2 * radius + 1;
                assert(forall|t: int| 0 <= t <= 255 * kk ==> 0 <= #[trigger] (t / kk) <= 255) by {
                    assert forall|t: int| 0 <= t <= 255 * kk implies 0 <= #[trigger] (t / kk) <= 255 by {
                        assert(0 <= t / kk <= 255) by (nonlinear_arith)
                            requires
                                0 <= t <= 255 * kk,
                                kk >= 1,
                        ;
                    }
                }
            }
            let base = (y * width + x) * 4;
            let ghost before = out@;
            out.set(base, channel_mean(s0, kernel));
            out.set(base + 1, channel_mean(s1, kernel));
            out.set(base + 2, channel_mean(s2, kernel));
            out.set(base + 3, channel_mean(s3, kernel));
            proof {
                assert forall|yy: int, xx: int, cc: int|
                    0 <= yy < height && 0 <= xx < width && 0 <= cc < 4 && (xx < x || (xx == x && yy < y + 1)) implies #[trigger] out@[(
                        yy * width + xx) * 4 + cc] == blur_value(g, width as int, height as int, radius as int, yy, xx, cc) as u8 by {
                    if xx == x && yy == y {
                    } else {
                        lemma_pixel_index(yy, xx, width as int, height as int);
                        assert(yy * width + xx != y * width + x);
                        assert(out@[(yy * width + xx) * 4 + cc] == before[(yy * width + xx) * 4 + cc]);
                    }
                }
                assert forall|j: int| width * height * 4 <= j < src@.len() implies #[trigger] out@[j] == 0 by {
                    assert(out@[j] == before[j]);
                }
            }
            s0 = v_slide(s0, &hb, Ghost(g), width, height, y, x, 0, radius);
            s1 = v_slide(s1, &hb, Ghost(g), width, height, y, x, 1, radius);
            s2 = v_slide(s2, &hb, Ghost(g), width, height, y, x, 2, radius);
            s3 = v_slide(s3, &hb, Ghost(g), width, height, y, x, 3, radius);
            y = y + 1;
        }
        y = 0;
        x = x + 1;
    }
    out
}

/// Every pixel of a `w` x `h` image is `color` where `painted` holds and
/// keeps its value from `orig` elsewhere.
pub open spec fn pixels_follow(out: Seq<u8>, orig: Seq<u8>, w: int, h: int, painted: spec_fn(int, int) -> bool, color: [u8; 4]) -> bool {
    &&& out.len() == orig.len()
    &&& forall|y: int, x: int, c: int|
        0 <= y < h && 0 <= x < w && 0 <= c < 4 ==> #[trigger] out[(y * w + x) * 4 + c] == if painted(x, y) {
            color@[c]
        } else {
            orig[(y * w + x) * 4 + c]
        }
}

/// Sets pixel `(x, y)`.
fn put_pixel(image: &mut Raster, x: u32, y: u32, px: [u8; 4])
    requires
        raster_wf(*old(image)),
        x < old(image).width,
        y < old(image).height,
    ensures
        final(image).width == old(image).width,
        final(image).height == old(image).height,
        raster_wf(*final(image)),
        forall|yy: int, xx: int, c: int|
            0 <= yy < old(image).height && 0 <= xx < old(image).width && 0 <= c < 4 ==> #[trigger] final(image).pixels@[(
                yy * old(image).width + xx) * 4 + c] == if xx == x && yy == y {
                px@[c]
            } else {
                old(image).pixels@[(yy * old(image).width + xx) * 4 + c]
            },
{
    let ghost w = image.width as int;
    let ghost h = image.height as int;
    let _n = image.pixels.len();
    proof {
        lemma_pixel_index(y as int, x as int, w, h);
    }
    let base = ((y as usize) * (image.width as usize) + (x as usize)) * 4;
    image.pixels.set(base, px[0]);
    image.pixels.set(base + 1, px[1]);
    image.pixels.set(base + 2, px[2]);
    image.pixels.set(base + 3, px[3]);
    proof {
        assert forall|yy: int, xx: int, c: int|
            0 <= yy < h && 0 <= xx < w && 0 <= c < 4 implies #[trigger] image.pixels@[(yy * w + xx) * 4 + c] == if xx == x
            && yy == y {
            px@[c]
        } else {
            old(image).pixels@[(yy * w + xx) * 4 + c]
        } by {
            lemma_pixel_index(yy, xx, w, h);
            if !(xx == x && yy == y) {
                assert(yy * w + xx != y * w + x);
            }
        }
    }
}

/// The distance of `(x, y)` from the nearest edge of the box `[l, r) x [t, b)`.
pub open spec fn edge_distance(x: int, y: int, l: int, t: int, r: int, b: int) -> int {
    crate::geometry::spec_min(crate::geometry::spec_min(x - l, r - 1 - x), crate::geometry::spec_min(y - t, b - 1 - y))
}

/// Pixels of the box within `k` pixels of its edge.
pub open spec fn in_border(x: int, y: int, l: int, t: int, r: int, b: int, k: int) -> bool {
    l <= x < r && t <= y < b && edge_distance(x, y, l, t, r, b) < k
}

/// The box and stroke count an outline is drawn with: the rectangle clamped
/// onto the image, and the thickness kept between 1 and half the box's
/// shorter side (at least 1). `None` when nothing is drawn.
pub open spec fn outline_box(w: int, h: int, rect: RectPx, thickness: i32) -> Option<(int, int, int, int, int)> {
    if w <= 0 || h <= 0 {
        None
    } else {
        let l = spec_clamp(rect.left as int, 0, w);
        let r = spec_clamp(rect.right as int, 0, w);
        let t = spec_clamp(rect.top as int, 0, h);
        let b = spec_clamp(rect.bottom as int, 0, h);
        if r - l < 1 || b - t < 1 {
            None
        } else {
            let max_strokes = spec_max(crate::geometry::spec_min(r - l, b - t) / 2, 1);
            let strokes = crate::geometry::spec_min(spec_max(thickness as int, 1), max_strokes);
            Some((l, t, r, b, strokes))
        }
    }
}

/// The pixels a rectangle outline covers.
pub open spec fn outline_pixels(w: int, h: int, rect: RectPx, thickness: i32) -> spec_fn(int, int) -> bool {
    |x: int, y: int|
        match outline_box(w, h, rect, thickness) {
            None => false,
            Some((l, t, r, b, k)) => in_border(x, y, l, t, r, b, k),
        }
}

/// The pixels painted once ring `i` has reached column `cur` of its rows
/// (stage 0) or row `cur` of its columns (stage 1).
pub open spec fn ring_progress(l: int, t: int, r: int, b: int, i: int, stage: int, cur: int) -> spec_fn(int, int) -> bool {
    |x: int, y: int|
        in_border(x, y, l, t, r, b, i) || (stage == 0 && (y == t + i || y == b - 1 - i) && l + i <= x < cur) || (stage
            == 1 && ((l + i <= x <= r - 1 - i && (y == t + i || y == b - 1 - i)) || ((x == l + i || x == r - 1 - i)
            && t + i <= y < cur)))
}

/// Draws the outline of `rect`, `thickness` pixels wide inwards, clipped
/// to the image.
pub fn draw_rect_outline(image: &mut Raster, rect: RectPx, color: [u8; 4], thickness: i32)
    requires
        raster_wf(*old(image)),
    ensures
        final(image).width == old(image).width,
        final(image).height == old(image).height,
        pixels_follow(
            final(image).pixels@,
            old(image).pixels@,
            old(image).width as int,
            old(image).height as int,
            outline_pixels(
                (old(image).width as i32) as int,
                (old(image).height as i32) as int,
                rect,
                thickness,
            ),
            color,
        ),
{
    let ghost orig = image.pixels@;
    let ghost w0 = image.width as int;
    let ghost h0 = image.height as int;
    let iw = image.width;
    let ih = image.height;
    let width = #[verifier::truncate] (iw as i32);
    let height = #[verifier::truncate] (ih as i32);
    if width <= 0 || height <= 0 {
        assert(pixels_follow(image.pixels@, orig, w0, h0, outline_pixels(width as int, height as int, rect, thickness), color));
        return;
    }
    assert(width == image.width && height == image.height) by {
        assert(0 < width ==> width as int == iw as int) by (bit_vector)
            requires
                width == iw as i32,
        ;
        assert(0 < height ==> height as int == ih as int) by (bit_vector)
            requires
                height == ih as i32,
        ;
    }
    let left = clamp_i32(rect.left, 0, width);
    let right = clamp_i32(rect.right, 0, width);
    let top = clamp_i32(rect.top, 0, height);
    let bottom = clamp_i32(rect.bottom, 0, height);
    if right - left < 1 || bottom - top < 1 {
        assert(pixels_follow(image.pixels@, orig, w0, h0, outline_pixels(width as int, height as int, rect, thickness), color));
        return;
    }
    let side = if right - left < bottom - top { right - left } else { bottom - top };
    let max_strokes = max_i32(side / 2, 1);
    let strokes = crate::geometry::min_i32(max_i32(thickness, 1), max_strokes);
    let ghost (l, t, r, b) = (left as int, top as int, right as int, bottom as int);
    assert(outline_box(width as int, height as int, rect, thickness) == Some((l, t, r, b, strokes as int)));
    let mut i: i32 = 0;
    while i < strokes
        invariant_except_break
            raster_wf(*image),
            image.width == w0,
            image.height == h0,
            width == w0,
            height == h0,
            0 <= l < r <= w0,
            0 <= t < b <= h0,
            left == l && right == r && top == t && bottom == b,
            1 <= strokes <= r - l,
            strokes <= b - t,
            w0 <= i32::MAX,
            h0 <= i32::MAX,
            0 <= i <= strokes,
            pixels_follow(image.pixels@, orig, w0, h0, ring_progress(l, t, r, b, i as int, 2, 0), color),
        ensures
            raster_wf(*image),
            image.width == w0,
            image.height == h0,
            pixels_follow(image.pixels@, orig, w0, h0, ring_progress(l, t, r, b, strokes as int, 2, 0), color),
        decreases strokes - i,
    {
        let li = left + i;
        let ri = right - 1 - i;
        let ti = top + i;
        let bi = bottom - 1 - i;
        if li > ri || ti > bi {
            proof {
                assert forall|y: int, x: int, c: int|
                    0 <= y < h0 && 0 <= x < w0 && 0 <= c < 4 implies #[trigger] image.pixels@[(y * w0 + x) * 4 + c] == if ring_progress(l, t, r, b, strokes as int, 2, 0)(x, y) {
                    color@[c]
                } else {
                    orig[(y * w0 + x) * 4 + c]
                } by {
                    assert(ring_progress(l, t, r, b, strokes as int, 2, 0)(x, y) == ring_progress(l, t, r, b, i as int, 2, 0)(x, y));
                }
            }
            break;
        }
        let mut x: i32 = li;
        while x <= ri
            invariant
                raster_wf(*image),
                image.width == w0,
                image.height == h0,
                0 <= l < r <= w0,
                0 <= t < b <= h0,
                0 <= i < r - l,
                w0 <= i32::MAX,
                h0 <= i32::MAX,
                li == l + i && ri == r - 1 - i && ti == t + i && bi == b - 1 - i,
                li <= ri && ti <= bi,
                li <= x <= ri + 1,
                pixels_follow(image.pixels@, orig, w0, h0, ring_progress(l, t, r, b, i as int, 0, x as int), color),
            decreases ri + 1 - x,
        {
            let ghost before = image.pixels@;
            put_pixel(image, x as u32, ti as u32, color);
            let ghost mid = image.pixels@;
            put_pixel(image, x as u32, bi as u32, color);
            proof {
                assert forall|y: int, xx: int, c: int|
                    0 <= y < h0 && 0 <= xx < w0 && 0 <= c < 4 implies #[trigger] image.pixels@[(y * w0 + xx) * 4 + c] == if ring_progress(l, t, r, b, i as int, 0, x + 1)(xx, y) {
                    color@[c]
                } else {
                    orig[(y * w0 + xx) * 4 + c]
                } by {
                    assert(mid[(y * w0 + xx) * 4 + c] == if xx == x && y == ti { color@[c] } else { before[(y * w0 + xx) * 4 + c] });
                    assert(before[(y * w0 + xx) * 4 + c] == if ring_progress(l, t, r, b, i as int, 0, x as int)(xx, y) {
                        color@[c]
                    } else {
                        orig[(y * w0 + xx) * 4 + c]
                    });
                }
            }
            x = x + 1;
        }
        let mut y: i32 = ti;
        proof {
            assert forall|yy: int, xx: int, c: int|
                0 <= yy < h0 && 0 <= xx < w0 && 0 <= c < 4 implies #[trigger] image.pixels@[(yy * w0 + xx) * 4 + c] == if ring_progress(l, t, r, b, i as int, 1, ti as int)(xx, yy) {
                color@[c]
            } else {
                orig[(yy * w0 + xx) * 4 + c]
            } by {
                assert(ring_progress(l, t, r, b, i as int, 1, ti as int)(xx, yy) == ring_progress(l, t, r, b, i as int, 0, ri + 1)(xx, yy));
            }
        }
        while y <= bi
            invariant
                raster_wf(*image),
                image.width == w0,
                image.height == h0,
                0 <= l < r <= w0,
                0 <= t < b <= h0,
                0 <= i < r - l,
                w0 <= i32::MAX,
                h0 <= i32::MAX,
                li == l + i && ri == r - 1 - i && ti == t + i && bi == b - 1 - i,
                li <= ri && ti <= bi,
                ti <= y <= bi + 1,
                pixels_follow(image.pixels@, orig, w0, h0, ring_progress(l, t, r, b, i as int, 1, y as int), color),
            decreases bi + 1 - y,
        {
            let ghost before = image.pixels@;
            put_pixel(image, li as u32, y as u32, color);
            let ghost mid = image.pixels@;
            put_pixel(image, ri as u32, y as u32, color);
            proof {
                assert forall|yy: int, xx: int, c: int|
                    0 <= yy < h0 && 0 <= xx < w0 && 0 <= c < 4 implies #[trigger] image.pixels@[(yy * w0 + xx) * 4 + c] == if ring_progress(l, t, r, b, i as int, 1, y + 1)(xx, yy) {
                    color@[c]
                } else {
                    orig[(yy * w0 + xx) * 4 + c]
                } by {
                    assert(mid[(yy * w0 + xx) * 4 + c] == if xx == li && yy == y { color@[c] } else { before[(yy * w0 + xx) * 4 + c] });
                    assert(before[(yy * w0 + xx) * 4 + c] == if ring_progress(l, t, r, b, i as int, 1, y as int)(xx, yy) {
                        color@[c]
                    } else {
                        orig[(yy * w0 + xx) * 4 + c]
                    });
                }
            }
            y = y + 1;
        }
        proof {
            assert forall|yy: int, xx: int, c: int|
                0 <= yy < h0 && 0 <= xx < w0 && 0 <= c < 4 implies #[trigger] image.pixels@[(yy * w0 + xx) * 4 + c] == if ring_progress(l, t, r, b, i + 1, 2, 0)(xx, yy) {
                color@[c]
            } else {
                orig[(yy * w0 + xx) * 4 + c]
            } by {
                assert(ring_progress(l, t, r, b, i + 1, 2, 0)(xx, yy) == ring_progress(l, t, r, b, i as int, 1, bi + 1)(xx, yy));
            }
        }
        i = i + 1;
    }
    proof {
        assert forall|yy: int, xx: int, c: int|
            0 <= yy < h0 && 0 <= xx < w0 && 0 <= c < 4 implies #[trigger] image.pixels@[(yy * w0 + xx) * 4 + c] == if outline_pixels(width as int, height as int, rect, thickness)(xx, yy) {
            color@[c]
        } else {
            orig[(yy * w0 + xx) * 4 + c]
        } by {
            assert(outline_pixels(width as int, height as int, rect, thickness)(xx, yy) == ring_progress(l, t, r, b, strokes as int, 2, 0)(xx, yy));
        }
    }
}

/// The block of `rows` rows of `row_bytes` bytes at row `y`, byte `x` of a
/// buffer with rows `stride` bytes long.
pub open spec fn block_of(src: Seq<u8>, stride: int, x: int, y: int, row_bytes: int, rows: int) -> Seq<u8> {
    Seq::new((rows * row_bytes) as nat, |k: int| src[(y + k / row_bytes) * stride + x + k % row_bytes])
}

/// A copied block is that block.
pub proof fn lemma_block_copied_is_block(src: Seq<u8>, stride: int, x: int, y: int, row_bytes: int, rows: int, out: Seq<u8>)
    requires
        row_bytes > 0,
        rows >= 0,
        block_copied(src, stride, x, y, row_bytes, rows, out),
    ensures
        out == block_of(src, stride, x, y, row_bytes, rows),
{
    assert(0 <= rows * row_bytes) by (nonlinear_arith)
        requires
            rows >= 0,
            row_bytes > 0,
    ;
    assert forall|k: int| 0 <= k < out.len() implies #[trigger] out[k] == block_of(src, stride, x, y, row_bytes, rows)[k] by {
        vstd::arithmetic::div_mod::lemma_fundamental_div_mod(k, row_bytes);
        vstd::arithmetic::div_mod::lemma_mod_pos_bound(k, row_bytes);
        let q = k / row_bytes;
        let m = k % row_bytes;
        assert(0 <= q < rows) by (nonlinear_arith)
            requires
                k == row_bytes * q + m,
                0 <= m < row_bytes,
                0 <= k < rows * row_bytes,
        ;
        assert(q * row_bytes == row_bytes * q) by (nonlinear_arith);
        assert(out[q * row_bytes + m] == src[(y + q) * stride + x + m]);
    }
    assert(out =~= block_of(src, stride, x, y, row_bytes, rows));
}

/// Every pixel of a `w` x `h` image is `value(x, y, c)` where `changed`
/// holds and keeps its value from `orig` elsewhere.
pub open spec fn pixels_map(
    out: Seq<u8>,
    orig: Seq<u8>,
    w: int,
    h: int,
    changed: spec_fn(int, int) -> bool,
    value: spec_fn(int, int, int) -> u8,
) -> bool {
    &&& out.len() == orig.len()
    &&& forall|y: int, x: int, c: int|
        0 <= y < h && 0 <= x < w && 0 <= c < 4 ==> #[trigger] out[(y * w + x) * 4 + c] == if changed(x, y) {
            value(x, y, c)
        } else {
            orig[(y * w + x) * 4 + c]
        }
}

/// `rect` clamped onto a `w` x `h` image, when it keeps some area.
pub open spec fn clamped_box(w: int, h: int, rect: RectPx) -> Option<(int, int, int, int)> {
    if w <= 0 || h <= 0 {
        None
    } else {
        let l = spec_clamp(rect.left as int, 0, w);
        let t = spec_clamp(rect.top as int, 0, h);
        let r = spec_clamp(rect.right as int, 0, w);
        let b = spec_clamp(rect.bottom as int, 0, h);
        if r <= l || b <= t {
            None
        } else {
            Some((l, t, r, b))
        }
    }
}

/// The pixels a blur covers: the clamped box.
pub open spec fn box_pixels(w: int, h: int, rect: RectPx) -> spec_fn(int, int) -> bool {
    |x: int, y: int|
        match clamped_box(w, h, rect) {
            None => false,
            Some((l, t, r, b)) => l <= x < r && t <= y < b,
        }
}

/// The blurred box: the box blur of the box's own pixels (cut out of the
/// image), at least radius 1.
pub open spec fn blurred_box_value(orig: Seq<u8>, w: int, h: int, rect: RectPx, radius: int) -> spec_fn(int, int, int) -> u8 {
    |x: int, y: int, c: int|
        match clamped_box(w, h, rect) {
            None => 0u8,
            Some((l, t, r, b)) => blur_value(
                block_of(orig, w * 4, l * 4, t, (r - l) * 4, b - t),
                r - l,
                b - t,
                spec_max(radius, 1),
                y - t,
                x - l,
                c,
            ) as u8,
        }
}

/// Blurs the pixels of `rect` (clamped onto the image) with a box blur of
/// radius `radius` (at least 1).
pub fn draw_blur_raster(image: &mut Raster, rect: RectPx, radius: i32)
    requires
        raster_wf(*old(image)),
        (2 * spec_max(radius as int, 1) + 2) * 255 <= i32::MAX,
    ensures
        final(image).width == old(image).width,
        final(image).height == old(image).height,
        pixels_map(
            final(image).pixels@,
            old(image).pixels@,
            old(image).width as int,
            old(image).height as int,
            box_pixels((old(image).width as i32) as int, (old(image).height as i32) as int, rect),
            blurred_box_value(old(image).pixels@, old(image).width as int, old(image).height as int, rect, radius as int),
        ),
{
    let ghost orig = image.pixels@;
    let ghost w0 = image.width as int;
    let ghost h0 = image.height as int;
    let iw = image.width;
    let ih = image.height;
    let width = #[verifier::truncate] (iw as i32);
    let height = #[verifier::truncate] (ih as i32);
    if width <= 0 || height <= 0 {
        assert(pixels_map(image.pixels@, orig, w0, h0, box_pixels(width as int, height as int, rect), blurred_box_value(orig, w0, h0, rect, radius as int)));
        return;
    }
    assert(width == iw && height == ih) by {
        assert(0 < width ==> width as int == iw as int) by (bit_vector)
            requires
                width == iw as i32,
        ;
        assert(0 < height ==> height as int == ih as int) by (bit_vector)
            requires
                height == ih as i32,
        ;
    }
    let left = clamp_i32(rect.left, 0, width);
    let top = clamp_i32(rect.top, 0, height);
    let right = clamp_i32(rect.right, 0, width);
    let bottom = clamp_i32(rect.bottom, 0, height);
    if right <= left || bottom <= top {
        assert(pixels_map(image.pixels@, orig, w0, h0, box_pixels(width as int, height as int, rect), blurred_box_value(orig, w0, h0, rect, radius as int)));
        return;
    }
    let ghost (l, t, r, b) = (left as int, top as int, right as int, bottom as int);
    let pw = (right - left) as usize;
    let ph = (bottom - top) as usize;
    let n = image.pixels.len();
    proof {
        assert((t + ph) * (w0 * 4) <= h0 * (w0 * 4)) by (nonlinear_arith)
            requires
                t + ph <= h0,
                0 <= w0,
        ;
        assert(w0 * h0 * 4 == h0 * (w0 * 4)) by (nonlinear_arith);
        assert(w0 * 4 <= h0 * (w0 * 4)) by (nonlinear_arith)
            requires
                1 <= h0,
                0 <= w0,
        ;
        assert(pw * ph * 4 <= w0 * h0 * 4) by (nonlinear_arith)
            requires
                pw <= w0,
                ph <= h0,
        ;
        assert(ph * (pw * 4) == pw * ph * 4) by (nonlinear_arith);
    }
    let stride = (iw as usize) * 4;
    let patch = crate::overlay::copy_rows(&image.pixels, stride, (left as usize) * 4, top as usize, pw * 4, ph);
    proof {
        lemma_block_copied_is_block(orig, w0 * 4, l * 4, t, (pw * 4) as int, ph as int, patch@);
    }
    let rad: usize = if radius > 1 { radius as usize } else { 1 };
    let blurred = blur_buffer_4ch(&patch, pw, ph, rad);
    let ghost bl = blurred@;
    let ghost value = blurred_box_value(orig, w0, h0, rect, radius as int);
    let ghost changed = box_pixels(width as int, height as int, rect);
    assert(clamped_box(width as int, height as int, rect) == Some((l, t, r, b)));
    assert(clamped_box(w0, h0, rect) == Some((l, t, r, b)));
    let bn = blurred.len();
    proof {
        assert(0 < pw * ph * 4) by (nonlinear_arith)
            requires
                0 < pw,
                0 < ph,
        ;
        assert(rad as int == spec_max(radius as int, 1));
        assert forall|yy: int, xx: int, c: int|
            0 <= yy < ph && 0 <= xx < pw && 0 <= c < 4 implies #[trigger] bl[(yy * pw + xx) * 4 + c] == value(xx + l, yy + t, c) by {
            assert(bl[(yy * pw + xx) * 4 + c] == blur_value(patch@, pw as int, ph as int, rad as int, yy, xx, c) as u8);
        }
    }
    let mut y: usize = 0;
    while y < ph
        invariant
            raster_wf(*image),
            image.width == w0,
            image.height == h0,
            w0 <= i32::MAX,
            h0 <= i32::MAX,
            0 <= l < r <= w0,
            0 <= t < b <= h0,
            left == l && top == t,
            pw == r - l,
            ph == b - t,
            blurred@ == bl,
            bn == bl.len(),
            bl.len() == pw * ph * 4,
            forall|yy: int, xx: int, c: int|
                0 <= yy < ph && 0 <= xx < pw && 0 <= c < 4 ==> #[trigger] bl[(yy * pw + xx) * 4 + c] == value(xx + l, yy + t, c),
            y <= ph,
            pixels_map(
                image.pixels@,
                orig,
                w0,
                h0,
                |x: int, yy: int| changed(x, yy) && yy < t + y,
                value,
            ),
            forall|x: int, yy: int| #[trigger] changed(x, yy) == (l <= x < r && t <= yy < b),
        decreases ph - y,
    {
        let mut x: usize = 0;
        while x < pw
            invariant
                raster_wf(*image),
                image.width == w0,
                image.height == h0,
                w0 <= i32::MAX,
                h0 <= i32::MAX,
                0 <= l < r <= w0,
                0 <= t < b <= h0,
                left == l && top == t,
                pw == r - l,
                ph == b - t,
                blurred@ == bl,
                bn == bl.len(),
                bl.len() == pw * ph * 4,
                forall|yy: int, xx: int, c: int|
                    0 <= yy < ph && 0 <= xx < pw && 0 <= c < 4 ==> #[trigger] bl[(yy * pw + xx) * 4 + c] == value(xx + l, yy + t, c),
                y < ph,
                x <= pw,
                pixels_map(
                    image.pixels@,
                    orig,
                    w0,
                    h0,
                    |xx: int, yy: int| changed(xx, yy) && (yy < t + y || (yy == t + y && xx < l + x)),
                    value,
                ),
                forall|xx: int, yy: int| #[trigger] changed(xx, yy) == (l <= xx < r && t <= yy < b),
            decreases pw - x,
        {
            proof {
                lemma_pixel_index(y as int, x as int, pw as int, ph as int);
            }
            let idx = (y * pw + x) * 4;
            let px = [blurred[idx], blurred[idx + 1], blurred[idx + 2], blurred[idx + 3]];
            let ghost before = image.pixels@;
            put_pixel(image, (left as usize + x) as u32, (top as usize + y) as u32, px);
            proof {
                let xa = l + x;
                let ya = t + y;
                assert forall|yy: int, xx: int, c: int|
                    0 <= yy < h0 && 0 <= xx < w0 && 0 <= c < 4 implies #[trigger] image.pixels@[(yy * w0 + xx) * 4 + c]
                        == if changed(xx, yy) && (yy < t + y || (yy == t + y && xx < l + x + 1)) {
                        value(xx, yy, c)
                    } else {
                        orig[(yy * w0 + xx) * 4 + c]
                    } by {
                    if xx == xa && yy == ya {
                        assert(px@[c] == bl[(y * pw + x) * 4 + c]);
                    }
                }
            }
            x = x + 1;
        }
        y = y + 1;
    }
    proof {
        assert forall|yy: int, xx: int, c: int|
            0 <= yy < h0 && 0 <= xx < w0 && 0 <= c < 4 implies #[trigger] image.pixels@[(yy * w0 + xx) * 4 + c] == if changed(xx, yy) {
                value(xx, yy, c)
            } else {
                orig[(yy * w0 + xx) * 4 + c]
            } by {
        }
    }
}

/// Sum of channel `c` over the `n` pixels of row `y` from column `x0`.
pub open spec fn rsum(s: Seq<u8>, w: int, y: int, x0: int, n: nat, c: int) -> int
    decreases n,
{
    if n == 0 {
        0
    } else {
        rsum(s, w, y, x0, (n - 1) as nat, c) + s[(y * w + x0 + n - 1) * 4 + c] as int
    }
}

/// Sum of channel `c` over the block of `nx` x `ny` pixels at `(x0, y0)`.
pub open spec fn bsum(s: Seq<u8>, w: int, x0: int, y0: int, nx: nat, ny: nat, c: int) -> int
    decreases ny,
{
    if ny == 0 {
        0
    } else {
        bsum(s, w, x0, y0, nx, (ny - 1) as nat, c) + rsum(s, w, y0 + ny - 1, x0, nx, c)
    }
}

proof fn lemma_rsum_bounds(s: Seq<u8>, w: int, y: int, x0: int, n: nat, c: int)
    ensures
        0 <= rsum(s, w, y, x0, n, c) <= 255 * n,
    decreases n,
{
    if n > 0 {
        lemma_rsum_bounds(s, w, y, x0, (n - 1) as nat, c);
    }
}

proof fn lemma_bsum_bounds(s: Seq<u8>, w: int, x0: int, y0: int, nx: nat, ny: nat, c: int)
    ensures
        0 <= bsum(s, w, x0, y0, nx, ny, c) <= 255 * nx * ny,
    decreases ny,
{
    if ny > 0 {
        lemma_bsum_bounds(s, w, x0, y0, nx, (ny - 1) as nat, c);
        lemma_rsum_bounds(s, w, y0 + ny - 1, x0, nx, c);
        assert(255 * nx * (ny - 1) + 255 * nx == 255 * nx * ny) by (nonlinear_arith);
    }
}

/// Two images that agree on a row segment have the same sums over it.
proof fn lemma_rsum_same(s: Seq<u8>, u: Seq<u8>, w: int, y: int, x0: int, n: nat, c: int)
    requires
        forall|x: int| x0 <= x < x0 + n ==> #[trigger] s[(y * w + x) * 4 + c] == u[(y * w + x) * 4 + c],
    ensures
        rsum(s, w, y, x0, n, c) == rsum(u, w, y, x0, n, c),
    decreases n,
{
    if n > 0 {
        lemma_rsum_same(s, u, w, y, x0, (n - 1) as nat, c);
        assert(s[(y * w + (x0 + n - 1)) * 4 + c] == u[(y * w + (x0 + n - 1)) * 4 + c]);
    }
}

proof fn lemma_bsum_same(s: Seq<u8>, u: Seq<u8>, w: int, x0: int, y0: int, nx: nat, ny: nat, c: int)
    requires
        forall|x: int, y: int|
            x0 <= x < x0 + nx && y0 <= y < y0 + ny ==> #[trigger] s[(y * w + x) * 4 + c] == u[(y * w + x) * 4 + c],
    ensures
        bsum(s, w, x0, y0, nx, ny, c) == bsum(u, w, x0, y0, nx, ny, c),
    decreases ny,
{
    if ny > 0 {
        lemma_bsum_same(s, u, w, x0, y0, nx, (ny - 1) as nat, c);
        let y = y0 + ny - 1;
        assert forall|x: int| x0 <= x < x0 + nx implies #[trigger] s[(y * w + x) * 4 + c] == u[(y * w + x) * 4 + c] by {
            assert(s[(y * w + x) * 4 + c] == u[(y * w + x) * 4 + c]);
        }
        lemma_rsum_same(s, u, w, y, x0, nx, c);
    }
}

/// The first pixel of the block of size `k` that `v` falls in, blocks
/// counted from `lo`.
pub open spec fn block_start(v: int, lo: int, k: int) -> int {
    lo + ((v - lo) / k) * k
}

/// The pixelated box: each pixel takes the mean (rounded down) of its
/// block of `block` x `block` pixels (cut at the box's edge), blocks laid
/// from the box's top-left corner.
pub open spec fn pixelated_value(orig: Seq<u8>, w: int, h: int, rect: RectPx, block: int) -> spec_fn(int, int, int) -> u8 {
    |x: int, y: int, c: int|
        match clamped_box(w, h, rect) {
            None => 0u8,
            Some((l, t, r, b)) => {
                let k = spec_max(block, 1);
                let x0 = block_start(x, l, k);
                let y0 = block_start(y, t, k);
                let x1 = crate::geometry::spec_min(x0 + k, r);
                let y1 = crate::geometry::spec_min(y0 + k, b);
                (bsum(orig, w, x0, y0, (x1 - x0) as nat, (y1 - y0) as nat, c) / ((x1 - x0) * (y1 - y0))) as u8
            },
        }
}

/// The last block of a side of length `n > 0` from `lo` ends within the
/// 32-bit range (the next block start is computed before it is compared).
pub open spec fn blocks_fit(lo: int, hi: int, k: int) -> bool {
    block_start(hi - 1, lo, k) + k <= i32::MAX
}

/// Sums each channel over a block of the image.
fn block_sums(image: &Raster, x0: i32, y0: i32, x1: i32, y1: i32) -> (sums: (u64, u64, u64, u64))
    requires
        raster_wf(*image),
        image.width * image.height * 255 <= u64::MAX,
        0 <= x0 < x1 <= image.width,
        0 <= y0 < y1 <= image.height,
    ensures
        sums.0 == bsum(image.pixels@, image.width as int, x0 as int, y0 as int, (x1 - x0) as nat, (y1 - y0) as nat, 0),
        sums.1 == bsum(image.pixels@, image.width as int, x0 as int, y0 as int, (x1 - x0) as nat, (y1 - y0) as nat, 1),
        sums.2 == bsum(image.pixels@, image.width as int, x0 as int, y0 as int, (x1 - x0) as nat, (y1 - y0) as nat, 2),
        sums.3 == bsum(image.pixels@, image.width as int, x0 as int, y0 as int, (x1 - x0) as nat, (y1 - y0) as nat, 3),
{
    let ghost px = image.pixels@;
    let ghost w = image.width as int;
    let ghost h = image.height as int;
    let n = image.pixels.len();
    let wu = image.width as usize;
    let (mut s0, mut s1, mut s2, mut s3): (u64, u64, u64, u64) = (0, 0, 0, 0);
    let mut y = y0;
    while y < y1
        invariant
            raster_wf(*image),
            px == image.pixels@,
            n == px.len(),
            w == image.width,
            h == image.height,
            wu == w,
            w * h * 255 <= u64::MAX,
            0 <= x0 < x1 <= w,
            0 <= y0 <= y <= y1 <= h,
            s0 == bsum(px, w, x0 as int, y0 as int, (x1 - x0) as nat, (y - y0) as nat, 0),
            s1 == bsum(px, w, x0 as int, y0 as int, (x1 - x0) as nat, (y - y0) as nat, 1),
            s2 == bsum(px, w, x0 as int, y0 as int, (x1 - x0) as nat, (y - y0) as nat, 2),
            s3 == bsum(px, w, x0 as int, y0 as int, (x1 - x0) as nat, (y - y0) as nat, 3),
        decreases y1 - y,
    {
        let ghost ny = (y - y0) as nat;
        let ghost nx = (x1 - x0) as nat;
        proof {
            lemma_bsum_bounds(px, w, x0 as int, y0 as int, nx, ny, 0);
            lemma_bsum_bounds(px, w, x0 as int, y0 as int, nx, ny, 1);
            lemma_bsum_bounds(px, w, x0 as int, y0 as int, nx, ny, 2);
            lemma_bsum_bounds(px, w, x0 as int, y0 as int, nx, ny, 3);
        }
        let (mut r0, mut r1, mut r2, mut r3): (u64, u64, u64, u64) = (s0, s1, s2, s3);
        let mut x = x0;
        while x < x1
            invariant
                raster_wf(*image),
                px == image.pixels@,
                n == px.len(),
                w == image.width,
                h == image.height,
                wu == w,
                w * h * 255 <= u64::MAX,
                0 <= x0 <= x <= x1 <= w,
                0 <= y0 <= y < y1 <= h,
                ny == y - y0,
                nx == x1 - x0,
                0 <= s0 <= 255 * nx * ny,
                0 <= s1 <= 255 * nx * ny,
                0 <= s2 <= 255 * nx * ny,
                0 <= s3 <= 255 * nx * ny,
                r0 == s0 + rsum(px, w, y as int, x0 as int, (x - x0) as nat, 0),
                r1 == s1 + rsum(px, w, y as int, x0 as int, (x - x0) as nat, 1),
                r2 == s2 + rsum(px, w, y as int, x0 as int, (x - x0) as nat, 2),
                r3 == s3 + rsum(px, w, y as int, x0 as int, (x - x0) as nat, 3),
            decreases x1 - x,
        {
            proof {
                lemma_pixel_index(y as int, x as int, w, h);
                lemma_rsum_bounds(px, w, y as int, x0 as int, (x - x0) as nat, 0);
                lemma_rsum_bounds(px, w, y as int, x0 as int, (x - x0) as nat, 1);
                lemma_rsum_bounds(px, w, y as int, x0 as int, (x - x0) as nat, 2);
                lemma_rsum_bounds(px, w, y as int, x0 as int, (x - x0) as nat, 3);
                assert(255 * nx * ny + 255 * (x - x0 + 1) <= w * h * 255) by (nonlinear_arith)
                    requires
                        nx <= w,
                        ny + 1 <= h,
                        x - x0 + 1 <= nx,
                        0 <= ny,
                ;
            }
            let base = ((y as usize) * wu + (x as usize)) * 4;
            r0 = r0 + image.pixels[base] as u64;
            r1 = r1 + image.pixels[base + 1] as u64;
            r2 = r2 + image.pixels[base + 2] as u64;
            r3 = r3 + image.pixels[base + 3] as u64;
            x = x + 1;
        }
        s0 = r0;
        s1 = r1;
        s2 = r2;
        s3 = r3;
        y = y + 1;
    }
    (s0, s1, s2, s3)
}

/// Paints every pixel of a block with one colour.
fn fill_block(image: &mut Raster, x0: i32, y0: i32, x1: i32, y1: i32, px: [u8; 4])
    requires
        raster_wf(*old(image)),
        0 <= x0 <= x1 <= old(image).width,
        0 <= y0 <= y1 <= old(image).height,
        old(image).width <= i32::MAX,
        old(image).height <= i32::MAX,
    ensures
        final(image).width == old(image).width,
        final(image).height == old(image).height,
        raster_wf(*final(image)),
        pixels_follow(
            final(image).pixels@,
            old(image).pixels@,
            old(image).width as int,
            old(image).height as int,
            |x: int, y: int| x0 <= x < x1 && y0 <= y < y1,
            px,
        ),
{
    let ghost orig = image.pixels@;
    let ghost w = image.width as int;
    let ghost h = image.height as int;
    let mut y = y0;
    while y < y1
        invariant
            raster_wf(*image),
            image.width == w,
            image.height == h,
            w <= i32::MAX,
            h <= i32::MAX,
            0 <= x0 <= x1 <= w,
            0 <= y0 <= y <= y1 <= h,
            pixels_follow(image.pixels@, orig, w, h, |xx: int, yy: int| x0 <= xx < x1 && y0 <= yy < y, px),
        decreases y1 - y,
    {
        let mut x = x0;
        while x < x1
            invariant
                raster_wf(*image),
                image.width == w,
                image.height == h,
                w <= i32::MAX,
                h <= i32::MAX,
                0 <= x0 <= x <= x1 <= w,
                0 <= y0 <= y < y1 <= h,
                pixels_follow(
                    image.pixels@,
                    orig,
                    w,
                    h,
                    |xx: int, yy: int| x0 <= xx < x1 && (y0 <= yy < y || (yy == y && xx < x)),
                    px,
                ),
            decreases x1 - x,
        {
            let ghost before = image.pixels@;
            put_pixel(image, x as u32, y as u32, px);
            proof {
                assert forall|yy: int, xx: int, c: int|
                    0 <= yy < h && 0 <= xx < w && 0 <= c < 4 implies #[trigger] image.pixels@[(yy * w + xx) * 4 + c] == if x0
                        <= xx < x1 && (y0 <= yy < y || (yy == y && xx < x + 1)) {
                        px@[c]
                    } else {
                        orig[(yy * w + xx) * 4 + c]
                    } by {
                    assert(before[(yy * w + xx) * 4 + c] == if x0 <= xx < x1 && (y0 <= yy < y || (yy == y && xx < x)) {
                        px@[c]
                    } else {
                        orig[(yy * w + xx) * 4 + c]
                    });
                }
            }
            x = x + 1;
        }
        y = y + 1;
    }
}

proof fn lemma_block_start(v: int, lo: int, k: int, m: int)
    requires
        k >= 1,
        0 <= m,
        lo + m * k <= v < lo + m * k + k,
    ensures
        block_start(v, lo, k) == lo + m * k,
{
    assert((v - lo) / k == m) by (nonlinear_arith)
        requires
            k >= 1,
            0 <= m,
            m * k <= v - lo < m * k + k,
    ;
}

/// A block start at or before `v` is at or before the start of `v`'s block.
proof fn lemma_aligned_le(v: int, lo: int, k: int, m: int)
    requires
        k >= 1,
        0 <= m,
        lo + m * k <= v,
    ensures
        lo + m * k <= block_start(v, lo, k),
        block_start(v, lo, k) <= v,
{
    vstd::arithmetic::div_mod::lemma_fundamental_div_mod(v - lo, k);
    vstd::arithmetic::div_mod::lemma_mod_pos_bound(v - lo, k);
    let q = (v - lo) / k;
    let rem = (v - lo) % k;
    assert(m * k <= q * k) by (nonlinear_arith)
        requires
            v - lo == k * q + rem,
            0 <= rem < k,
            m * k <= v - lo,
            k >= 1,
            m >= 0,
    ;
    assert(q * k == k * q) by (nonlinear_arith);
}

/// Replaces each block of `block` x `block` pixels of `rect` (clamped onto
/// the image, blocks cut at its edge) by the block's mean colour.
pub fn draw_pixelate_raster(image: &mut Raster, rect: RectPx, block: i32)
    requires
        raster_wf(*old(image)),
        old(image).width * old(image).height * 255 <= u64::MAX,
        match clamped_box((old(image).width as i32) as int, (old(image).height as i32) as int, rect) {
            None => true,
            Some((l, t, r, b)) => blocks_fit(l, r, spec_max(block as int, 1)) && blocks_fit(t, b, spec_max(block as int, 1)),
        },
    ensures
        final(image).width == old(image).width,
        final(image).height == old(image).height,
        pixels_map(
            final(image).pixels@,
            old(image).pixels@,
            old(image).width as int,
            old(image).height as int,
            box_pixels((old(image).width as i32) as int, (old(image).height as i32) as int, rect),
            pixelated_value(old(image).pixels@, old(image).width as int, old(image).height as int, rect, block as int),
        ),
{
    let ghost orig = image.pixels@;
    let ghost w0 = image.width as int;
    let ghost h0 = image.height as int;
    let iw = image.width;
    let ih = image.height;
    let width = #[verifier::truncate] (iw as i32);
    let height = #[verifier::truncate] (ih as i32);
    let ghost value = pixelated_value(orig, w0, h0, rect, block as int);
    if width <= 0 || height <= 0 {
        assert(pixels_map(image.pixels@, orig, w0, h0, box_pixels(width as int, height as int, rect), value));
        return;
    }
    assert(width == iw && height == ih) by {
        assert(0 < width ==> width as int == iw as int) by (bit_vector)
            requires
                width == iw as i32,
        ;
        assert(0 < height ==> height as int == ih as int) by (bit_vector)
            requires
                height == ih as i32,
        ;
    }
    let left = clamp_i32(rect.left, 0, width);
    let top = clamp_i32(rect.top, 0, height);
    let right = clamp_i32(rect.right, 0, width);
    let bottom = clamp_i32(rect.bottom, 0, height);
    if right <= left || bottom <= top {
        assert(pixels_map(image.pixels@, orig, w0, h0, box_pixels(width as int, height as int, rect), value));
        return;
    }
    let ghost (l, t, r, b) = (left as int, top as int, right as int, bottom as int);
    let ghost changed = box_pixels(width as int, height as int, rect);
    assert(clamped_box(width as int, height as int, rect) == Some((l, t, r, b)));
    assert(clamped_box(w0, h0, rect) == Some((l, t, r, b)));
    let k = max_i32(block, 1);
    let mut by = top;
    let ghost mut my: int = 0;
    while by < bottom
        invariant
            raster_wf(*image),
            image.width == w0,
            image.height == h0,
            w0 <= i32::MAX,
            h0 <= i32::MAX,
            w0 * h0 * 255 <= u64::MAX,
            0 <= l < r <= w0,
            0 <= t < b <= h0,
            left == l && top == t && right == r && bottom == b,
            k >= 1,
            k == spec_max(block as int, 1),
            blocks_fit(l, r, k as int),
            blocks_fit(t, b, k as int),
            my >= 0,
            by == t + my * k,
            t <= by,
            forall|x: int, y: int| #[trigger] changed(x, y) == (l <= x < r && t <= y < b),
            value == pixelated_value(orig, w0, h0, rect, block as int),
            clamped_box(w0, h0, rect) == Some((l, t, r, b)),
            pixels_map(image.pixels@, orig, w0, h0, |x: int, y: int| changed(x, y) && y < by, value),
        decreases b + k - by,
    {
        proof {
            lemma_aligned_le((b - 1) as int, t, k as int, my);
        }
        let y1 = crate::geometry::min_i32(by + k, bottom);
        let mut bx = left;
        let ghost mut mx: int = 0;
        while bx < right
            invariant
                raster_wf(*image),
                image.width == w0,
                image.height == h0,
                w0 <= i32::MAX,
                h0 <= i32::MAX,
                w0 * h0 * 255 <= u64::MAX,
                0 <= l < r <= w0,
                0 <= t < b <= h0,
                left == l && top == t && right == r && bottom == b,
                k >= 1,
                k == spec_max(block as int, 1),
                blocks_fit(l, r, k as int),
                blocks_fit(t, b, k as int),
                my >= 0,
                by == t + my * k,
                t <= by < b,
                y1 == crate::geometry::spec_min(by + k, b),
                mx >= 0,
                bx == l + mx * k,
                l <= bx,
                forall|x: int, y: int| #[trigger] changed(x, y) == (l <= x < r && t <= y < b),
                value == pixelated_value(orig, w0, h0, rect, block as int),
                clamped_box(w0, h0, rect) == Some((l, t, r, b)),
                pixels_map(
                    image.pixels@,
                    orig,
                    w0,
                    h0,
                    |x: int, y: int| changed(x, y) && (y < by || (y < y1 && x < bx)),
                    value,
                ),
            decreases r + k - bx,
        {
            proof {
                lemma_aligned_le((r - 1) as int, l, k as int, mx);
            }
            let x1 = crate::geometry::min_i32(bx + k, right);
            let ghost before = image.pixels@;
            let (s0, s1, s2, s3) = block_sums(image, bx, by, x1, y1);
            proof {
                assert((x1 - bx) * (y1 - by) <= w0 * h0) by (nonlinear_arith)
                    requires
                        0 < x1 - bx <= w0,
                        0 < y1 - by <= h0,
                ;
            }
            let count = ((x1 - bx) as u64) * ((y1 - by) as u64);
            let ghost nx = (x1 - bx) as nat;
            let ghost ny = (y1 - by) as nat;
            proof {
                assert(count as int == nx * ny) by (nonlinear_arith)
                    requires
                        count == (x1 - bx) * (y1 - by),
                        nx == x1 - bx,
                        ny == y1 - by,
                ;
                assert(count >= 1) by (nonlinear_arith)
                    requires
                        count as int == nx * ny,
                        nx >= 1,
                        ny >= 1,
                ;
                assert forall|c: int| 0 <= c < 4 implies bsum(before, w0, bx as int, by as int, nx, ny, c) == bsum(orig, w0, bx as int, by as int, nx, ny, c) by {
                    assert forall|x: int, y: int|
                        bx <= x < bx + nx && by <= y < by + ny implies #[trigger] before[(y * w0 + x) * 4 + c] == orig[(y * w0 + x) * 4 + c] by {
                        assert(before[(y * w0 + x) * 4 + c] == if changed(x, y) && (y < by || (y < y1 && x < bx)) {
                            value(x, y, c)
                        } else {
                            orig[(y * w0 + x) * 4 + c]
                        });
                    }
                    lemma_bsum_same(before, orig, w0, bx as int, by as int, nx, ny, c);
                }
                lemma_bsum_bounds(orig, w0, bx as int, by as int, nx, ny, 0);
                lemma_bsum_bounds(orig, w0, bx as int, by as int, nx, ny, 1);
                lemma_bsum_bounds(orig, w0, bx as int, by as int, nx, ny, 2);
                lemma_bsum_bounds(orig, w0, bx as int, by as int, nx, ny, 3);
                assert forall|s: int| 0 <= s <= 255 * nx * ny implies #[trigger] (s / ((nx * ny) as int)) <= 255 by {
                    assert(s / ((nx * ny) as int) <= 255) by (nonlinear_arith)
                        requires
                            0 <= s <= 255 * nx * ny,
                            nx * ny >= 1,
                    ;
                }
            }
            let avg = [(s0 / count) as u8, (s1 / count) as u8, (s2 / count) as u8, (s3 / count) as u8];
            proof {
                assert forall|c: int| 0 <= c < 4 implies #[trigger] avg@[c] == (bsum(orig, w0, bx as int, by as int, nx, ny, c) / ((nx * ny) as int)) as u8 by {
                    if c == 0 {
                    } else if c == 1 {
                    } else if c == 2 {
                    } else {
                    }
                }
            }
            fill_block(image, bx, by, x1, y1, avg);
            proof {
                assert forall|yy: int, xx: int, c: int|
                    0 <= yy < h0 && 0 <= xx < w0 && 0 <= c < 4 implies #[trigger] image.pixels@[(yy * w0 + xx) * 4 + c] == if changed(
                        xx,
                        yy,
                    ) && (yy < by || (yy < y1 && xx < bx + k)) {
                        value(xx, yy, c)
                    } else {
                        orig[(yy * w0 + xx) * 4 + c]
                    } by {
                    if bx <= xx < x1 && by <= yy < y1 {
                        lemma_block_start(xx, l, k as int, mx);
                        lemma_block_start(yy, t, k as int, my);
                        assert(block_start(xx, l, k as int) == bx);
                        assert(block_start(yy, t, k as int) == by);
                        assert(changed(xx, yy));
                        assert(value(xx, yy, c) == (bsum(orig, w0, bx as int, by as int, nx, ny, c) / ((nx * ny) as int)) as u8);
                        assert(image.pixels@[(yy * w0 + xx) * 4 + c] == avg@[c]);
                        assert(avg@[c] == (bsum(orig, w0, bx as int, by as int, nx, ny, c) / ((nx * ny) as int)) as u8);
                    } else {
                        assert(image.pixels@[(yy * w0 + xx) * 4 + c] == before[(yy * w0 + xx) * 4 + c]);
                        assert(before[(yy * w0 + xx) * 4 + c] == if changed(xx, yy) && (yy < by || (yy < y1 && xx < bx)) {
                            value(xx, yy, c)
                        } else {
                            orig[(yy * w0 + xx) * 4 + c]
                        });
                    }
                }
            }
            bx = bx + k;
            proof {
                mx = mx + 1;
                assert(l + (mx - 1) * k + k == l + mx * k) by (nonlinear_arith);
            }
        }
        by = by + k;
        proof {
            my = my + 1;
            assert(t + (my - 1) * k + k == t + my * k) by (nonlinear_arith);
        }
    }
}

} // verus!
