//! The picture of the selection the editor paints under its annotations:
//! taken from the frozen desktop, from a fresh capture, or from the copy the
//! selection overlay already made.
use vstd::prelude::*;
use crate::geometry::{clamp_i32, max_i32, spec_clamp, spec_max, RectPx};
use crate::overlay::{copy_rows, rgba_to_bgra, spec_rgba_to_bgra, PrecomputedSelectionSnapshot};
use crate::raster::{
    blocks_fit, blur_buffer_4ch, blur_value, block_of, block_start, draw_pixelate_raster, lemma_block_copied_is_block,
    pixelated_value, CaptureFrame, Raster,
};

verus! {

/// The selection as opaque BGRA rows of `width` pixels.
pub struct SelectionSnapshot {
    pub width: i32,
    pub height: i32,
    pub bgra_pixels: Vec<u8>,
}

/// The frozen desktop the editor was opened over: its rectangle and its
/// RGBA rows of `width` pixels.
pub struct FrozenDesktopRef<'a> {
    pub bounds: RectPx,
    pub width: i32,
    pub height: i32,
    pub rgba: &'a Vec<u8>,
}

/// A snapshot taken from a captured frame, when its size fits `i32` and is
/// not empty.
pub fn selection_snapshot_from_capture_frame(frame: &CaptureFrame) -> (r: Option<SelectionSnapshot>)
    ensures
        r is Some <==> (0 < frame.image.width <= i32::MAX && 0 < frame.image.height <= i32::MAX),
        r matches Some(s) ==> {
            &&& s.width == frame.image.width
            &&& s.height == frame.image.height
            &&& s.bgra_pixels@ == spec_rgba_to_bgra(frame.image.pixels@)
            &&& frame.image.pixels@.len() == frame.image.width * frame.image.height * 4 ==> snapshot_wf(s)
        },
{
    if frame.image.width > 0x7fff_ffff || frame.image.height > 0x7fff_ffff {
        return None;
    }
    let width = frame.image.width as i32;
    let height = frame.image.height as i32;
    if width <= 0 || height <= 0 {
        return None;
    }
    let bgra_pixels = rgba_to_bgra(&frame.image.pixels);
    proof {
        let n = frame.image.pixels@.len();
        if n == frame.image.width * frame.image.height * 4 {
            assert(n / 4 * 4 == n) by (nonlinear_arith)
                requires
                    n == frame.image.width * frame.image.height * 4,
            ;
        }
    }
    Some(SelectionSnapshot { width, height, bgra_pixels })
}

/// The overlay's copy, taken over when its buffer holds exactly its
/// `width * height` pixels.
pub fn selection_snapshot_from_precomputed(snapshot: PrecomputedSelectionSnapshot) -> (r: Option<SelectionSnapshot>)
    ensures
        r is Some <==> (0 < snapshot.width && 0 < snapshot.height
            && snapshot.bgra_pixels@.len() == snapshot.width * snapshot.height * 4),
        r matches Some(s) ==> {
            &&& s.width == snapshot.width
            &&& s.height == snapshot.height
            &&& s.bgra_pixels@ == snapshot.bgra_pixels@
            &&& snapshot_wf(s)
        },
{
    if snapshot.width <= 0 || snapshot.height <= 0 {
        return None;
    }
    let w = snapshot.width as u64;
    let h = snapshot.height as u64;
    assert(w * h * 4 < 0x1_0000_0000_0000_0000) by (nonlinear_arith)
        requires
            w <= 0x7fff_ffff,
            h <= 0x7fff_ffff,
    ;
    if snapshot.bgra_pixels.len() as u64 != w * h * 4 {
        return None;
    }
    Some(SelectionSnapshot { width: snapshot.width, height: snapshot.height, bgra_pixels: snapshot.bgra_pixels })
}

/// A reference to a captured frame as the frozen desktop, when its size fits
/// `i32`, is not empty and its buffer holds exactly its pixels.
pub fn frozen_desktop_ref_from_capture_frame<'a>(frame: &'a CaptureFrame) -> (r: Option<FrozenDesktopRef<'a>>)
    ensures
        r is Some <==> (0 < frame.image.width <= i32::MAX && 0 < frame.image.height <= i32::MAX
            && frame.image.pixels@.len() == frame.image.width * frame.image.height * 4),
        r matches Some(f) ==> {
            &&& f.bounds == frame.bounds
            &&& f.width == frame.image.width
            &&& f.height == frame.image.height
            &&& f.rgba@ == frame.image.pixels@
        },
{
    if frame.image.width > 0x7fff_ffff || frame.image.height > 0x7fff_ffff {
        return None;
    }
    let width = frame.image.width as i32;
    let height = frame.image.height as i32;
    if width <= 0 || height <= 0 {
        return None;
    }
    let w = frame.image.width as u64;
    let h = frame.image.height as u64;
    assert(w * h * 4 < 0x1_0000_0000_0000_0000) by (nonlinear_arith)
        requires
            w <= 0x7fff_ffff,
            h <= 0x7fff_ffff,
    ;
    if frame.image.pixels.len() as u64 != w * h * 4 {
        return None;
    }
    Some(FrozenDesktopRef { bounds: frame.bounds, width, height, rgba: &frame.image.pixels })
}

/// The selection lies inside the frozen desktop's rectangle.
pub open spec fn selection_inside(selection: RectPx, bounds: RectPx) -> bool {
    &&& bounds.left <= selection.left
    &&& bounds.top <= selection.top
    &&& selection.right <= bounds.right
    &&& selection.bottom <= bounds.bottom
}

/// Whether the frozen desktop yields a snapshot of the selection: the
/// selection lies inside it, is not empty, and the buffer holds at least
/// `width * height` pixels.
pub open spec fn frozen_snapshot_taken(selection: RectPx, frozen: FrozenDesktopRef) -> bool {
    &&& selection_inside(selection, frozen.bounds)
    &&& selection.right - selection.left > 0
    &&& selection.bottom - selection.top > 0
    &&& frozen.rgba@.len() >= frozen.width * frozen.height * 4
}

/// The reads a snapshot makes stay inside the buffer: the selection's size
/// and its offset in the frozen desktop fit `i32`, and the last byte of the selection's last row (rows of
/// `width * 4` bytes) lies in the buffer.
pub open spec fn frozen_reads_fit(selection: RectPx, frozen: FrozenDesktopRef) -> bool {
    let w = selection.right - selection.left;
    let h = selection.bottom - selection.top;
    let sl = selection.left - frozen.bounds.left;
    let st = selection.top - frozen.bounds.top;
    &&& 0 <= frozen.width
    &&& 0 <= frozen.height
    &&& selection_inside(selection, frozen.bounds) ==> {
        &&& i32::MIN <= w <= i32::MAX
        &&& i32::MIN <= h <= i32::MAX
        &&& sl <= i32::MAX
        &&& st <= i32::MAX
        &&& frozen_snapshot_taken(selection, frozen) ==> (st + h - 1) * (frozen.width * 4) + sl * 4 + w * 4
            <= frozen.rgba@.len()
    }
}

/// Pixel `(r, c)` of the snapshot is the frozen desktop's pixel under it,
/// red and blue swapped and alpha opaque.
pub open spec fn snapshot_pixel_ok(src: Seq<u8>, out: Seq<u8>, stride: int, sl: int, st: int, w: int, r: int, c: int) -> bool {
    let o = (st + r) * stride + sl * 4 + c * 4;
    let p = (r * w + c) * 4;
    &&& out[p] == src[o + 2]
    &&& out[p + 1] == src[o + 1]
    &&& out[p + 2] == src[o]
    &&& out[p + 3] == 255u8
}

/// The snapshot of `h` rows of `w` pixels read from `src` at pixel column
/// `sl` of row `st`, rows `stride` bytes apart.
pub open spec fn snapshot_copied(src: Seq<u8>, out: Seq<u8>, stride: int, sl: int, st: int, w: int, h: int) -> bool {
    &&& out.len() == h * w * 4
    &&& forall|r: int, c: int| 0 <= r < h && 0 <= c < w ==> #[trigger] snapshot_pixel_ok(src, out, stride, sl, st, w, r, c)
}

proof fn lemma_pixel_slots(rr: int, cc: int, r: int, c: int, w: int)
    requires
        0 <= rr,
        0 <= cc < w,
        rr * w + cc < r * w + c,
    ensures
        (rr * w + cc) * 4 + 3 < (r * w + c) * 4,
        0 <= (rr * w + cc) * 4,
{
    assert(0 <= rr * w) by (nonlinear_arith)
        requires
            0 <= rr,
            0 <= w,
    ;
}

proof fn lemma_read_index(st: int, r: int, h: int, stride: int, sl: int, c: int, w: int)
    requires
        0 <= st,
        0 <= r < h,
        0 <= sl,
        0 <= c < w,
        0 <= stride,
    ensures
        0 <= (st + r) * stride,
        (st + r) * stride + sl * 4 + c * 4 + 4 <= (st + h - 1) * stride + sl * 4 + w * 4,
{
    assert(0 <= (st + r) * stride) by (nonlinear_arith)
        requires
            0 <= st + r,
            0 <= stride,
    ;
    assert((st + r) * stride <= (st + h - 1) * stride) by (nonlinear_arith)
        requires
            r <= h - 1,
            0 <= stride,
    ;
}

/// The selection's pixels read from the frozen desktop, `None` when the
/// selection leaves it, is empty, or the buffer is short.
pub fn selection_snapshot_from_frozen(selection: RectPx, frozen: &FrozenDesktopRef) -> (r: Option<SelectionSnapshot>)
    requires
        frozen_reads_fit(selection, *frozen),
    ensures
        r is Some <==> frozen_snapshot_taken(selection, *frozen),
        r matches Some(s) ==> {
            &&& s.width == selection.right - selection.left
            &&& s.height == selection.bottom - selection.top
            &&& snapshot_copied(
                frozen.rgba@,
                s.bgra_pixels@,
                frozen.width * 4,
                selection.left - frozen.bounds.left,
                selection.top - frozen.bounds.top,
                s.width as int,
                s.height as int,
            )
            &&& snapshot_wf(s)
        },
{
    if selection.left < frozen.bounds.left || selection.top < frozen.bounds.top || selection.right > frozen.bounds.right
        || selection.bottom > frozen.bounds.bottom {
        return None;
    }
    let width = selection.width();
    let height = selection.height();
    if width <= 0 || height <= 0 {
        return None;
    }
    let fw = frozen.width as u64;
    let fh = frozen.height as u64;
    assert(fw * fh * 4 < 0x1_0000_0000_0000_0000) by (nonlinear_arith)
        requires
            fw <= 0x7fff_ffff,
            fh <= 0x7fff_ffff,
    ;
    if (frozen.rgba.len() as u64) < fw * fh * 4 {
        return None;
    }
    let ghost src = frozen.rgba@;
    let total = frozen.rgba.len();
    let ghost len = src.len() as int;
    let stride = frozen.width as u64 * 4;
    let sl = (selection.left - frozen.bounds.left) as u64;
    let st = (selection.top - frozen.bounds.top) as u64;
    let w = width as u64;
    let h = height as u64;
    assert((st + h - 1) * stride + sl * 4 + w * 4 <= len);
    let mut out: Vec<u8> = Vec::new();
    let mut r: u64 = 0;
    while r < h
        invariant
            src == frozen.rgba@,
            len == src.len(),
            len == total,
            st <= 0x7fff_ffff && sl <= 0x7fff_ffff && h <= 0x7fff_ffff && w <= 0x7fff_ffff,
            (st + h - 1) * stride + sl * 4 + w * 4 <= len,
            0 < w,
            r <= h,
            out@.len() == (r * w) * 4,
            forall|rr: int, cc: int|
                0 <= rr < r && 0 <= cc < w ==> #[trigger] snapshot_pixel_ok(src, out@, stride as int, sl as int, st as int, w as int, rr, cc),
        decreases h - r,
    {
        let mut c: u64 = 0;
        while c < w
            invariant
                src == frozen.rgba@,
                len == src.len(),
            len == total,
            st <= 0x7fff_ffff && sl <= 0x7fff_ffff && h <= 0x7fff_ffff && w <= 0x7fff_ffff,
                (st + h - 1) * stride + sl * 4 + w * 4 <= len,
                r < h,
                c <= w,
                out@.len() == (r * w + c) * 4,
                forall|rr: int, cc: int|
                    0 <= rr < r && 0 <= cc < w ==> #[trigger] snapshot_pixel_ok(src, out@, stride as int, sl as int, st as int, w as int, rr, cc),
                forall|cc: int| 0 <= cc < c ==> #[trigger] snapshot_pixel_ok(src, out@, stride as int, sl as int, st as int, w as int, r as int, cc),
            decreases w - c,
        {
            proof {
                lemma_read_index(st as int, r as int, h as int, stride as int, sl as int, c as int, w as int);
            }
            let row = st + r;
            let row_start = row * stride;
            let o = (row_start + sl * 4 + c * 4) as usize;
            let ghost before = out@;
            out.push(frozen.rgba[o + 2]);
            out.push(frozen.rgba[o + 1]);
            out.push(frozen.rgba[o]);
            out.push(255u8);
            proof {
                assert((r * w + c) * 4 + 4 == (r * w + c + 1) * 4);
                assert forall|rr: int, cc: int|
                    0 <= rr < r && 0 <= cc < w implies #[trigger] snapshot_pixel_ok(src, out@, stride as int, sl as int, st as int, w as int, rr, cc) by {
                    assert(rr * w + cc < r * w + c) by (nonlinear_arith)
                        requires
                            rr < r,
                            cc < w,
                            0 <= c,
                    ;
                    lemma_pixel_slots(rr, cc, r as int, c as int, w as int);
                    assert(snapshot_pixel_ok(src, before, stride as int, sl as int, st as int, w as int, rr, cc));
                }
                assert forall|cc: int| 0 <= cc < c + 1 implies #[trigger] snapshot_pixel_ok(src, out@, stride as int, sl as int, st as int, w as int, r as int, cc) by {
                    if cc < c {
                        lemma_pixel_slots(r as int, cc, r as int, c as int, w as int);
                        assert(snapshot_pixel_ok(src, before, stride as int, sl as int, st as int, w as int, r as int, cc));
                    }
                }
            }
            c = c + 1;
        }
        proof {
            assert((r * w + w) * 4 == ((r + 1) * w) * 4) by (nonlinear_arith);
        }
        r = r + 1;
    }
    assert((h * w) * 4 == h * w * 4) by (nonlinear_arith);
    assert(h * w * 4 == w * h * 4) by (nonlinear_arith);
    Some(SelectionSnapshot { width, height, bgra_pixels: out })
}

/// The snapshot's buffer holds exactly its `width * height` pixels.
pub open spec fn snapshot_wf(s: SelectionSnapshot) -> bool {
    &&& 0 < s.width
    &&& 0 < s.height
    &&& s.bgra_pixels@.len() == s.width * s.height * 4
}

/// Sizes no machine holds are left out: a side of at most 2^30 pixels and
/// per-channel sums of all pixels within 64 bits.
pub open spec fn snapshot_size_ok(s: SelectionSnapshot) -> bool {
    &&& s.width <= 0x4000_0000
    &&& s.height <= 0x4000_0000
    &&& s.width * s.height * 255 <= u64::MAX
}

/// The part of the selection an effect box covers, where the editor paints
/// it: the box clamped onto the selection (desktop pixels), then onto the
/// snapshot relative to the selection's corner; `(left, top, sl, st, w, h)`
/// with `(left, top)` the patch's desktop corner, `(sl, st)` its first
/// snapshot pixel and `w x h` its size.
pub open spec fn overlay_region(sw: int, sh: int, selection: RectPx, rect: RectPx) -> Option<(int, int, int, int, int, int)> {
    let left = spec_clamp(rect.left as int, selection.left as int, selection.right as int);
    let top = spec_clamp(rect.top as int, selection.top as int, selection.bottom as int);
    let right = spec_clamp(rect.right as int, selection.left as int, selection.right as int);
    let bottom = spec_clamp(rect.bottom as int, selection.top as int, selection.bottom as int);
    if right <= left || bottom <= top {
        None
    } else {
        let sl = spec_clamp(left - selection.left, 0, sw);
        let st = spec_clamp(top - selection.top, 0, sh);
        let sr = spec_clamp(right - selection.left, 0, sw);
        let sb = spec_clamp(bottom - selection.top, 0, sh);
        if sr - sl <= 0 || sb - st <= 0 {
            None
        } else {
            Some((left, top, sl, st, sr - sl, sb - st))
        }
    }
}

/// What the editor may hand an effect: a normalised selection whose size
/// fits `i32`.
pub open spec fn selection_ok(selection: RectPx) -> bool {
    &&& selection.left <= selection.right
    &&& selection.top <= selection.bottom
    &&& selection.right - selection.left <= i32::MAX
    &&& selection.bottom - selection.top <= i32::MAX
}

/// A patch of BGRA pixels painted at `(left, top)` on the desktop.
pub struct OverlayPatch {
    pub left: i32,
    pub top: i32,
    pub width: i32,
    pub height: i32,
    pub bgra_pixels: Vec<u8>,
}

/// The patch's place and size are the region's.
pub open spec fn patch_at(p: OverlayPatch, region: (int, int, int, int, int, int)) -> bool {
    let (left, top, sl, st, w, h) = region;
    &&& p.left == left
    &&& p.top == top
    &&& p.width == w
    &&& p.height == h
    &&& p.bgra_pixels@.len() == w * h * 4
}

/// The snapshot's pixels under the region, as rows of `w` pixels.
pub open spec fn region_pixels(s: SelectionSnapshot, region: (int, int, int, int, int, int)) -> Seq<u8> {
    let (left, top, sl, st, w, h) = region;
    block_of(s.bgra_pixels@, s.width * 4, sl * 4, st, w * 4, h)
}

/// Computes the region and cuts its pixels out of the snapshot.
fn cut_region(snapshot: &SelectionSnapshot, selection: RectPx, rect: RectPx) -> (r: Option<(i32, i32, i32, i32, Vec<u8>)>)
    requires
        snapshot_wf(*snapshot),
        selection_ok(selection),
    ensures
        r is Some <==> overlay_region(snapshot.width as int, snapshot.height as int, selection, rect) is Some,
        r matches Some((left, top, w, h, pixels)) ==> {
            let region = overlay_region(snapshot.width as int, snapshot.height as int, selection, rect)->0;
            &&& region.0 == left && region.1 == top && region.4 == w && region.5 == h
            &&& 0 <= region.2 && region.2 + w <= snapshot.width
            &&& 0 <= region.3 && region.3 + h <= snapshot.height
            &&& pixels@ == region_pixels(*snapshot, region)
        },
{
    let left = clamp_i32(rect.left, selection.left, selection.right);
    let top = clamp_i32(rect.top, selection.top, selection.bottom);
    let right = clamp_i32(rect.right, selection.left, selection.right);
    let bottom = clamp_i32(rect.bottom, selection.top, selection.bottom);
    if right <= left || bottom <= top {
        return None;
    }
    let sl = clamp_i32(left - selection.left, 0, snapshot.width);
    let st = clamp_i32(top - selection.top, 0, snapshot.height);
    let sr = clamp_i32(right - selection.left, 0, snapshot.width);
    let sb = clamp_i32(bottom - selection.top, 0, snapshot.height);
    let w = sr - sl;
    let h = sb - st;
    if w <= 0 || h <= 0 {
        return None;
    }
    let sw = snapshot.width as usize;
    let sh = snapshot.height as usize;
    let total = snapshot.bgra_pixels.len();
    proof {
        assert((st + h) * (sw * 4) <= sh * (sw * 4)) by (nonlinear_arith)
            requires
                st + h <= sh,
                0 <= sw,
        ;
        assert(sw * sh * 4 == sh * (sw * 4)) by (nonlinear_arith);
        assert(sw * 4 <= snapshot.bgra_pixels@.len()) by (nonlinear_arith)
            requires
                snapshot.bgra_pixels@.len() == sw * sh * 4,
                1 <= sh,
        ;
    }
    let pixels = copy_rows(&snapshot.bgra_pixels, sw * 4, sl as usize * 4, st as usize, w as usize * 4, h as usize);
    proof {
        lemma_block_copied_is_block(
            snapshot.bgra_pixels@,
            sw * 4,
            sl * 4,
            st as int,
            w * 4,
            h as int,
            pixels@,
        );
    }
    Some((left, top, w, h, pixels))
}

/// A side of at most 2^30 pixels laid out in blocks of `k`: the last block
/// ends within `i32`.
proof fn lemma_blocks_fit(n: int, k: int)
    requires
        1 <= n <= 0x4000_0000,
        1 <= k <= i32::MAX,
    ensures
        blocks_fit(0, n, k),
{
    vstd::arithmetic::div_mod::lemma_fundamental_div_mod(n - 1, k);
    vstd::arithmetic::div_mod::lemma_mod_pos_bound(n - 1, k);
    let q = (n - 1) / k;
    let m = (n - 1) % k;
    assert(q * k == k * q) by (nonlinear_arith);
    assert(block_start(n - 1, 0, k) == q * k);
    if k > n - 1 {
        assert(q == 0) by (nonlinear_arith)
            requires
                n - 1 == k * q + m,
                0 <= m < k,
                0 <= n - 1 < k,
        ;
        assert(q * k == 0) by (nonlinear_arith)
            requires
                q == 0,
        ;
    } else {
        assert(q * k <= n - 1);
    }
}

/// The pixelated patch the editor paints over a pixelate box: the region's
/// snapshot pixels, each block of `block` x `block` pixels (at least 1,
/// blocks laid from the region's corner and cut at its edge) replaced by
/// its mean colour, each channel rounded down.
pub fn pixelate_overlay_pixels(snapshot: &SelectionSnapshot, selection: RectPx, rect: RectPx, block: i32) -> (r: Option<OverlayPatch>)
    requires
        snapshot_wf(*snapshot),
        snapshot_size_ok(*snapshot),
        selection_ok(selection),
    ensures
        r is Some <==> overlay_region(snapshot.width as int, snapshot.height as int, selection, rect) is Some,
        r matches Some(p) ==> {
            let region = overlay_region(snapshot.width as int, snapshot.height as int, selection, rect)->0;
            let value = pixelated_value(
                region_pixels(*snapshot, region),
                region.4,
                region.5,
                RectPx { left: 0, top: 0, right: region.4 as i32, bottom: region.5 as i32 },
                block as int,
            );
            &&& patch_at(p, region)
            &&& forall|y: int, x: int, c: int|
                0 <= y < region.5 && 0 <= x < region.4 && 0 <= c < 4 ==> #[trigger] p.bgra_pixels@[(y * region.4 + x) * 4
                    + c] == value(x, y, c)
        },
{
    let cut = cut_region(snapshot, selection, rect);
    match cut {
        None => None,
        Some((left, top, w, h, pixels)) => {
            let ghost region = overlay_region(snapshot.width as int, snapshot.height as int, selection, rect)->0;
            let ghost k = spec_max(block as int, 1);
            proof {
                assert(w * h <= snapshot.width * snapshot.height) by (nonlinear_arith)
                    requires
                        0 < w <= snapshot.width,
                        0 < h <= snapshot.height,
                ;
                assert(pixels@.len() == w * h * 4) by (nonlinear_arith)
                    requires
                        pixels@.len() == h * (w * 4),
                ;
                lemma_blocks_fit(w as int, k);
                lemma_blocks_fit(h as int, k);
            }
            let area = RectPx { left: 0, top: 0, right: w, bottom: h };
            let mut image = Raster { width: w as u32, height: h as u32, pixels };
            draw_pixelate_raster(&mut image, area, block);
            Some(OverlayPatch { left, top, width: w, height: h, bgra_pixels: image.pixels })
        },
    }
}

/// The blurred patch the editor paints over a blur box: the region's
/// snapshot pixels under a box blur of radius `radius` (at least 1), the
/// region cut out first so that its edge pixels repeat.
pub fn blur_overlay_pixels(snapshot: &SelectionSnapshot, selection: RectPx, rect: RectPx, radius: i32) -> (r: Option<OverlayPatch>)
    requires
        snapshot_wf(*snapshot),
        selection_ok(selection),
        (2 * spec_max(radius as int, 1) + 2) * 255 <= i32::MAX,
    ensures
        r is Some <==> overlay_region(snapshot.width as int, snapshot.height as int, selection, rect) is Some,
        r matches Some(p) ==> {
            let region = overlay_region(snapshot.width as int, snapshot.height as int, selection, rect)->0;
            &&& patch_at(p, region)
            &&& forall|y: int, x: int, c: int|
                0 <= y < region.5 && 0 <= x < region.4 && 0 <= c < 4 ==> #[trigger] p.bgra_pixels@[(y * region.4 + x) * 4
                    + c] == blur_value(
                    region_pixels(*snapshot, region),
                    region.4,
                    region.5,
                    spec_max(radius as int, 1),
                    y,
                    x,
                    c,
                ) as u8
        },
{
    let cut = cut_region(snapshot, selection, rect);
    match cut {
        None => None,
        Some((left, top, w, h, pixels)) => {
            proof {
                assert(pixels@.len() == w * h * 4) by (nonlinear_arith)
                    requires
                        pixels@.len() == h * (w * 4),
                ;
                assert(w * h * 4 > 0) by (nonlinear_arith)
                    requires
                        w > 0,
                        h > 0,
                ;
            }
            let k = max_i32(radius, 1) as usize;
            let blurred = blur_buffer_4ch(&pixels, w as usize, h as usize, k);
            Some(OverlayPatch { left, top, width: w, height: h, bgra_pixels: blurred })
        },
    }
}

} // verus!
