//! The region-selection overlay: the drag that spans a selection over the
//! frozen desktop, the keys that confirm or cancel it, and the pixels of the
//! selected part that the editor starts from.
use vstd::prelude::*;
use crate::geometry::{
    clamp_i32, coord_ok, max_i32, min_i32, rect_ok, spec_clamp, spec_max, spec_min, Point, RectPx,
};

verus! {

pub const CURSOR_HALF_SPAN: i32 = 10;
pub const CURSOR_OUTER_HALF_THICKNESS: i32 = 2;
pub const VK_ESCAPE: u32 = 0x1B;
pub const VK_RETURN: u32 = 0x0D;

/// Byte `k` of `rgba` turned into BGRA order with full alpha.
pub open spec fn bgra_byte(rgba: Seq<u8>, k: int) -> u8 {
    let p = k - k % 4;
    if k % 4 == 0 {
        rgba[p + 2]
    } else if k % 4 == 1 {
        rgba[p + 1]
    } else if k % 4 == 2 {
        rgba[p]
    } else {
        255u8
    }
}

/// Each whole RGBA pixel as an opaque BGRA pixel; trailing bytes of a
/// partial pixel are dropped.
pub open spec fn spec_rgba_to_bgra(rgba: Seq<u8>) -> Seq<u8> {
    Seq::new((rgba.len() / 4 * 4) as nat, |k: int| bgra_byte(rgba, k))
}

/// RGBA bytes in the BGRA order the screen device expects, alpha set opaque.
pub fn rgba_to_bgra(rgba: &Vec<u8>) -> (bgra: Vec<u8>)
    ensures
        bgra@ == spec_rgba_to_bgra(rgba@),
{
    let n = rgba.len();
    let mut bgra: Vec<u8> = Vec::new();
    let mut i: usize = 0;
    while n - i >= 4
        invariant
            n == rgba@.len(),
            i % 4 == 0,
            i <= n,
            bgra@.len() == i,
            forall|k: int| 0 <= k < i ==> #[trigger] bgra@[k] == bgra_byte(rgba@, k),
        decreases n - i,
    {
        bgra.push(rgba[i + 2]);
        bgra.push(rgba[i + 1]);
        bgra.push(rgba[i]);
        bgra.push(255);
        assert forall|k: int| 0 <= k < i + 4 implies #[trigger] bgra@[k] == bgra_byte(rgba@, k) by {
            if k >= i {
                assert(k - k % 4 == i);
            }
        }
        i = i + 4;
    }
    assert(i == n / 4 * 4);
    assert(bgra@ =~= spec_rgba_to_bgra(rgba@));
    bgra
}

pub proof fn lemma_row_before(rr: int, r: int, c: int, w: int)
    requires
        0 <= rr < r,
        0 <= c < w,
    ensures
        0 <= rr * w + c < r * w,
        rr * w + w <= r * w,
{
    assert(rr * w + w <= r * w) by (nonlinear_arith)
        requires
            rr < r,
            0 <= w,
    ;
    assert(0 <= rr * w) by (nonlinear_arith)
        requires
            0 <= rr,
            0 <= w,
    ;
}

proof fn lemma_source_index(y: int, r: int, rows: int, stride: int, x: int, c: int, row_bytes: int)
    requires
        0 <= y,
        0 <= r < rows,
        0 <= x,
        0 <= c < row_bytes,
        x + row_bytes <= stride,
    ensures
        0 <= (y + r) * stride + x + c,
        (y + r) * stride + x + c < (y + rows) * stride,
        r * row_bytes <= rows * stride,
        rows * row_bytes <= rows * stride,
        y + r <= (y + r) * stride,
{
    assert(y + r <= (y + r) * stride) by (nonlinear_arith)
        requires
            0 <= y + r,
            1 <= stride,
    ;
    assert((y + r) * stride + stride <= (y + rows) * stride) by (nonlinear_arith)
        requires
            r < rows,
            0 <= stride,
    ;
    assert(0 <= (y + r) * stride) by (nonlinear_arith)
        requires
            0 <= y + r,
            0 <= stride,
    ;
    assert(r * row_bytes <= rows * stride) by (nonlinear_arith)
        requires
            0 <= r <= rows,
            0 <= row_bytes <= stride,
    ;
    assert(rows * row_bytes <= rows * stride) by (nonlinear_arith)
        requires
            0 <= rows,
            0 <= row_bytes <= stride,
    ;
}

/// The bytes of `rows` rows of `row_bytes` bytes each, taken from a buffer of
/// rows `stride` bytes long, starting at row `y` and byte `x` of each row.
pub open spec fn block_copied(src: Seq<u8>, stride: int, x: int, y: int, row_bytes: int, rows: int, out: Seq<u8>) -> bool {
    &&& out.len() == rows * row_bytes
    &&& forall|r: int, c: int|
        0 <= r < rows && 0 <= c < row_bytes ==> #[trigger] out[r * row_bytes + c] == src[(y + r) * stride + x + c]
}

/// Copies a block of rows out of a row-major byte buffer.
pub fn copy_rows(src: &Vec<u8>, stride: usize, x: usize, y: usize, row_bytes: usize, rows: usize) -> (out: Vec<u8>)
    requires
        x + row_bytes <= stride,
        (y + rows) * stride <= src@.len(),
    ensures
        block_copied(src@, stride as int, x as int, y as int, row_bytes as int, rows as int, out@),
{
    let n = src.len();
    let mut out: Vec<u8> = Vec::new();
    let mut r: usize = 0;
    proof {
        assert(rows * row_bytes <= (y + rows) * stride) by (nonlinear_arith)
            requires
                row_bytes <= stride,
        ;
        assert(0 <= rows * row_bytes) by (nonlinear_arith);
    }
    while r < rows
        invariant
            n == src@.len(),
            x + row_bytes <= stride,
            (y + rows) * stride <= src@.len(),
            r <= rows,
            rows * row_bytes <= src@.len(),
            out@.len() == r * row_bytes,
            forall|rr: int, c: int|
                0 <= rr < r && 0 <= c < row_bytes ==> #[trigger] out@[rr * row_bytes + c] == src@[(y + rr) * stride + x + c],
        decreases rows - r,
    {
        proof {
            assert(y * stride <= (y + rows) * stride) by (nonlinear_arith)
                requires
                    0 <= stride,
                    0 <= rows,
            ;
        }
        let mut c: usize = 0;
        while c < row_bytes
            invariant
                n == src@.len(),
                x + row_bytes <= stride,
                (y + rows) * stride <= src@.len(),
                r < rows,
                c <= row_bytes,
                rows * row_bytes <= src@.len(),
                out@.len() == r * row_bytes + c,
                forall|rr: int, cc: int|
                    0 <= rr < r && 0 <= cc < row_bytes ==> #[trigger] out@[rr * row_bytes + cc] == src@[(y + rr) * stride + x + cc],
                forall|cc: int| 0 <= cc < c ==> #[trigger] out@[r * row_bytes + cc] == src@[(y + r) * stride + x + cc],
            decreases row_bytes - c,
        {
            proof {
                lemma_source_index(y as int, r as int, rows as int, stride as int, x as int, c as int, row_bytes as int);
            }
            let idx = (y + r) * stride + x + c;
            let ghost before = out@;
            out.push(src[idx]);
            proof {
                assert forall|rr: int, cc: int|
                    0 <= rr < r && 0 <= cc < row_bytes implies #[trigger] out@[rr * row_bytes + cc] == src@[(y + rr) * stride + x + cc] by {
                    lemma_row_before(rr, r as int, cc, row_bytes as int);
                    assert(out@[rr * row_bytes + cc] == before[rr * row_bytes + cc]);
                }
                assert forall|cc: int| 0 <= cc < c + 1 implies #[trigger] out@[r * row_bytes + cc] == src@[(y + r) * stride + x + cc] by {
                    if cc < c {
                        assert(out@[r * row_bytes + cc] == before[r * row_bytes + cc]);
                    }
                }
            }
            c = c + 1;
        }
        proof {
            assert((r + 1) * row_bytes == r * row_bytes + row_bytes) by (nonlinear_arith);
            assert forall|rr: int, cc: int|
                0 <= rr < r + 1 && 0 <= cc < row_bytes implies #[trigger] out@[rr * row_bytes + cc] == src@[(y + rr) * stride + x + cc] by {
                if rr == r {
                    assert(out@[r * row_bytes + cc] == src@[(y + r) * stride + x + cc]);
                }
            }
        }
        r = r + 1;
    }
    out
}

/// The frozen desktop as the overlay paints it: BGRA rows of `width` pixels.
pub struct FrozenOverlaySnapshot {
    pub width: i32,
    pub height: i32,
    pub bgra_pixels: Vec<u8>,
}

/// The selected part of the frozen desktop, handed to the editor so that it
/// need not copy it again.
pub struct PrecomputedSelectionSnapshot {
    pub width: i32,
    pub height: i32,
    pub bgra_pixels: Vec<u8>,
}

/// A finished selection: its rectangle in desktop pixels and, when a frozen
/// frame was shown, the pixels under it.
pub struct RegionSelection {
    pub rect: RectPx,
    pub precomputed_snapshot: Option<PrecomputedSelectionSnapshot>,
}

/// A snapshot's buffer holds exactly its `width * height` pixels.
pub open spec fn snapshot_wf(s: FrozenOverlaySnapshot) -> bool {
    &&& 0 < s.width
    &&& 0 < s.height
    &&& s.bgra_pixels@.len() == s.width * s.height * 4
}

/// Why the overlay could not start or produced no selection.
#[derive(Clone, Copy, Debug, PartialEq, Eq, Structural)]
pub enum OverlayError {
    /// The desktop has no area.
    InvalidDesktop,
    /// The frozen frame is not the size of the desktop.
    FrameSizeMismatch,
    /// A frame dimension does not fit a signed 32-bit integer.
    FrameTooLarge,
    /// A frame dimension is zero.
    InvalidFrame,
    /// The frame's buffer is not `width * height` pixels.
    InvalidPixelBuffer,
    /// The overlay closed without a selection.
    NoSelection,
    /// The selection is less than two pixels wide or high.
    SelectionTooSmall,
}

/// A captured RGBA frame turned into the overlay's BGRA snapshot, after
/// checking its size.
pub fn frame_to_overlay_snapshot(frame_width: u32, frame_height: u32, pixels: &Vec<u8>) -> (r: Result<FrozenOverlaySnapshot, OverlayError>)
    ensures
        match r {
            Ok(s) => {
                &&& frame_width <= i32::MAX && frame_height <= i32::MAX
                &&& 0 < frame_width && 0 < frame_height
                &&& pixels@.len() == frame_width * frame_height * 4
                &&& s.width == frame_width && s.height == frame_height
                &&& s.bgra_pixels@ == spec_rgba_to_bgra(pixels@)
                &&& snapshot_wf(s)
            },
            Err(e) => e == (if frame_width > i32::MAX || frame_height > i32::MAX {
                OverlayError::FrameTooLarge
            } else if frame_width == 0 || frame_height == 0 {
                OverlayError::InvalidFrame
            } else {
                OverlayError::InvalidPixelBuffer
            }),
        },
{
    if frame_width > 0x7fff_ffff || frame_height > 0x7fff_ffff {
        return Err(OverlayError::FrameTooLarge);
    }
    let width = frame_width as i32;
    let height = frame_height as i32;
    if width <= 0 || height <= 0 {
        return Err(OverlayError::InvalidFrame);
    }
    let w = frame_width as u64;
    let h = frame_height as u64;
    assert(w * h * 4 < 0x1_0000_0000_0000_0000) by (nonlinear_arith)
        requires
            w <= 0x7fff_ffff,
            h <= 0x7fff_ffff,
    ;
    let expected: u64 = w * h * 4;
    if pixels.len() as u64 != expected {
        return Err(OverlayError::InvalidPixelBuffer);
    }
    let bgra_pixels = rgba_to_bgra(pixels);
    assert(pixels@.len() / 4 * 4 == pixels@.len()) by (nonlinear_arith)
        requires
            pixels@.len() == w * h * 4,
    ;
    Ok(FrozenOverlaySnapshot { width, height, bgra_pixels })
}

/// The selection's pixels, when the selection lies inside the snapshot.
pub open spec fn crop_fits(snapshot: FrozenOverlaySnapshot, virtual_rect: RectPx, selected: RectPx) -> bool {
    let w = selected.right - selected.left;
    let h = selected.bottom - selected.top;
    let sl = selected.left - virtual_rect.left;
    let st = selected.top - virtual_rect.top;
    &&& w > 0 && h > 0
    &&& sl >= 0 && st >= 0
    &&& sl + w <= snapshot.width
    &&& st + h <= snapshot.height
}

/// Copies the selected part of the frozen snapshot, row by row; `None` when
/// the selection is empty or leaves the snapshot.
pub fn crop_selection_snapshot(snapshot: &FrozenOverlaySnapshot, virtual_rect: RectPx, selected: RectPx) -> (r: Option<PrecomputedSelectionSnapshot>)
    requires
        snapshot_wf(*snapshot),
        rect_ok(virtual_rect),
        rect_ok(selected),
    ensures
        r is Some <==> crop_fits(*snapshot, virtual_rect, selected),
        r matches Some(p) ==> {
            &&& p.width == selected.right - selected.left
            &&& p.height == selected.bottom - selected.top
            &&& block_copied(
                snapshot.bgra_pixels@,
                snapshot.width * 4,
                (selected.left - virtual_rect.left) * 4,
                selected.top - virtual_rect.top,
                p.width * 4,
                p.height as int,
                p.bgra_pixels@,
            )
        },
{
    let width = selected.right - selected.left;
    let height = selected.bottom - selected.top;
    if width <= 0 || height <= 0 {
        return None;
    }
    let src_left = selected.left - virtual_rect.left;
    let src_top = selected.top - virtual_rect.top;
    if src_left < 0 || src_top < 0 || src_left + width > snapshot.width || src_top + height > snapshot.height {
        return None;
    }
    let sw = snapshot.width as usize;
    let sh = snapshot.height as usize;
    let w = width as usize;
    let h = height as usize;
    let left = src_left as usize;
    let top = src_top as usize;
    proof {
        assert((top + h) * (sw * 4) <= sh * (sw * 4)) by (nonlinear_arith)
            requires
                top + h <= sh,
                0 <= sw,
        ;
        assert(sw * sh * 4 == sh * (sw * 4)) by (nonlinear_arith);
        assert(sw * 4 <= snapshot.bgra_pixels@.len()) by (nonlinear_arith)
            requires
                snapshot.bgra_pixels@.len() == sw * sh * 4,
                1 <= sh,
        ;
    }
    let total = snapshot.bgra_pixels.len();
    let stride = sw * 4;
    let pixels = copy_rows(&snapshot.bgra_pixels, stride, left * 4, top, w * 4, h);
    Some(PrecomputedSelectionSnapshot { width, height, bgra_pixels: pixels })
}

/// The selection spanned by two client points of the overlay, each clamped
/// onto the desktop, in desktop coordinates.
pub open spec fn spec_normalize_points(start: Point, end: Point, virtual_rect: RectPx) -> RectPx {
    let max_x = spec_max(virtual_rect.right - virtual_rect.left, 0);
    let max_y = spec_max(virtual_rect.bottom - virtual_rect.top, 0);
    let sx = spec_clamp(start.x as int, 0, max_x);
    let sy = spec_clamp(start.y as int, 0, max_y);
    let ex = spec_clamp(end.x as int, 0, max_x);
    let ey = spec_clamp(end.y as int, 0, max_y);
    RectPx {
        left: (spec_min(sx, ex) + virtual_rect.left) as i32,
        top: (spec_min(sy, ey) + virtual_rect.top) as i32,
        right: (spec_max(sx, ex) + virtual_rect.left) as i32,
        bottom: (spec_max(sy, ey) + virtual_rect.top) as i32,
    }
}

pub fn normalize_points(start: Point, end: Point, virtual_rect: RectPx) -> (r: RectPx)
    requires
        rect_ok(virtual_rect),
    ensures
        r == spec_normalize_points(start, end, virtual_rect),
{
    let max_x = max_i32(virtual_rect.right - virtual_rect.left, 0);
    let max_y = max_i32(virtual_rect.bottom - virtual_rect.top, 0);
    let sx = clamp_i32(start.x, 0, max_x);
    let sy = clamp_i32(start.y, 0, max_y);
    let ex = clamp_i32(end.x, 0, max_x);
    let ey = clamp_i32(end.y, 0, max_y);
    RectPx {
        left: min_i32(sx, ex) + virtual_rect.left,
        top: min_i32(sy, ey) + virtual_rect.top,
        right: max_i32(sx, ex) + virtual_rect.left,
        bottom: max_i32(sy, ey) + virtual_rect.top,
    }
}

/// Whether `next` differs from the current selection (or there is none yet).
pub fn selection_changed(existing: Option<RectPx>, next: RectPx) -> (b: bool)
    ensures
        b == (existing != Some(next)),
{
    match existing {
        None => true,
        Some(current) => current.left != next.left || current.top != next.top || current.right != next.right
            || current.bottom != next.bottom,
    }
}

/// The box repainted around the cursor cross at `p`.
pub open spec fn spec_cursor_indicator_rect(p: Point) -> RectPx {
    let half = CURSOR_HALF_SPAN + CURSOR_OUTER_HALF_THICKNESS + 2;
    RectPx {
        left: (p.x - half) as i32,
        top: (p.y - half) as i32,
        right: (p.x + half + 1) as i32,
        bottom: (p.y + half + 1) as i32,
    }
}

pub fn cursor_indicator_rect(p: Point) -> (r: RectPx)
    requires
        coord_ok(p.x as int),
        coord_ok(p.y as int),
    ensures
        r == spec_cursor_indicator_rect(p),
{
    let half = CURSOR_HALF_SPAN + CURSOR_OUTER_HALF_THICKNESS + 2;
    RectPx { left: p.x - half, top: p.y - half, right: p.x + half + 1, bottom: p.y + half + 1 }
}

/// The plain fields of the overlay's state.
pub struct OverlayView {
    pub virtual_rect: RectPx,
    pub cursor_point: Option<Point>,
    pub drag_start: Option<Point>,
    pub drag_current: Option<Point>,
    pub selected_rect: Option<RectPx>,
    pub require_enter_confirm: bool,
    pub done: bool,
    pub canceled: bool,
}

/// The state of the selection overlay while it is open.
pub struct OverlayState {
    pub virtual_rect: RectPx,
    pub frozen_snapshot: Option<FrozenOverlaySnapshot>,
    pub cursor_point: Option<Point>,
    pub drag_start: Option<Point>,
    pub drag_current: Option<Point>,
    pub selected_rect: Option<RectPx>,
    pub require_enter_confirm: bool,
    pub done: bool,
    pub canceled: bool,
}

impl View for OverlayState {
    type V = OverlayView;

    open spec fn view(&self) -> OverlayView {
        OverlayView {
            virtual_rect: self.virtual_rect,
            cursor_point: self.cursor_point,
            drag_start: self.drag_start,
            drag_current: self.drag_current,
            selected_rect: self.selected_rect,
            require_enter_confirm: self.require_enter_confirm,
            done: self.done,
            canceled: self.canceled,
        }
    }
}

/// What a drag to `current` makes of the state: the drag's current point and
/// selection follow it; nothing changes without a drag.
pub open spec fn spec_overlay_drag(s: OverlayView, current: Point) -> (OverlayView, bool) {
    match s.drag_start {
        None => (s, false),
        Some(start) => {
            let next = spec_normalize_points(start, current, s.virtual_rect);
            let moved = OverlayView { drag_current: Some(current), ..s };
            if s.selected_rect != Some(next) {
                (OverlayView { selected_rect: Some(next), ..moved }, true)
            } else {
                (moved, false)
            }
        },
    }
}

/// What the overlay does on a key: Escape cancels; Enter confirms a selection
/// when there is one. Other keys go to the default handler (`false`).
pub open spec fn spec_overlay_key(s: OverlayView, key: u32) -> (OverlayView, bool) {
    if key == VK_ESCAPE {
        (OverlayView { canceled: true, done: true, ..s }, true)
    } else if key == VK_RETURN {
        if s.selected_rect is Some {
            (OverlayView { done: true, ..s }, true)
        } else {
            (s, true)
        }
    } else {
        (s, false)
    }
}

/// The overlay's result once it is done: nothing when canceled, else the
/// selection, which must be at least two pixels each way.
pub open spec fn spec_overlay_result(s: OverlayView) -> Result<Option<RectPx>, OverlayError> {
    if s.canceled {
        Ok(None)
    } else {
        match s.selected_rect {
            None => Err(OverlayError::NoSelection),
            Some(r) => if r.right - r.left < 2 || r.bottom - r.top < 2 {
                Err(OverlayError::SelectionTooSmall)
            } else {
                Ok(Some(r))
            },
        }
    }
}

/// A frozen snapshot, when there is one, must be the desktop's size.
pub open spec fn spec_overlay_check(virtual_rect: RectPx, snapshot_size: Option<(i32, i32)>) -> Result<(), OverlayError> {
    if virtual_rect.right - virtual_rect.left <= 0 || virtual_rect.bottom - virtual_rect.top <= 0 {
        Err(OverlayError::InvalidDesktop)
    } else {
        match snapshot_size {
            Some((w, h)) => if w != virtual_rect.right - virtual_rect.left || h != virtual_rect.bottom - virtual_rect.top {
                Err(OverlayError::FrameSizeMismatch)
            } else {
                Ok(())
            },
            None => Ok(()),
        }
    }
}

/// Checks the desktop and the frozen frame before the overlay opens.
pub fn check_overlay_inputs(virtual_rect: RectPx, snapshot: &Option<FrozenOverlaySnapshot>) -> (r: Result<(), OverlayError>)
    requires
        rect_ok(virtual_rect),
    ensures
        r == spec_overlay_check(
            virtual_rect,
            match snapshot {
                Some(s) => Some((s.width, s.height)),
                None => None,
            },
        ),
{
    let w = virtual_rect.right - virtual_rect.left;
    let h = virtual_rect.bottom - virtual_rect.top;
    if w <= 0 || h <= 0 {
        return Err(OverlayError::InvalidDesktop);
    }
    match snapshot {
        Some(s) => {
            if s.width != w || s.height != h {
                return Err(OverlayError::FrameSizeMismatch);
            }
        },
        None => {},
    }
    Ok(())
}

impl OverlayState {
    pub open spec fn wf(&self) -> bool {
        &&& rect_ok(self.virtual_rect)
        &&& self.frozen_snapshot matches Some(s) ==> snapshot_wf(s)
    }

    /// A fresh overlay over `virtual_rect`: no cursor, no drag, no selection.
    pub fn new(virtual_rect: RectPx, frozen_snapshot: Option<FrozenOverlaySnapshot>, require_enter_confirm: bool) -> (s: Self)
        ensures
            s@ == (OverlayView {
                virtual_rect,
                cursor_point: None,
                drag_start: None,
                drag_current: None,
                selected_rect: None,
                require_enter_confirm,
                done: false,
                canceled: false,
            }),
            s.frozen_snapshot == frozen_snapshot,
    {
        OverlayState {
            virtual_rect,
            frozen_snapshot,
            cursor_point: None,
            drag_start: None,
            drag_current: None,
            selected_rect: None,
            require_enter_confirm,
            done: false,
            canceled: false,
        }
    }

    /// Follows a drag to `current`; says whether the selection changed.
    pub fn update_drag(&mut self, current: Point) -> (changed: bool)
        requires
            old(self).wf(),
        ensures
            (final(self)@, changed) == spec_overlay_drag(old(self)@, current),
            final(self).frozen_snapshot == old(self).frozen_snapshot,
    {
        match self.drag_start {
            None => false,
            Some(start) => {
                self.drag_current = Some(current);
                let next = normalize_points(start, current, self.virtual_rect);
                if selection_changed(self.selected_rect, next) {
                    self.selected_rect = Some(next);
                    true
                } else {
                    false
                }
            },
        }
    }

    /// Handles a key press; `false` leaves the key to the default handler.
    pub fn on_key(&mut self, key: u32) -> (handled: bool)
        ensures
            (final(self)@, handled) == spec_overlay_key(old(self)@, key),
            final(self).frozen_snapshot == old(self).frozen_snapshot,
    {
        if key == VK_ESCAPE {
            self.cancel();
            return true;
        }
        if key == VK_RETURN {
            if self.selected_rect.is_some() {
                self.done = true;
            }
            return true;
        }
        false
    }

    /// Closes the overlay without a selection.
    pub fn cancel(&mut self)
        ensures
            final(self)@ == (OverlayView { canceled: true, done: true, ..old(self)@ }),
            final(self).frozen_snapshot == old(self).frozen_snapshot,
    {
        self.canceled = true;
        self.done = true;
    }

    /// Starts a drag at `point` with an empty selection there.
    pub fn on_left_down(&mut self, point: Point)
        requires
            old(self).wf(),
        ensures
            final(self)@ == (OverlayView {
                drag_start: Some(point),
                drag_current: Some(point),
                selected_rect: Some(spec_normalize_points(point, point, old(self).virtual_rect)),
                ..old(self)@
            }),
            final(self).frozen_snapshot == old(self).frozen_snapshot,
    {
        self.drag_start = Some(point);
        self.drag_current = Some(point);
        self.selected_rect = Some(normalize_points(point, point, self.virtual_rect));
    }

    /// Ends a drag at `point`; without Enter confirmation this finishes the
    /// overlay. Says whether a drag was in progress.
    pub fn on_left_up(&mut self, point: Point) -> (was_dragging: bool)
        requires
            old(self).wf(),
        ensures
            was_dragging == (old(self).drag_start is Some),
            !was_dragging ==> final(self)@ == old(self)@,
            was_dragging ==> final(self)@ == (OverlayView {
                drag_start: None,
                drag_current: None,
                done: old(self).done || !old(self).require_enter_confirm,
                ..spec_overlay_drag(old(self)@, point).0
            }),
            final(self).frozen_snapshot == old(self).frozen_snapshot,
    {
        if self.drag_start.is_none() {
            return false;
        }
        let _ = self.update_drag(point);
        self.drag_start = None;
        self.drag_current = None;
        if !self.require_enter_confirm {
            self.done = true;
        }
        true
    }

    /// Moves the cursor cross to `next`. Returns the boxes to repaint (the
    /// old cross, if any, and the new one), or `None` when it did not move.
    pub fn update_cursor_indicator(&mut self, next: Point) -> (r: Option<(Option<RectPx>, RectPx)>)
        requires
            coord_ok(next.x as int),
            coord_ok(next.y as int),
            old(self).cursor_point matches Some(p) ==> coord_ok(p.x as int) && coord_ok(p.y as int),
        ensures
            old(self).cursor_point == Some(next) ==> r is None && final(self)@ == old(self)@,
            old(self).cursor_point != Some(next) ==> {
                &&& final(self)@ == (OverlayView { cursor_point: Some(next), ..old(self)@ })
                &&& r == Some((
                    match old(self).cursor_point {
                        Some(p) => Some(spec_cursor_indicator_rect(p)),
                        None => None,
                    },
                    spec_cursor_indicator_rect(next),
                ))
            },
            final(self).frozen_snapshot == old(self).frozen_snapshot,
    {
        let previous = match self.cursor_point {
            Some(current) => {
                if current.x == next.x && current.y == next.y {
                    return None;
                }
                Some(cursor_indicator_rect(current))
            },
            None => None,
        };
        self.cursor_point = Some(next);
        Some((previous, cursor_indicator_rect(next)))
    }

    /// The selection the overlay closed with, with the pixels under it when a
    /// frozen frame was shown.
    pub fn into_selection(self) -> (r: Result<Option<RegionSelection>, OverlayError>)
        requires
            self.wf(),
            self.selected_rect matches Some(sel) ==> rect_ok(sel),
        ensures
            match (r, spec_overlay_result(self@)) {
                (Ok(Some(sel)), Ok(Some(rect))) => {
                    &&& sel.rect == rect
                    &&& (sel.precomputed_snapshot is Some <==> (self.frozen_snapshot matches Some(s) && crop_fits(s, self.virtual_rect, rect)))
                    &&& (sel.precomputed_snapshot matches Some(p) ==> self.frozen_snapshot matches Some(s) && {
                        &&& p.width == rect.right - rect.left
                        &&& p.height == rect.bottom - rect.top
                        &&& block_copied(
                            s.bgra_pixels@,
                            s.width * 4,
                            (rect.left - self.virtual_rect.left) * 4,
                            rect.top - self.virtual_rect.top,
                            p.width * 4,
                            p.height as int,
                            p.bgra_pixels@,
                        )
                    })
                },
                (Ok(None), Ok(None)) => true,
                (Err(e), Err(f)) => e == f,
                _ => false,
            },
    {
        if self.canceled {
            return Ok(None);
        }
        let selected = match self.selected_rect {
            Some(r) => r,
            None => {
                return Err(OverlayError::NoSelection);
            },
        };
        if selected.right - selected.left < 2 || selected.bottom - selected.top < 2 {
            return Err(OverlayError::SelectionTooSmall);
        }
        let precomputed_snapshot = match &self.frozen_snapshot {
            Some(snapshot) => crop_selection_snapshot(snapshot, self.virtual_rect, selected),
            None => None,
        };
        Ok(Some(RegionSelection { rect: selected, precomputed_snapshot }))
    }
}

/// Two drags to the same point change nothing the second time.
pub proof fn law_drag_idempotent(s: OverlayView, p: Point)
    ensures
        spec_overlay_drag(spec_overlay_drag(s, p).0, p).0 == spec_overlay_drag(s, p).0,
        !spec_overlay_drag(spec_overlay_drag(s, p).0, p).1,
{
}

/// The selection a drag produces lies on the desktop and is never inverted.
pub proof fn law_drag_selection_on_desktop(start: Point, end: Point, virtual_rect: RectPx)
    requires
        rect_ok(virtual_rect),
        virtual_rect.left <= virtual_rect.right,
        virtual_rect.top <= virtual_rect.bottom,
    ensures
        ({
            let r = spec_normalize_points(start, end, virtual_rect);
            &&& virtual_rect.left <= r.left <= r.right <= virtual_rect.right
            &&& virtual_rect.top <= r.top <= r.bottom <= virtual_rect.bottom
        }),
{
}

} // verus!
