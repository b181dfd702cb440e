//! A capture pinned to the desktop in a window of its own: its pixels, its
//! lock, its drag, where it is placed and how far it may be zoomed.
use vstd::prelude::*;
use crate::geometry::{clamp_i32, max_i32, rect_ok, spec_clamp, spec_max, Point, RectPx};

verus! {

pub const MIN_PIN_SIZE: i32 = 120;
pub const KEEP_VISIBLE: i32 = 64;
pub const VK_ESCAPE: u32 = 0x1B;
pub const PIN_MENU_COPY: u32 = 1001;
pub const PIN_MENU_SAVE_AS: u32 = 1002;
pub const PIN_MENU_RESET_ZOOM: u32 = 1003;
pub const PIN_MENU_CLOSE: u32 = 1004;
pub const PIN_MENU_LOCK: u32 = 1005;

/// Byte `k` of a buffer whose whole four-byte pixels have their first and
/// third bytes exchanged.
pub open spec fn swapped_byte(px: Seq<u8>, k: int) -> u8 {
    if k < px.len() / 4 * 4 {
        let p = k - k % 4;
        if k % 4 == 0 {
            px[p + 2]
        } else if k % 4 == 2 {
            px[p]
        } else {
            px[k]
        }
    } else {
        px[k]
    }
}

/// The buffer with red and blue exchanged in each whole pixel (RGBA to BGRA
/// and back); a trailing partial pixel is left as it is.
pub open spec fn spec_swap_red_blue(px: Seq<u8>) -> Seq<u8> {
    Seq::new(px.len(), |k: int| swapped_byte(px, k))
}

/// Exchanges the first and third byte of every whole pixel.
pub fn swap_red_blue(px: &Vec<u8>) -> (out: Vec<u8>)
    ensures
        out@ == spec_swap_red_blue(px@),
{
    let n = px.len();
    let whole = n / 4 * 4;
    let mut out: Vec<u8> = Vec::new();
    let mut i: usize = 0;
    while i < n
        invariant
            n == px@.len(),
            whole == n / 4 * 4,
            i <= n,
            out@.len() == i,
            forall|k: int| 0 <= k < i ==> #[trigger] out@[k] == swapped_byte(px@, k),
        decreases n - i,
    {
        let b = if i < whole {
            let r = i % 4;
            if r == 0 {
                px[i + 2]
            } else if r == 2 {
                px[i - 2]
            } else {
                px[i]
            }
        } else {
            px[i]
        };
        out.push(b);
        i = i + 1;
    }
    assert(out@ =~= spec_swap_red_blue(px@));
    out
}

/// Exchanging red and blue twice gives the buffer back.
pub proof fn law_swap_red_blue_involution(px: Seq<u8>)
    ensures
        spec_swap_red_blue(spec_swap_red_blue(px)) == px,
{
    let once = spec_swap_red_blue(px);
    assert(spec_swap_red_blue(once) =~= px) by {
        assert forall|k: int| 0 <= k < px.len() implies #[trigger] spec_swap_red_blue(once)[k] == px[k] by {
            let p = k - k % 4;
            if k < px.len() / 4 * 4 && k % 4 == 0 {
                assert(p + 2 < px.len() / 4 * 4);
                assert((p + 2) % 4 == 2);
                assert((p + 2) - (p + 2) % 4 == p);
            } else if k < px.len() / 4 * 4 && k % 4 == 2 {
                assert(p % 4 == 0);
                assert(p - p % 4 == p);
            }
        }
    }
}

/// The pixels and settings of one pinned window.
pub struct PinWindowState {
    pub source_width: i32,
    pub source_height: i32,
    pub bgra_pixels: Vec<u8>,
    pub save_dir: std::path::PathBuf,
    pub locked: bool,
    pub hud_visible: bool,
    pub dragging: bool,
    pub drag_offset: Point,
}

/// A dimension as the pinned window stores it: at least one, as a signed
/// 32-bit integer.
pub open spec fn stored_dim(d: u32) -> i32 {
    (if d >= 1 { d } else { 1u32 }) as i32
}

impl PinWindowState {
    /// A pinned window for an RGBA capture of `width` x `height`: unlocked,
    /// heads-up display shown, not dragging, pixels in BGRA order.
    pub fn new(width: u32, height: u32, rgba: &Vec<u8>, save_dir: std::path::PathBuf) -> (s: Self)
        ensures
            s.source_width == stored_dim(width),
            s.source_height == stored_dim(height),
            s.bgra_pixels@ == spec_swap_red_blue(rgba@),
            s.save_dir == save_dir,
            !s.locked,
            s.hud_visible,
            !s.dragging,
            s.drag_offset == (Point { x: 0, y: 0 }),
    {
        let w = if width >= 1 { width } else { 1 };
        let h = if height >= 1 { height } else { 1 };
        PinWindowState {
            source_width: #[verifier::truncate] (w as i32),
            source_height: #[verifier::truncate] (h as i32),
            bgra_pixels: swap_red_blue(rgba),
            save_dir,
            locked: false,
            hud_visible: true,
            dragging: false,
            drag_offset: Point { x: 0, y: 0 },
        }
    }

    /// Locks or unlocks moving and zooming; locking ends a drag. Says whether
    /// the window became locked.
    pub fn toggle_lock(&mut self) -> (became_locked: bool)
        ensures
            final(self).locked == !old(self).locked,
            became_locked == final(self).locked,
            final(self).dragging == (old(self).dragging && old(self).locked),
            final(self).hud_visible == old(self).hud_visible,
            final(self).drag_offset == old(self).drag_offset,
            final(self).bgra_pixels == old(self).bgra_pixels,
    {
        self.locked = !self.locked;
        if self.locked {
            self.dragging = false;
            return true;
        }
        false
    }

    /// Starts a drag with the cursor at `cursor` and the window's top-left
    /// corner at `window_origin`; a locked window does not move. Says whether
    /// the drag started.
    pub fn start_drag(&mut self, cursor: Point, window_origin: Point) -> (started: bool)
        requires
            i32::MIN <= cursor.x - window_origin.x <= i32::MAX,
            i32::MIN <= cursor.y - window_origin.y <= i32::MAX,
        ensures
            started == !old(self).locked,
            started ==> final(self).dragging && final(self).drag_offset == (Point {
                x: (cursor.x - window_origin.x) as i32,
                y: (cursor.y - window_origin.y) as i32,
            }),
            !started ==> final(self).dragging == old(self).dragging && final(self).drag_offset == old(self).drag_offset,
            final(self).locked == old(self).locked,
            final(self).hud_visible == old(self).hud_visible,
            final(self).bgra_pixels == old(self).bgra_pixels,
    {
        if self.locked {
            return false;
        }
        self.dragging = true;
        self.drag_offset = Point { x: cursor.x - window_origin.x, y: cursor.y - window_origin.y };
        true
    }

    /// Ends a drag.
    pub fn stop_drag(&mut self)
        ensures
            !final(self).dragging,
            final(self).locked == old(self).locked,
            final(self).drag_offset == old(self).drag_offset,
            final(self).bgra_pixels == old(self).bgra_pixels,
    {
        self.dragging = false;
    }

    /// Where a drag to `cursor` puts the window, kept on the desktop; `None`
    /// when no drag is in progress.
    pub fn drag_target(&self, cursor: Point, width: i32, height: i32, desktop: RectPx) -> (r: Option<(i32, i32)>)
        requires
            rect_ok(desktop),
            0 <= width <= 0x1000_0000,
            0 <= height <= 0x1000_0000,
            i32::MIN <= cursor.x - self.drag_offset.x <= i32::MAX,
            i32::MIN <= cursor.y - self.drag_offset.y <= i32::MAX,
            position_clamp_defined(width as int, height as int, desktop),
        ensures
            !self.dragging ==> r is None,
            self.dragging ==> r == Some(spec_clamp_window_position(
                cursor.x - self.drag_offset.x,
                cursor.y - self.drag_offset.y,
                width as int,
                height as int,
                desktop,
            )),
    {
        if !self.dragging {
            return None;
        }
        Some(clamp_window_position(cursor.x - self.drag_offset.x, cursor.y - self.drag_offset.y, width, height, desktop))
    }
}

/// The window position kept so that at least `KEEP_VISIBLE` pixels of the
/// window stay on the desktop each way.
pub open spec fn spec_clamp_window_position(x: int, y: int, width: int, height: int, desktop: RectPx) -> (i32, i32) {
    let min_x = desktop.left - width + KEEP_VISIBLE;
    let max_x = desktop.right - KEEP_VISIBLE;
    let min_y = desktop.top - height + KEEP_VISIBLE;
    let max_y = desktop.bottom - KEEP_VISIBLE;
    (spec_clamp(x, min_x, max_x) as i32, spec_clamp(y, min_y, max_y) as i32)
}

/// The position limits are in order: `i32::clamp` panics otherwise, which
/// happens only for a desktop narrower or lower than `2 * KEEP_VISIBLE` less
/// the window's size.
pub open spec fn position_clamp_defined(width: int, height: int, desktop: RectPx) -> bool {
    &&& desktop.left - width + KEEP_VISIBLE <= desktop.right - KEEP_VISIBLE
    &&& desktop.top - height + KEEP_VISIBLE <= desktop.bottom - KEEP_VISIBLE
}

/// Keeps a window of `width` x `height` at least partly on the desktop.
pub fn clamp_window_position(x: i32, y: i32, width: i32, height: i32, desktop: RectPx) -> (r: (i32, i32))
    requires
        rect_ok(desktop),
        0 <= width <= 0x1000_0000,
        0 <= height <= 0x1000_0000,
        position_clamp_defined(width as int, height as int, desktop),
    ensures
        r == spec_clamp_window_position(x as int, y as int, width as int, height as int, desktop),
{
    let min_x = desktop.left - width + KEEP_VISIBLE;
    let max_x = desktop.right - KEEP_VISIBLE;
    let min_y = desktop.top - height + KEEP_VISIBLE;
    let max_y = desktop.bottom - KEEP_VISIBLE;
    (clamp_i32(x, min_x, max_x), clamp_i32(y, min_y, max_y))
}

/// The zoomed size kept between `MIN_PIN_SIZE` and twice the desktop.
pub open spec fn spec_clamp_zoom_size(width: int, height: int, virtual_rect: RectPx) -> (i32, i32) {
    let max_width = spec_max((virtual_rect.right - virtual_rect.left) * 2, MIN_PIN_SIZE as int);
    let max_height = spec_max((virtual_rect.bottom - virtual_rect.top) * 2, MIN_PIN_SIZE as int);
    (spec_clamp(width, MIN_PIN_SIZE as int, max_width) as i32, spec_clamp(height, MIN_PIN_SIZE as int, max_height) as i32)
}

/// Limits a zoomed window to between `MIN_PIN_SIZE` and twice the desktop.
pub fn clamp_zoom_size(width: i32, height: i32, virtual_rect: RectPx) -> (r: (i32, i32))
    requires
        rect_ok(virtual_rect),
        0 <= virtual_rect.right - virtual_rect.left,
        0 <= virtual_rect.bottom - virtual_rect.top,
    ensures
        r == spec_clamp_zoom_size(width as int, height as int, virtual_rect),
        MIN_PIN_SIZE <= r.0 && MIN_PIN_SIZE <= r.1,
{
    let max_width = max_i32((virtual_rect.right - virtual_rect.left) * 2, MIN_PIN_SIZE);
    let max_height = max_i32((virtual_rect.bottom - virtual_rect.top) * 2, MIN_PIN_SIZE);
    (clamp_i32(width, MIN_PIN_SIZE, max_width), clamp_i32(height, MIN_PIN_SIZE, max_height))
}

/// `a / b` as Rust computes it for `b > 0`, rounding towards zero.
pub open spec fn div_toward_zero(a: int, b: int) -> int {
    if a >= 0 {
        a / b
    } else {
        -((-a) / b)
    }
}

/// Where a new pinned window goes: centred on the desktop.
pub open spec fn spec_initial_window_position(width: int, height: int, desktop: RectPx) -> (i32, i32) {
    (
        (desktop.left + div_toward_zero(desktop.right - desktop.left - width, 2)) as i32,
        (desktop.top + div_toward_zero(desktop.bottom - desktop.top - height, 2)) as i32,
    )
}

pub fn initial_window_position(width: i32, height: i32, desktop: RectPx) -> (r: (i32, i32))
    requires
        rect_ok(desktop),
        0 <= width <= 0x1000_0000,
        0 <= height <= 0x1000_0000,
    ensures
        r == spec_initial_window_position(width as int, height as int, desktop),
{
    let dx = desktop.right - desktop.left - width;
    let dy = desktop.bottom - desktop.top - height;
    (desktop.left + dx / 2, desktop.top + dy / 2)
}

/// The window box that resetting the zoom gives: the capture's own size
/// (within the zoom limits), centred where the window is, kept on the
/// desktop. A locked window keeps its box (`None`).
pub open spec fn spec_reset_zoom(locked: bool, source_width: int, source_height: int, window: RectPx, desktop: RectPx) -> Option<(i32, i32, i32, i32)> {
    if locked {
        None
    } else {
        let (tw, th) = spec_clamp_zoom_size(source_width, source_height, desktop);
        let cx = window.left + div_toward_zero(window.right - window.left, 2);
        let cy = window.top + div_toward_zero(window.bottom - window.top, 2);
        let (x, y) = spec_clamp_window_position(cx - div_toward_zero(tw as int, 2), cy - div_toward_zero(th as int, 2), tw as int, th as int, desktop);
        Some((x, y, tw, th))
    }
}

/// The box a pinned window takes when its zoom is reset.
pub fn reset_zoom_target(state: &PinWindowState, window: RectPx, desktop: RectPx) -> (r: Option<(i32, i32, i32, i32)>)
    requires
        rect_ok(window),
        rect_ok(desktop),
        0 <= desktop.right - desktop.left <= 0x0800_0000,
        0 <= desktop.bottom - desktop.top <= 0x0800_0000,
        ({
            let (tw, th) = spec_clamp_zoom_size(state.source_width as int, state.source_height as int, desktop);
            !state.locked ==> position_clamp_defined(tw as int, th as int, desktop)
        }),
    ensures
        r == spec_reset_zoom(state.locked, state.source_width as int, state.source_height as int, window, desktop),
{
    if state.locked {
        return None;
    }
    let (tw, th) = clamp_zoom_size(state.source_width, state.source_height, desktop);
    let cx = window.left + (window.right - window.left) / 2;
    let cy = window.top + (window.bottom - window.top) / 2;
    let (x, y) = clamp_window_position(cx - tw / 2, cy - th / 2, tw, th, desktop);
    Some((x, y, tw, th))
}

/// What a key or a menu entry asks of a pinned window.
#[derive(Clone, Copy, Debug, PartialEq, Eq, Structural)]
pub enum PinAction {
    Close,
    Copy,
    Save,
    ToggleLock,
    ResetZoom,
}

/// Escape closes; Ctrl+C copies; Ctrl+S saves; L toggles the lock. Other keys
/// are left to the default handler.
pub open spec fn spec_pin_key_action(key: u32, ctrl_down: bool) -> Option<PinAction> {
    if key == VK_ESCAPE {
        Some(PinAction::Close)
    } else if ctrl_down && key == 'C' as u32 {
        Some(PinAction::Copy)
    } else if ctrl_down && key == 'S' as u32 {
        Some(PinAction::Save)
    } else if key == 'L' as u32 {
        Some(PinAction::ToggleLock)
    } else {
        None
    }
}

pub fn pin_key_action(key: u32, ctrl_down: bool) -> (a: Option<PinAction>)
    ensures
        a == spec_pin_key_action(key, ctrl_down),
{
    if key == VK_ESCAPE {
        Some(PinAction::Close)
    } else if ctrl_down && key == 'C' as u32 {
        Some(PinAction::Copy)
    } else if ctrl_down && key == 'S' as u32 {
        Some(PinAction::Save)
    } else if key == 'L' as u32 {
        Some(PinAction::ToggleLock)
    } else {
        None
    }
}

/// The action of a context-menu entry (the low word of the command).
pub open spec fn spec_pin_menu_action(wparam: usize) -> Option<PinAction> {
    let command = wparam % 65536;
    if command == PIN_MENU_COPY {
        Some(PinAction::Copy)
    } else if command == PIN_MENU_SAVE_AS {
        Some(PinAction::Save)
    } else if command == PIN_MENU_RESET_ZOOM {
        Some(PinAction::ResetZoom)
    } else if command == PIN_MENU_CLOSE {
        Some(PinAction::Close)
    } else if command == PIN_MENU_LOCK {
        Some(PinAction::ToggleLock)
    } else {
        None
    }
}

pub fn pin_menu_action(wparam: usize) -> (a: Option<PinAction>)
    ensures
        a == spec_pin_menu_action(wparam),
{
    let command = wparam & 0xFFFF;
    assert(wparam & 0xFFFF == wparam % 65536) by (bit_vector);
    if command == PIN_MENU_COPY as usize {
        Some(PinAction::Copy)
    } else if command == PIN_MENU_SAVE_AS as usize {
        Some(PinAction::Save)
    } else if command == PIN_MENU_RESET_ZOOM as usize {
        Some(PinAction::ResetZoom)
    } else if command == PIN_MENU_CLOSE as usize {
        Some(PinAction::Close)
    } else if command == PIN_MENU_LOCK as usize {
        Some(PinAction::ToggleLock)
    } else {
        None
    }
}

/// The signed wheel movement in the high word of a wheel message's low 32 bits.
pub open spec fn spec_wheel_delta(wparam: usize) -> int {
    let hi = (wparam / 65536) % 65536;
    if hi >= 32768 {
        hi - 65536
    } else {
        hi as int
    }
}

pub fn wheel_delta(wparam: usize) -> (d: i32)
    ensures
        d == spec_wheel_delta(wparam),
{
    let hi = (wparam >> 16) & 0xFFFF;
    assert((wparam >> 16) & 0xFFFF == (wparam / 65536) % 65536) by (bit_vector);
    if hi >= 32768 {
        (hi as i32) - 65536
    } else {
        hi as i32
    }
}

/// The RGBA pixels of a pinned capture, read back from its BGRA buffer;
/// `None` when the size is not positive or the buffer is not
/// `width * height` pixels.
pub fn rgba_from_bgra(width: i32, height: i32, bgra: &Vec<u8>) -> (r: Option<Vec<u8>>)
    ensures
        r is Some <==> (0 < width && 0 < height && bgra@.len() == width * height * 4),
        r matches Some(px) ==> px@ == spec_swap_red_blue(bgra@),
{
    if width <= 0 || height <= 0 {
        return None;
    }
    let w = width as u64;
    let h = height as u64;
    assert(w * h * 4 < 0x1_0000_0000_0000_0000) by (nonlinear_arith)
        requires
            w <= 0x7fff_ffff,
            h <= 0x7fff_ffff,
    ;
    if bgra.len() as u64 != w * h * 4 {
        return None;
    }
    Some(swap_red_blue(bgra))
}

/// Pinning a capture and reading it back gives the capture's pixels.
pub proof fn law_pinned_pixels_roundtrip(width: u32, height: u32, rgba: Seq<u8>)
    requires
        1 <= width <= i32::MAX,
        1 <= height <= i32::MAX,
        rgba.len() == width * height * 4,
    ensures
        stored_dim(width) == width,
        stored_dim(height) == height,
        spec_swap_red_blue(spec_swap_red_blue(rgba)) == rgba,
{
    law_swap_red_blue_involution(rgba);
}

} // verus!
