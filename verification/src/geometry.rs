//! Integer screen geometry: rectangles, points, clamping, hit tests and the
//! resize handles of a selection.
use vstd::prelude::*;

verus! {

/// Side length of a square resize handle, in pixels.
pub const HANDLE_SIZE: i32 = 8;

/// Smallest width and height a selection may have.
pub const MIN_SELECTION: i32 = 2;

/// Largest magnitude a screen coordinate handled by this library may have.
/// Keeping coordinates below it keeps sums and differences of a few
/// coordinates inside `i32`.
pub const COORD_LIMIT: i32 = 0x1000_0000;

/// A rectangle in pixels; `right` and `bottom` are exclusive.
#[derive(Clone, Copy, Debug, PartialEq, Eq, Structural)]
pub struct RectPx {
    pub left: i32,
    pub top: i32,
    pub right: i32,
    pub bottom: i32,
}

/// A point in pixels.
#[derive(Clone, Copy, Debug, PartialEq, Eq, Structural)]
pub struct Point {
    pub x: i32,
    pub y: i32,
}

/// The eight resize handles around a selection.
#[derive(Clone, Copy, Debug, PartialEq, Eq, Structural)]
pub enum ResizeHandle {
    NW,
    N,
    NE,
    W,
    E,
    SW,
    S,
    SE,
}

pub open spec fn coord_ok(v: int) -> bool {
    -COORD_LIMIT <= v <= COORD_LIMIT
}

pub open spec fn point_ok(p: Point) -> bool {
    coord_ok(p.x as int) && coord_ok(p.y as int)
}

pub open spec fn rect_ok(r: RectPx) -> bool {
    &&& coord_ok(r.left as int)
    &&& coord_ok(r.top as int)
    &&& coord_ok(r.right as int)
    &&& coord_ok(r.bottom as int)
}

/// A coordinate that may be the difference of two screen coordinates.
pub open spec fn wide_coord_ok(v: int) -> bool {
    -0x3000_0000 <= v <= 0x3000_0000
}

pub open spec fn wide_point_ok(p: Point) -> bool {
    wide_coord_ok(p.x as int) && wide_coord_ok(p.y as int)
}

pub open spec fn wide_rect_ok(r: RectPx) -> bool {
    &&& wide_coord_ok(r.left as int)
    &&& wide_coord_ok(r.top as int)
    &&& wide_coord_ok(r.right as int)
    &&& wide_coord_ok(r.bottom as int)
}

/// `left <= right` and `top <= bottom`.
pub open spec fn rect_normalized(r: RectPx) -> bool {
    r.left <= r.right && r.top <= r.bottom
}

/// `inner` lies inside `outer` (edges may touch).
pub open spec fn rect_within(inner: RectPx, outer: RectPx) -> bool {
    &&& outer.left <= inner.left
    &&& outer.top <= inner.top
    &&& inner.right <= outer.right
    &&& inner.bottom <= outer.bottom
}

pub open spec fn spec_clamp(v: int, lo: int, hi: int) -> int {
    if v < lo {
        lo
    } else if v > hi {
        hi
    } else {
        v
    }
}

pub open spec fn spec_min(a: int, b: int) -> int {
    if a <= b {
        a
    } else {
        b
    }
}

pub open spec fn spec_max(a: int, b: int) -> int {
    if a >= b {
        a
    } else {
        b
    }
}

/// `v` clamped into `[lo, hi]`, as `i32::clamp` computes it.
pub fn clamp_i32(v: i32, lo: i32, hi: i32) -> (r: i32)
    requires
        lo <= hi,
    ensures
        r == spec_clamp(v as int, lo as int, hi as int),
{
    if v < lo {
        lo
    } else if v > hi {
        hi
    } else {
        v
    }
}

pub fn min_i32(a: i32, b: i32) -> (r: i32)
    ensures
        r == spec_min(a as int, b as int),
{
    if a <= b {
        a
    } else {
        b
    }
}

pub fn max_i32(a: i32, b: i32) -> (r: i32)
    ensures
        r == spec_max(a as int, b as int),
{
    if a >= b {
        a
    } else {
        b
    }
}

impl RectPx {
    pub open spec fn spec_width(self) -> int {
        self.right - self.left
    }

    pub open spec fn spec_height(self) -> int {
        self.bottom - self.top
    }

    /// `right - left`.
    pub fn width(self) -> (w: i32)
        requires
            i32::MIN <= self.right - self.left <= i32::MAX,
        ensures
            w == self.spec_width(),
    {
        self.right - self.left
    }

    /// `bottom - top`.
    pub fn height(self) -> (h: i32)
        requires
            i32::MIN <= self.bottom - self.top <= i32::MAX,
        ensures
            h == self.spec_height(),
    {
        self.bottom - self.top
    }
}

/// Area of the overlap of two rectangles, 0 when they do not overlap.
pub open spec fn spec_intersection_area(a: RectPx, b: RectPx) -> int {
    let l = spec_max(a.left as int, b.left as int);
    let t = spec_max(a.top as int, b.top as int);
    let r = spec_min(a.right as int, b.right as int);
    let bt = spec_min(a.bottom as int, b.bottom as int);
    if r <= l || bt <= t {
        0
    } else {
        (r - l) * (bt - t)
    }
}

/// Pixel area shared by two rectangles.
pub fn intersection_area(left: RectPx, right: RectPx) -> (area: i64)
    requires
        spec_intersection_area(left, right) <= i64::MAX,
    ensures
        area == spec_intersection_area(left, right),
        area >= 0,
{
    let l = max_i32(left.left, right.left);
    let t = max_i32(left.top, right.top);
    let r = min_i32(left.right, right.right);
    let b = min_i32(left.bottom, right.bottom);
    if r <= l || b <= t {
        return 0;
    }
    let w = (r as i64) - (l as i64);
    let h = (b as i64) - (t as i64);
    assert(w * h > 0) by (nonlinear_arith)
        requires
            0 < w,
            0 < h,
    ;
    w * h
}

pub open spec fn spec_normalize_abs(start: Point, end: Point, bounds: RectPx) -> RectPx {
    let sx = spec_clamp(start.x as int, bounds.left as int, bounds.right as int);
    let sy = spec_clamp(start.y as int, bounds.top as int, bounds.bottom as int);
    let ex = spec_clamp(end.x as int, bounds.left as int, bounds.right as int);
    let ey = spec_clamp(end.y as int, bounds.top as int, bounds.bottom as int);
    RectPx {
        left: spec_min(sx, ex) as i32,
        top: spec_min(sy, ey) as i32,
        right: spec_max(sx, ex) as i32,
        bottom: spec_max(sy, ey) as i32,
    }
}

/// The rectangle spanned by two drag points, each first clamped into `bounds`.
pub fn normalize_abs(start: Point, end: Point, bounds: RectPx) -> (r: RectPx)
    requires
        rect_normalized(bounds),
    ensures
        r == spec_normalize_abs(start, end, bounds),
        rect_normalized(r),
        rect_within(r, bounds),
{
    let sx = clamp_i32(start.x, bounds.left, bounds.right);
    let sy = clamp_i32(start.y, bounds.top, bounds.bottom);
    let ex = clamp_i32(end.x, bounds.left, bounds.right);
    let ey = clamp_i32(end.y, bounds.top, bounds.bottom);
    RectPx { left: min_i32(sx, ex), top: min_i32(sy, ey), right: max_i32(sx, ex), bottom: max_i32(sy, ey) }
}

pub open spec fn spec_clamp_point(p: Point, bounds: RectPx) -> Point {
    Point {
        x: spec_clamp(p.x as int, bounds.left as int, bounds.right as int) as i32,
        y: spec_clamp(p.y as int, bounds.top as int, bounds.bottom as int) as i32,
    }
}

/// `p` with each coordinate clamped into `bounds` (edges included).
pub fn clamp_point(p: Point, bounds: RectPx) -> (r: Point)
    requires
        rect_normalized(bounds),
    ensures
        r == spec_clamp_point(p, bounds),
        bounds.left <= r.x <= bounds.right,
        bounds.top <= r.y <= bounds.bottom,
{
    Point { x: clamp_i32(p.x, bounds.left, bounds.right), y: clamp_i32(p.y, bounds.top, bounds.bottom) }
}

pub open spec fn spec_translate_rect(r: RectPx, dx: int, dy: int) -> RectPx {
    RectPx {
        left: (r.left + dx) as i32,
        top: (r.top + dy) as i32,
        right: (r.right + dx) as i32,
        bottom: (r.bottom + dy) as i32,
    }
}

pub open spec fn translate_fits(r: RectPx, dx: int, dy: int) -> bool {
    &&& i32::MIN <= r.left + dx <= i32::MAX
    &&& i32::MIN <= r.right + dx <= i32::MAX
    &&& i32::MIN <= r.top + dy <= i32::MAX
    &&& i32::MIN <= r.bottom + dy <= i32::MAX
}

/// `rect` moved by `(dx, dy)`.
pub fn translate_rect(rect: RectPx, dx: i32, dy: i32) -> (r: RectPx)
    requires
        translate_fits(rect, dx as int, dy as int),
    ensures
        r == spec_translate_rect(rect, dx as int, dy as int),
{
    RectPx { left: rect.left + dx, top: rect.top + dy, right: rect.right + dx, bottom: rect.bottom + dy }
}

pub open spec fn spec_translate_point(p: Point, dx: int, dy: int) -> Point {
    Point { x: (p.x + dx) as i32, y: (p.y + dy) as i32 }
}

/// `point` moved by `(dx, dy)`.
pub fn translate_point(point: Point, dx: i32, dy: i32) -> (r: Point)
    requires
        i32::MIN <= point.x + dx <= i32::MAX,
        i32::MIN <= point.y + dy <= i32::MAX,
    ensures
        r == spec_translate_point(point, dx as int, dy as int),
{
    Point { x: point.x + dx, y: point.y + dy }
}

/// Moving a rectangle by an offset and then by the opposite offset gives it back.
pub proof fn law_translate_rect_roundtrip(r: RectPx, dx: int, dy: int)
    requires
        translate_fits(r, dx, dy),
    ensures
        translate_fits(spec_translate_rect(r, dx, dy), -dx, -dy),
        spec_translate_rect(spec_translate_rect(r, dx, dy), -dx, -dy) == r,
{
}

/// The rectangle `abs` in the client coordinates of a window placed at the
/// origin of `virtual_rect`.
pub fn to_client_rect(abs: RectPx, virtual_rect: RectPx) -> (r: RectPx)
    requires
        translate_fits(abs, -(virtual_rect.left as int), -(virtual_rect.top as int)),
    ensures
        r == spec_translate_rect(abs, -(virtual_rect.left as int), -(virtual_rect.top as int)),
{
    RectPx {
        left: abs.left - virtual_rect.left,
        top: abs.top - virtual_rect.top,
        right: abs.right - virtual_rect.left,
        bottom: abs.bottom - virtual_rect.top,
    }
}

/// The point `abs` in client coordinates of a window placed at `virtual_rect`.
pub fn to_client_point(abs: Point, virtual_rect: RectPx) -> (r: Point)
    requires
        i32::MIN <= abs.x - virtual_rect.left <= i32::MAX,
        i32::MIN <= abs.y - virtual_rect.top <= i32::MAX,
    ensures
        r == spec_translate_point(abs, -(virtual_rect.left as int), -(virtual_rect.top as int)),
{
    Point { x: abs.x - virtual_rect.left, y: abs.y - virtual_rect.top }
}

/// The client point `client` in absolute (virtual desktop) coordinates.
pub fn client_to_abs(client: Point, bounds: RectPx) -> (r: Point)
    requires
        i32::MIN <= bounds.left + client.x <= i32::MAX,
        i32::MIN <= bounds.top + client.y <= i32::MAX,
    ensures
        r == spec_translate_point(client, bounds.left as int, bounds.top as int),
{
    Point { x: bounds.left + client.x, y: bounds.top + client.y }
}

/// `rect` moved by `(-offset_x, -offset_y)`.
pub fn offset_rect(rect: RectPx, offset_x: i32, offset_y: i32) -> (r: RectPx)
    requires
        translate_fits(rect, -(offset_x as int), -(offset_y as int)),
    ensures
        r == spec_translate_rect(rect, -(offset_x as int), -(offset_y as int)),
{
    RectPx {
        left: rect.left - offset_x,
        top: rect.top - offset_y,
        right: rect.right - offset_x,
        bottom: rect.bottom - offset_y,
    }
}

/// `point` moved by `(-offset_x, -offset_y)`.
pub fn offset_point(point: Point, offset_x: i32, offset_y: i32) -> (r: Point)
    requires
        i32::MIN <= point.x - offset_x <= i32::MAX,
        i32::MIN <= point.y - offset_y <= i32::MAX,
    ensures
        r == spec_translate_point(point, -(offset_x as int), -(offset_y as int)),
{
    Point { x: point.x - offset_x, y: point.y - offset_y }
}

/// The client area of a window covering `virtual_rect`.
pub fn client_rect(virtual_rect: RectPx) -> (r: RectPx)
    requires
        i32::MIN <= virtual_rect.spec_width() <= i32::MAX,
        i32::MIN <= virtual_rect.spec_height() <= i32::MAX,
    ensures
        r == (RectPx {
            left: 0,
            top: 0,
            right: virtual_rect.spec_width() as i32,
            bottom: virtual_rect.spec_height() as i32,
        }),
{
    RectPx { left: 0, top: 0, right: virtual_rect.width(), bottom: virtual_rect.height() }
}

/// `rect` shrunk by `dx` on the left and right and by `dy` on the top and bottom.
pub fn inset_rect(rect: RectPx, dx: i32, dy: i32) -> (r: RectPx)
    requires
        i32::MIN <= rect.left + dx <= i32::MAX,
        i32::MIN <= rect.top + dy <= i32::MAX,
        i32::MIN <= rect.right - dx <= i32::MAX,
        i32::MIN <= rect.bottom - dy <= i32::MAX,
    ensures
        r == (RectPx {
            left: (rect.left + dx) as i32,
            top: (rect.top + dy) as i32,
            right: (rect.right - dx) as i32,
            bottom: (rect.bottom - dy) as i32,
        }),
{
    RectPx { left: rect.left + dx, top: rect.top + dy, right: rect.right - dx, bottom: rect.bottom - dy }
}

/// Whether two rectangles differ in any edge.
pub fn rect_changed(a: RectPx, b: RectPx) -> (r: bool)
    ensures
        r == (a != b),
{
    a.left != b.left || a.top != b.top || a.right != b.right || a.bottom != b.bottom
}

pub open spec fn spec_point_in(p: Point, r: RectPx) -> bool {
    p.x >= r.left && p.x < r.right && p.y >= r.top && p.y < r.bottom
}

/// Whether `p` lies in `r` (left and top inclusive, right and bottom exclusive).
pub fn point_in(p: Point, r: RectPx) -> (b: bool)
    ensures
        b == spec_point_in(p, r),
{
    p.x >= r.left && p.x < r.right && p.y >= r.top && p.y < r.bottom
}

pub open spec fn spec_handle_rect(cx: int, cy: int) -> RectPx {
    RectPx {
        left: (cx - HANDLE_SIZE / 2) as i32,
        top: (cy - HANDLE_SIZE / 2) as i32,
        right: (cx - HANDLE_SIZE / 2 + HANDLE_SIZE) as i32,
        bottom: (cy - HANDLE_SIZE / 2 + HANDLE_SIZE) as i32,
    }
}

/// The square handle centred (rounding up-left) on `(cx, cy)`.
pub fn handle_rect(cx: i32, cy: i32) -> (r: RectPx)
    requires
        i32::MIN + HANDLE_SIZE / 2 <= cx <= i32::MAX - HANDLE_SIZE / 2,
        i32::MIN + HANDLE_SIZE / 2 <= cy <= i32::MAX - HANDLE_SIZE / 2,
    ensures
        r == spec_handle_rect(cx as int, cy as int),
{
    let half = HANDLE_SIZE / 2;
    RectPx { left: cx - half, top: cy - half, right: cx - half + HANDLE_SIZE, bottom: cy - half + HANDLE_SIZE }
}

/// The handle kinds in the order `handle_rects` lists them.
pub open spec fn handle_order(i: int) -> ResizeHandle {
    if i == 0 {
        ResizeHandle::NW
    } else if i == 1 {
        ResizeHandle::N
    } else if i == 2 {
        ResizeHandle::NE
    } else if i == 3 {
        ResizeHandle::W
    } else if i == 4 {
        ResizeHandle::E
    } else if i == 5 {
        ResizeHandle::SW
    } else if i == 6 {
        ResizeHandle::S
    } else {
        ResizeHandle::SE
    }
}

/// Quotient of `a / b` as Rust computes it for `b > 0` (rounding towards zero).
pub open spec fn trunc_div(a: int, b: int) -> int
    recommends
        b > 0,
{
    if a >= 0 {
        a / b
    } else {
        -((-a) / b)
    }
}

/// `selection.left + (selection.right - selection.left) / 2` with Rust's division.
fn mid(lo: i32, hi: i32) -> (m: i32)
    requires
        wide_coord_ok(lo as int),
        wide_coord_ok(hi as int),
    ensures
        m == lo + trunc_div(hi - lo, 2),
        wide_coord_ok(m as int),
{
    let d = hi - lo;
    let h = d / 2;
    assert(h == trunc_div(d as int, 2));
    lo + h
}

/// The eight resize handles of `selection`, in the order NW, N, NE, W, E, SW, S, SE.
pub fn handle_rects(selection: RectPx) -> (hs: Vec<(ResizeHandle, RectPx)>)
    requires
        wide_rect_ok(selection),
    ensures
        hs@.len() == 8,
        forall|i: int|
            #![trigger hs@[i]]
            0 <= i < 8 ==> hs@[i].0 == handle_order(i) && hs@[i].1 == spec_handle_rect(
                handle_center_exec(selection, handle_order(i)).0,
                handle_center_exec(selection, handle_order(i)).1,
            ),
{
    let right = selection.right - 1;
    let bottom = selection.bottom - 1;
    let mid_x = mid(selection.left, selection.right);
    let mid_y = mid(selection.top, selection.bottom);
    let mut hs: Vec<(ResizeHandle, RectPx)> = Vec::new();
    hs.push((ResizeHandle::NW, handle_rect(selection.left, selection.top)));
    hs.push((ResizeHandle::N, handle_rect(mid_x, selection.top)));
    hs.push((ResizeHandle::NE, handle_rect(right, selection.top)));
    hs.push((ResizeHandle::W, handle_rect(selection.left, mid_y)));
    hs.push((ResizeHandle::E, handle_rect(right, mid_y)));
    hs.push((ResizeHandle::SW, handle_rect(selection.left, bottom)));
    hs.push((ResizeHandle::S, handle_rect(mid_x, bottom)));
    hs.push((ResizeHandle::SE, handle_rect(right, bottom)));
    hs
}

/// Centre of a handle with the midpoints computed as Rust divides.
pub open spec fn handle_center_exec(s: RectPx, h: ResizeHandle) -> (int, int) {
    let right = s.right - 1;
    let bottom = s.bottom - 1;
    let mid_x = s.left + trunc_div(s.right - s.left, 2);
    let mid_y = s.top + trunc_div(s.bottom - s.top, 2);
    match h {
        ResizeHandle::NW => (s.left as int, s.top as int),
        ResizeHandle::N => (mid_x, s.top as int),
        ResizeHandle::NE => (right, s.top as int),
        ResizeHandle::W => (s.left as int, mid_y),
        ResizeHandle::E => (right, mid_y),
        ResizeHandle::SW => (s.left as int, bottom),
        ResizeHandle::S => (mid_x, bottom),
        ResizeHandle::SE => (right, bottom),
    }
}

/// The first handle (in `handle_rects` order) whose square contains `p`.
pub open spec fn spec_hit_handle(selection: RectPx, p: Point) -> Option<ResizeHandle> {
    spec_hit_handle_from(selection, p, 0)
}

pub open spec fn spec_hit_handle_from(selection: RectPx, p: Point, i: int) -> Option<ResizeHandle>
    decreases 8 - i,
{
    if i >= 8 || i < 0 {
        None
    } else if spec_point_in(
        p,
        spec_handle_rect(
            handle_center_exec(selection, handle_order(i)).0,
            handle_center_exec(selection, handle_order(i)).1,
        ),
    ) {
        Some(handle_order(i))
    } else {
        spec_hit_handle_from(selection, p, i + 1)
    }
}

/// The resize handle of `selection` under `p`, if any.
pub fn hit_handle(selection: RectPx, p: Point) -> (h: Option<ResizeHandle>)
    requires
        wide_rect_ok(selection),
    ensures
        h == spec_hit_handle(selection, p),
{
    let hs = handle_rects(selection);
    let mut i: usize = 0;
    while i < 8
        invariant
            0 <= i <= 8,
            hs@.len() == 8,
            forall|j: int|
                #![trigger hs@[j]]
                0 <= j < 8 ==> hs@[j].0 == handle_order(j) && hs@[j].1 == spec_handle_rect(
                    handle_center_exec(selection, handle_order(j)).0,
                    handle_center_exec(selection, handle_order(j)).1,
                ),
            spec_hit_handle(selection, p) == spec_hit_handle_from(selection, p, i as int),
        decreases 8 - i,
    {
        let (handle, rect) = hs[i];
        if point_in(p, rect) {
            return Some(handle);
        }
        i = i + 1;
    }
    None
}

} // verus!
