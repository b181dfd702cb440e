//! Annotations drawn on a capture, and the integer geometry that moves and
//! resizes them inside the selection.
use vstd::prelude::*;
use crate::glyph::{text_required_size, spec_text_required_size, TEXT_CHARS_LIMIT, TEXT_DEFAULT_H, TEXT_DEFAULT_W};
use crate::geometry::{
    clamp_i32, coord_ok, max_i32, min_i32, point_ok, rect_changed, rect_normalized, rect_ok,
    rect_within, spec_clamp, spec_max, spec_min, spec_translate_point, spec_translate_rect,
    translate_point, translate_rect, Point, RectPx, ResizeHandle, COORD_LIMIT, MIN_SELECTION,
};

verus! {

/// Largest stroke thickness an annotation is drawn with.
pub const MAX_THICKNESS: i32 = 64;

/// Smallest width and height of a boxed annotation.
pub const MIN_RECT: i32 = 3;

/// Which end of a line or marker stroke.
#[derive(Clone, Copy, Debug, PartialEq, Eq, Structural)]
pub enum LineEndpoint {
    Start,
    End,
}

/// An outlined rectangle.
#[derive(Clone, Debug)]
pub struct RectAnn {
    pub rect_abs: RectPx,
    pub color: [u8; 4],
    pub thickness: i32,
}

/// A straight line, with an arrow head at its end when `arrow` is set.
#[derive(Clone, Debug)]
pub struct LineAnn {
    pub start_abs: Point,
    pub end_abs: Point,
    pub color: [u8; 4],
    pub thickness: i32,
    pub arrow: bool,
}

/// An outlined ellipse inscribed in `rect_abs`.
#[derive(Clone, Debug)]
pub struct EllipseAnn {
    pub rect_abs: RectPx,
    pub color: [u8; 4],
    pub thickness: i32,
}

/// A translucent highlighter stroke through `points_abs`.
#[derive(Clone, Debug)]
pub struct MarkerAnn {
    pub points_abs: Vec<Point>,
    pub color: [u8; 4],
    pub thickness: i32,
}

/// A text box.
#[derive(Clone, Debug)]
pub struct TextAnn {
    pub rect_abs: RectPx,
    pub text: String,
    pub color: [u8; 4],
}

/// A pixelated area with square blocks of side `block`.
#[derive(Clone, Debug)]
pub struct PixelateAnn {
    pub rect_abs: RectPx,
    pub block: i32,
}

/// A blurred area.
#[derive(Clone, Debug)]
pub struct BlurAnn {
    pub rect_abs: RectPx,
    pub radius: i32,
}

/// One annotation of the editor.
#[derive(Clone, Debug)]
pub enum Annotation {
    Rectangle(RectAnn),
    Ellipse(EllipseAnn),
    Line(LineAnn),
    Marker(MarkerAnn),
    Text(TextAnn),
    Pixelate(PixelateAnn),
    Blur(BlurAnn),
}

pub open spec fn thickness_ok(t: i32) -> bool {
    0 <= t <= MAX_THICKNESS
}

pub open spec fn box_ok(r: RectPx) -> bool {
    rect_ok(r) && rect_normalized(r)
}

/// Every coordinate of the annotation is a valid screen coordinate.
/// The content of an annotation: its kind, geometry and style.
pub enum AnnView {
    Rectangle { rect: RectPx, color: [u8; 4], thickness: i32 },
    Ellipse { rect: RectPx, color: [u8; 4], thickness: i32 },
    Line { start: Point, end: Point, color: [u8; 4], thickness: i32, arrow: bool },
    Marker { points: Seq<Point>, color: [u8; 4], thickness: i32 },
    Text { rect: RectPx, text: Seq<char>, color: [u8; 4] },
    Pixelate { rect: RectPx, block: i32 },
    Blur { rect: RectPx, radius: i32 },
}

impl View for Annotation {
    type V = AnnView;

    open spec fn view(&self) -> AnnView {
        match self {
            Annotation::Rectangle(r) => AnnView::Rectangle { rect: r.rect_abs, color: r.color, thickness: r.thickness },
            Annotation::Ellipse(e) => AnnView::Ellipse { rect: e.rect_abs, color: e.color, thickness: e.thickness },
            Annotation::Line(l) => AnnView::Line {
                start: l.start_abs,
                end: l.end_abs,
                color: l.color,
                thickness: l.thickness,
                arrow: l.arrow,
            },
            Annotation::Marker(m) => AnnView::Marker { points: m.points_abs@, color: m.color, thickness: m.thickness },
            Annotation::Text(t) => AnnView::Text { rect: t.rect_abs, text: t.text@, color: t.color },
            Annotation::Pixelate(p) => AnnView::Pixelate { rect: p.rect_abs, block: p.block },
            Annotation::Blur(b) => AnnView::Blur { rect: b.rect_abs, radius: b.radius },
        }
    }
}

/// Every coordinate of the annotation is a valid screen coordinate.
pub open spec fn ann_ok(a: AnnView) -> bool {
    match a {
        AnnView::Rectangle { rect, thickness, .. } => box_ok(rect) && thickness_ok(thickness),
        AnnView::Ellipse { rect, thickness, .. } => box_ok(rect) && thickness_ok(thickness),
        AnnView::Line { start, end, thickness, .. } => point_ok(start) && point_ok(end) && thickness_ok(thickness),
        AnnView::Marker { points, thickness, .. } => points_ok(points) && thickness_ok(thickness),
        AnnView::Text { rect, text, .. } => box_ok(rect) && text.len() <= TEXT_CHARS_LIMIT,
        AnnView::Pixelate { rect, .. } => box_ok(rect),
        AnnView::Blur { rect, .. } => box_ok(rect),
    }
}

pub open spec fn moves_left(h: ResizeHandle) -> bool {
    h == ResizeHandle::NW || h == ResizeHandle::W || h == ResizeHandle::SW
}

pub open spec fn moves_right(h: ResizeHandle) -> bool {
    h == ResizeHandle::NE || h == ResizeHandle::E || h == ResizeHandle::SE
}

pub open spec fn moves_top(h: ResizeHandle) -> bool {
    h == ResizeHandle::NW || h == ResizeHandle::N || h == ResizeHandle::NE
}

pub open spec fn moves_bottom(h: ResizeHandle) -> bool {
    h == ResizeHandle::SW || h == ResizeHandle::S || h == ResizeHandle::SE
}

/// The inputs on which dragging `handle` of `start` inside `bounds` is defined:
/// the edge that moves has room for a selection of the minimum size.
pub open spec fn resize_pre(handle: ResizeHandle, start: RectPx, bounds: RectPx) -> bool {
    &&& moves_left(handle) ==> bounds.left <= start.right - MIN_SELECTION
    &&& moves_right(handle) ==> start.left + MIN_SELECTION <= bounds.right
    &&& moves_top(handle) ==> bounds.top <= start.bottom - MIN_SELECTION
    &&& moves_bottom(handle) ==> start.top + MIN_SELECTION <= bounds.bottom
}

/// `start` with the edges of `handle` moved by the pointer's travel from
/// `start_pt` to `current`, each moving edge kept inside `bounds` and at least
/// `MIN_SELECTION` away from the opposite edge.
pub open spec fn spec_resize_selection(
    handle: ResizeHandle,
    start: RectPx,
    start_pt: Point,
    current: Point,
    bounds: RectPx,
) -> RectPx {
    let dx = current.x - start_pt.x;
    let dy = current.y - start_pt.y;
    let left = if moves_left(handle) {
        spec_clamp(start.left + dx, bounds.left as int, start.right - MIN_SELECTION)
    } else {
        start.left as int
    };
    let right = if moves_right(handle) {
        spec_clamp(start.right + dx, left + MIN_SELECTION, bounds.right as int)
    } else {
        start.right as int
    };
    let top = if moves_top(handle) {
        spec_clamp(start.top + dy, bounds.top as int, start.bottom - MIN_SELECTION)
    } else {
        start.top as int
    };
    let bottom = if moves_bottom(handle) {
        spec_clamp(start.bottom + dy, top + MIN_SELECTION, bounds.bottom as int)
    } else {
        start.bottom as int
    };
    RectPx { left: left as i32, top: top as i32, right: right as i32, bottom: bottom as i32 }
}

fn handle_moves_left(h: ResizeHandle) -> (b: bool)
    ensures
        b == moves_left(h),
{
    match h {
        ResizeHandle::NW | ResizeHandle::W | ResizeHandle::SW => true,
        _ => false,
    }
}

fn handle_moves_right(h: ResizeHandle) -> (b: bool)
    ensures
        b == moves_right(h),
{
    match h {
        ResizeHandle::NE | ResizeHandle::E | ResizeHandle::SE => true,
        _ => false,
    }
}

fn handle_moves_top(h: ResizeHandle) -> (b: bool)
    ensures
        b == moves_top(h),
{
    match h {
        ResizeHandle::NW | ResizeHandle::N | ResizeHandle::NE => true,
        _ => false,
    }
}

fn handle_moves_bottom(h: ResizeHandle) -> (b: bool)
    ensures
        b == moves_bottom(h),
{
    match h {
        ResizeHandle::SW | ResizeHandle::S | ResizeHandle::SE => true,
        _ => false,
    }
}

/// The rectangle that dragging `handle` from `start_pt` to `current` makes of `start`.
pub fn resize_selection(
    handle: ResizeHandle,
    start: RectPx,
    start_pt: Point,
    current: Point,
    bounds: RectPx,
) -> (r: RectPx)
    requires
        rect_ok(start),
        rect_ok(bounds),
        point_ok(start_pt),
        point_ok(current),
        resize_pre(handle, start, bounds),
    ensures
        r == spec_resize_selection(handle, start, start_pt, current, bounds),
        rect_ok(r),
{
    let dx = current.x - start_pt.x;
    let dy = current.y - start_pt.y;
    let mut left = start.left;
    let mut right = start.right;
    let mut top = start.top;
    let mut bottom = start.bottom;
    if handle_moves_left(handle) {
        left = clamp_i32(start.left + dx, bounds.left, right - MIN_SELECTION);
    }
    if handle_moves_right(handle) {
        right = clamp_i32(start.right + dx, left + MIN_SELECTION, bounds.right);
    }
    if handle_moves_top(handle) {
        top = clamp_i32(start.top + dy, bounds.top, bottom - MIN_SELECTION);
    }
    if handle_moves_bottom(handle) {
        bottom = clamp_i32(start.bottom + dy, top + MIN_SELECTION, bounds.bottom);
    }
    RectPx { left, top, right, bottom }
}

/// `rect` clamped into `bounds`, with swapped edges put in order and a side
/// shorter than `MIN_SELECTION` grown back to it as far as `bounds` allow.
pub open spec fn spec_clamp_rect(rect: RectPx, bounds: RectPx) -> RectPx {
    let l0 = spec_clamp(rect.left as int, bounds.left as int, bounds.right as int);
    let t0 = spec_clamp(rect.top as int, bounds.top as int, bounds.bottom as int);
    let r0 = spec_clamp(rect.right as int, bounds.left as int, bounds.right as int);
    let b0 = spec_clamp(rect.bottom as int, bounds.top as int, bounds.bottom as int);
    let l1 = spec_min(l0, r0);
    let r1 = spec_max(l0, r0);
    let t1 = spec_min(t0, b0);
    let b1 = spec_max(t0, b0);
    let r2 = if r1 - l1 < MIN_SELECTION { spec_min(l1 + MIN_SELECTION, bounds.right as int) } else { r1 };
    let l2 = if r1 - l1 < MIN_SELECTION { spec_max(r2 - MIN_SELECTION, bounds.left as int) } else { l1 };
    let b2 = if b1 - t1 < MIN_SELECTION { spec_min(t1 + MIN_SELECTION, bounds.bottom as int) } else { b1 };
    let t2 = if b1 - t1 < MIN_SELECTION { spec_max(b2 - MIN_SELECTION, bounds.top as int) } else { t1 };
    RectPx { left: l2 as i32, top: t2 as i32, right: r2 as i32, bottom: b2 as i32 }
}

/// `rect` brought inside `bounds`.
pub fn clamp_rect(rect: RectPx, bounds: RectPx) -> (r: RectPx)
    requires
        box_ok(bounds),
    ensures
        r == spec_clamp_rect(rect, bounds),
        rect_normalized(r),
        rect_within(r, bounds),
{
    let mut left = clamp_i32(rect.left, bounds.left, bounds.right);
    let mut top = clamp_i32(rect.top, bounds.top, bounds.bottom);
    let mut right = clamp_i32(rect.right, bounds.left, bounds.right);
    let mut bottom = clamp_i32(rect.bottom, bounds.top, bounds.bottom);
    if right < left {
        let tmp = left;
        left = right;
        right = tmp;
    }
    if bottom < top {
        let tmp = top;
        top = bottom;
        bottom = tmp;
    }
    if right - left < MIN_SELECTION {
        right = min_i32(left + MIN_SELECTION, bounds.right);
        left = max_i32(right - MIN_SELECTION, bounds.left);
    }
    if bottom - top < MIN_SELECTION {
        bottom = min_i32(top + MIN_SELECTION, bounds.bottom);
        top = max_i32(bottom - MIN_SELECTION, bounds.top);
    }
    RectPx { left, top, right, bottom }
}

pub open spec fn spec_signum(v: int) -> int {
    if v > 0 {
        1
    } else if v < 0 {
        -1
    } else {
        0
    }
}

pub open spec fn spec_abs(v: int) -> int {
    if v < 0 {
        -v
    } else {
        v
    }
}

/// A coordinate of a point that may lie somewhat off the screen.
pub open spec fn loose_coord_ok(v: int) -> bool {
    -0x4000_0000 <= v <= 0x4000_0000
}

pub open spec fn loose_point_ok(p: Point) -> bool {
    loose_coord_ok(p.x as int) && loose_coord_ok(p.y as int)
}

/// The corner, seen from `origin`, of the square whose side is the longer
/// axis of `raw - origin`; an axis on which `raw` does not move takes its
/// direction from `fallback`. `raw` itself when it equals `origin`.
pub open spec fn spec_constrain_equal_axes(origin: Point, raw: Point, fallback: Point) -> Point {
    let dx = raw.x - origin.x;
    let dy = raw.y - origin.y;
    if dx == 0 && dy == 0 {
        raw
    } else {
        let side = spec_max(spec_abs(dx), spec_abs(dy));
        let sx = if dx != 0 { spec_signum(dx) } else if fallback.x - origin.x < 0 { -1 } else { 1 };
        let sy = if dy != 0 { spec_signum(dy) } else if fallback.y - origin.y < 0 { -1 } else { 1 };
        Point {
            x: (if sx < 0 { origin.x - side } else { origin.x + side }) as i32,
            y: (if sy < 0 { origin.y - side } else { origin.y + side }) as i32,
        }
    }
}

/// The point that makes the rectangle from `origin` a square (shift-drag of an ellipse).
pub fn constrain_equal_axes(origin: Point, raw: Point, fallback: Point) -> (r: Point)
    requires
        point_ok(origin),
        point_ok(raw),
        loose_point_ok(fallback),
    ensures
        r == spec_constrain_equal_axes(origin, raw, fallback),
        loose_point_ok(r),
{
    let dx = raw.x - origin.x;
    let dy = raw.y - origin.y;
    if dx == 0 && dy == 0 {
        return raw;
    }
    let adx = if dx < 0 { -dx } else { dx };
    let ady = if dy < 0 { -dy } else { dy };
    let side = max_i32(adx, ady);
    let fdx = fallback.x - origin.x;
    let fdy = fallback.y - origin.y;
    let sx: i32 = if dx > 0 { 1 } else if dx < 0 { -1 } else if fdx < 0 { -1 } else { 1 };
    let sy: i32 = if dy > 0 { 1 } else if dy < 0 { -1 } else if fdy < 0 { -1 } else { 1 };
    let ox = if sx < 0 { origin.x - side } else { origin.x + side };
    let oy = if sy < 0 { origin.y - side } else { origin.y + side };
    Point { x: ox, y: oy }
}

/// A shift-drag spans a square: the constrained corner is as far from the
/// origin across as down, on the side the pointer moved to (or not moved
/// at all when the pointer is at the origin).
pub proof fn law_constrained_ellipse_is_square(origin: Point, raw: Point, fallback: Point)
    requires
        point_ok(origin),
        point_ok(raw),
    ensures
        ({
            let r = spec_constrain_equal_axes(origin, raw, fallback);
            &&& spec_abs(r.x - origin.x) == spec_abs(r.y - origin.y)
            &&& spec_abs(r.x - origin.x) == spec_max(spec_abs(raw.x - origin.x), spec_abs(raw.y - origin.y))
            &&& (raw.x - origin.x) * (r.x - origin.x) >= 0
            &&& (raw.y - origin.y) * (r.y - origin.y) >= 0
        }),
{
    let dx = raw.x - origin.x;
    let dy = raw.y - origin.y;
    let r = spec_constrain_equal_axes(origin, raw, fallback);
    if !(dx == 0 && dy == 0) {
        let side = spec_max(spec_abs(dx), spec_abs(dy));
        assert((raw.x - origin.x) * (r.x - origin.x) >= 0) by (nonlinear_arith)
            requires
                dx == raw.x - origin.x,
                dx > 0 ==> r.x - origin.x == side,
                dx < 0 ==> r.x - origin.x == -side,
                side >= 0,
        ;
        assert((raw.y - origin.y) * (r.y - origin.y) >= 0) by (nonlinear_arith)
            requires
                dy == raw.y - origin.y,
                dy > 0 ==> r.y - origin.y == side,
                dy < 0 ==> r.y - origin.y == -side,
                side >= 0,
        ;
    }
}


/// `p.y` when `vertical`, else `p.x`.
pub open spec fn axis(p: Point, vertical: bool) -> int {
    if vertical {
        p.y as int
    } else {
        p.x as int
    }
}

/// Smallest coordinate on one axis over a non-empty sequence of points.
pub open spec fn seq_min_axis(s: Seq<Point>, vertical: bool) -> int
    decreases s.len(),
{
    if s.len() <= 1 {
        axis(s[0], vertical)
    } else {
        spec_min(seq_min_axis(s.drop_last(), vertical), axis(s.last(), vertical))
    }
}

/// Largest coordinate on one axis over a non-empty sequence of points.
pub open spec fn seq_max_axis(s: Seq<Point>, vertical: bool) -> int
    decreases s.len(),
{
    if s.len() <= 1 {
        axis(s[0], vertical)
    } else {
        spec_max(seq_max_axis(s.drop_last(), vertical), axis(s.last(), vertical))
    }
}

/// Padding around a stroke of the given thickness.
pub open spec fn spec_pad(thickness: i32) -> int {
    spec_max(thickness as int, 1)
}

/// Bounding box of a marker stroke, padded by its thickness; `None` without points.
pub open spec fn spec_marker_bounds(points: Seq<Point>, thickness: i32) -> Option<RectPx> {
    if points.len() == 0 {
        None
    } else {
        let pad = spec_pad(thickness);
        Some(
            RectPx {
                left: (seq_min_axis(points, false) - pad) as i32,
                top: (seq_min_axis(points, true) - pad) as i32,
                right: (seq_max_axis(points, false) + pad + 1) as i32,
                bottom: (seq_max_axis(points, true) + pad + 1) as i32,
            },
        )
    }
}

pub open spec fn points_ok(s: Seq<Point>) -> bool {
    forall|i: int| 0 <= i < s.len() ==> #[trigger] point_ok(s[i])
}

/// Every point lies between the extremes, and the extremes are valid coordinates.
pub proof fn lemma_axis_extremes(s: Seq<Point>, vertical: bool)
    requires
        s.len() > 0,
        points_ok(s),
    ensures
        coord_ok(seq_min_axis(s, vertical)),
        coord_ok(seq_max_axis(s, vertical)),
        forall|j: int|
            0 <= j < s.len() ==> seq_min_axis(s, vertical) <= #[trigger] axis(s[j], vertical) <= seq_max_axis(
                s,
                vertical,
            ),
    decreases s.len(),
{
    assert(point_ok(s[0]));
    if s.len() > 1 {
        let d = s.drop_last();
        assert forall|i: int| 0 <= i < d.len() implies #[trigger] point_ok(d[i]) by {
            assert(point_ok(s[i]));
        }
        lemma_axis_extremes(d, vertical);
        assert(point_ok(s[s.len() - 1]));
        assert forall|j: int| 0 <= j < s.len() implies seq_min_axis(s, vertical) <= #[trigger] axis(
            s[j],
            vertical,
        ) <= seq_max_axis(s, vertical) by {
            if j < s.len() - 1 {
                assert(d[j] == s[j]);
            }
        }
    }
}

proof fn lemma_prefix_step(s: Seq<Point>, i: int)
    requires
        1 <= i < s.len(),
    ensures
        s.subrange(0, i + 1).drop_last() =~= s.subrange(0, i),
        s.subrange(0, i + 1).last() == s[i],
        s.subrange(0, i + 1).len() > 1,
{
}

/// Bounding box of a marker stroke, padded by its thickness.
pub fn marker_bounds(marker: &MarkerAnn) -> (r: Option<RectPx>)
    requires
        points_ok(marker.points_abs@),
        thickness_ok(marker.thickness),
    ensures
        r == spec_marker_bounds(marker.points_abs@, marker.thickness),
{
    let pts = &marker.points_abs;
    if pts.len() == 0 {
        return None;
    }
    let ghost s = pts@;
    let first = pts[0];
    let mut left = first.x;
    let mut top = first.y;
    let mut right = first.x;
    let mut bottom = first.y;
    let mut i: usize = 1;
    assert(s.subrange(0, 1).len() == 1);
    while i < pts.len()
        invariant
            s == pts@,
            1 <= i <= s.len(),
            left == seq_min_axis(s.subrange(0, i as int), false),
            top == seq_min_axis(s.subrange(0, i as int), true),
            right == seq_max_axis(s.subrange(0, i as int), false),
            bottom == seq_max_axis(s.subrange(0, i as int), true),
        decreases s.len() - i,
    {
        let p = pts[i];
        proof {
            lemma_prefix_step(s, i as int);
        }
        left = min_i32(left, p.x);
        top = min_i32(top, p.y);
        right = max_i32(right, p.x);
        bottom = max_i32(bottom, p.y);
        i = i + 1;
    }
    assert(s.subrange(0, s.len() as int) =~= s);
    proof {
        lemma_axis_extremes(s, false);
        lemma_axis_extremes(s, true);
    }
    let pad = max_i32(marker.thickness, 1);
    Some(RectPx { left: left - pad, top: top - pad, right: right + pad + 1, bottom: bottom + pad + 1 })
}


/// The area an annotation covers: its box, or for strokes the box of their
/// points padded by the thickness (a line's box reaches one pixel further
/// right and down).
pub open spec fn spec_annotation_bounds(a: AnnView) -> Option<RectPx> {
    match a {
        AnnView::Rectangle { rect, .. } => Some(rect),
        AnnView::Ellipse { rect, .. } => Some(rect),
        AnnView::Line { start, end, thickness, .. } => {
            let pad = spec_pad(thickness);
            Some(
                RectPx {
                    left: (spec_min(start.x as int, end.x as int) - pad) as i32,
                    top: (spec_min(start.y as int, end.y as int) - pad) as i32,
                    right: (spec_max(start.x as int, end.x as int) + pad + 1) as i32,
                    bottom: (spec_max(start.y as int, end.y as int) + pad + 1) as i32,
                },
            )
        },
        AnnView::Marker { points, thickness, .. } => spec_marker_bounds(points, thickness),
        AnnView::Text { rect, .. } => Some(rect),
        AnnView::Pixelate { rect, .. } => Some(rect),
        AnnView::Blur { rect, .. } => Some(rect),
    }
}

/// The area an annotation covers, used to keep it inside the selection when it moves.
pub fn annotation_bounds_abs(annotation: &Annotation) -> (r: Option<RectPx>)
    requires
        ann_ok(annotation@),
    ensures
        r == spec_annotation_bounds(annotation@),
{
    match annotation {
        Annotation::Rectangle(rect) => Some(rect.rect_abs),
        Annotation::Ellipse(ellipse) => Some(ellipse.rect_abs),
        Annotation::Line(line) => {
            let pad = max_i32(line.thickness, 1);
            Some(
                RectPx {
                    left: min_i32(line.start_abs.x, line.end_abs.x) - pad,
                    top: min_i32(line.start_abs.y, line.end_abs.y) - pad,
                    right: max_i32(line.start_abs.x, line.end_abs.x) + pad + 1,
                    bottom: max_i32(line.start_abs.y, line.end_abs.y) + pad + 1,
                },
            )
        },
        Annotation::Marker(marker) => marker_bounds(marker),
        Annotation::Text(text) => Some(text.rect_abs),
        Annotation::Pixelate(pixelate) => Some(pixelate.rect_abs),
        Annotation::Blur(blur) => Some(blur.rect_abs),
    }
}

/// The box that resize handles act on; lines and markers have none.
pub open spec fn spec_resize_rect(a: AnnView) -> Option<RectPx> {
    match a {
        AnnView::Rectangle { rect, .. } => Some(rect),
        AnnView::Ellipse { rect, .. } => Some(rect),
        AnnView::Text { rect, .. } => Some(rect),
        AnnView::Pixelate { rect, .. } => Some(rect),
        AnnView::Blur { rect, .. } => Some(rect),
        AnnView::Line { .. } | AnnView::Marker { .. } => None,
    }
}

/// The box that resize handles act on.
pub fn annotation_resize_rect_abs(annotation: &Annotation) -> (r: Option<RectPx>)
    ensures
        r == spec_resize_rect(annotation@),
{
    match annotation {
        Annotation::Rectangle(rect) => Some(rect.rect_abs),
        Annotation::Ellipse(ellipse) => Some(ellipse.rect_abs),
        Annotation::Text(text) => Some(text.rect_abs),
        Annotation::Pixelate(pixelate) => Some(pixelate.rect_abs),
        Annotation::Blur(blur) => Some(blur.rect_abs),
        Annotation::Line(_) | Annotation::Marker(_) => None,
    }
}

/// `a` with its resize box replaced by `rect` (unchanged for lines and markers).
pub open spec fn spec_with_rect(a: AnnView, rect: RectPx) -> AnnView {
    match a {
        AnnView::Rectangle { color, thickness, .. } => AnnView::Rectangle { rect, color, thickness },
        AnnView::Ellipse { color, thickness, .. } => AnnView::Ellipse { rect, color, thickness },
        AnnView::Text { text, color, .. } => AnnView::Text { rect, text, color },
        AnnView::Pixelate { block, .. } => AnnView::Pixelate { rect, block },
        AnnView::Blur { radius, .. } => AnnView::Blur { rect, radius },
        AnnView::Line { .. } | AnnView::Marker { .. } => a,
    }
}

/// Gives a boxed annotation the box `rect`; false, and nothing changed, when
/// it has no box or already has that one.
pub fn set_annotation_resize_rect(annotation: &mut Annotation, rect: RectPx) -> (changed: bool)
    ensures
        changed == (spec_resize_rect(old(annotation)@) matches Some(r) && r != rect),
        final(annotation)@ == if changed { spec_with_rect(old(annotation)@, rect) } else { old(annotation)@ },
{
    match annotation {
        Annotation::Rectangle(ann) => {
            if !rect_changed(ann.rect_abs, rect) {
                return false;
            }
            ann.rect_abs = rect;
            true
        },
        Annotation::Ellipse(ann) => {
            if !rect_changed(ann.rect_abs, rect) {
                return false;
            }
            ann.rect_abs = rect;
            true
        },
        Annotation::Text(ann) => {
            if !rect_changed(ann.rect_abs, rect) {
                return false;
            }
            ann.rect_abs = rect;
            true
        },
        Annotation::Pixelate(ann) => {
            if !rect_changed(ann.rect_abs, rect) {
                return false;
            }
            ann.rect_abs = rect;
            true
        },
        Annotation::Blur(ann) => {
            if !rect_changed(ann.rect_abs, rect) {
                return false;
            }
            ann.rect_abs = rect;
            true
        },
        Annotation::Line(_) | Annotation::Marker(_) => false,
    }
}


/// `a` moved by `(dx, dy)`: every box and point shifted, all else kept.
pub open spec fn spec_translate_ann(a: AnnView, dx: int, dy: int) -> AnnView {
    match a {
        AnnView::Rectangle { rect, color, thickness } => AnnView::Rectangle {
            rect: spec_translate_rect(rect, dx, dy),
            color,
            thickness,
        },
        AnnView::Ellipse { rect, color, thickness } => AnnView::Ellipse {
            rect: spec_translate_rect(rect, dx, dy),
            color,
            thickness,
        },
        AnnView::Line { start, end, color, thickness, arrow } => AnnView::Line {
            start: spec_translate_point(start, dx, dy),
            end: spec_translate_point(end, dx, dy),
            color,
            thickness,
            arrow,
        },
        AnnView::Marker { points, color, thickness } => AnnView::Marker {
            points: points.map_values(|p: Point| spec_translate_point(p, dx, dy)),
            color,
            thickness,
        },
        AnnView::Text { rect, text, color } => AnnView::Text { rect: spec_translate_rect(rect, dx, dy), text, color },
        AnnView::Pixelate { rect, block } => AnnView::Pixelate { rect: spec_translate_rect(rect, dx, dy), block },
        AnnView::Blur { rect, radius } => AnnView::Blur { rect: spec_translate_rect(rect, dx, dy), radius },
    }
}

/// The bounds of `a`, moved by `(dx, dy)`, lie inside `area`.
pub open spec fn moved_bounds_within(a: AnnView, dx: int, dy: int, area: RectPx) -> bool {
    spec_annotation_bounds(a) matches Some(b) && {
        &&& area.left <= b.left + dx
        &&& b.right + dx <= area.right
        &&& area.top <= b.top + dy
        &&& b.bottom + dy <= area.bottom
    }
}

proof fn lemma_moved_point_ok(p: Point, dx: int, dy: int, area: RectPx)
    requires
        box_ok(area),
        area.left <= p.x + dx <= area.right,
        area.top <= p.y + dy <= area.bottom,
    ensures
        point_ok(spec_translate_point(p, dx, dy)),
{
}

/// Moves every box and point of `a` by `(dx, dy)`; its moved bounds lie in `area`.
pub(crate) fn translate_annotation(a: &mut Annotation, dx: i32, dy: i32, area: RectPx)
    requires
        ann_ok(old(a)@),
        box_ok(area),
        moved_bounds_within(old(a)@, dx as int, dy as int, area),
    ensures
        final(a)@ == spec_translate_ann(old(a)@, dx as int, dy as int),
        ann_ok(final(a)@),
{
    match a {
        Annotation::Rectangle(rect) => {
            rect.rect_abs = translate_rect(rect.rect_abs, dx, dy);
        },
        Annotation::Ellipse(ellipse) => {
            ellipse.rect_abs = translate_rect(ellipse.rect_abs, dx, dy);
        },
        Annotation::Line(line) => {
            proof {
                lemma_moved_point_ok(line.start_abs, dx as int, dy as int, area);
                lemma_moved_point_ok(line.end_abs, dx as int, dy as int, area);
            }
            line.start_abs = translate_point(line.start_abs, dx, dy);
            line.end_abs = translate_point(line.end_abs, dx, dy);
        },
        Annotation::Marker(marker) => {
            let ghost orig = marker.points_abs@;
            let ghost color = marker.color;
            let ghost thickness = marker.thickness;
            proof {
                lemma_axis_extremes(orig, false);
                lemma_axis_extremes(orig, true);
            }
            let mut i: usize = 0;
            while i < marker.points_abs.len()
                invariant
                    marker.color == color,
                    marker.thickness == thickness,
                    thickness_ok(thickness),
                    orig.len() == marker.points_abs@.len(),
                    points_ok(orig),
                    orig.len() > 0,
                    box_ok(area),
                    0 <= i <= orig.len(),
                    area.left + spec_pad(marker.thickness) <= seq_min_axis(orig, false) + dx,
                    seq_max_axis(orig, false) + spec_pad(marker.thickness) + 1 + dx <= area.right,
                    area.top + spec_pad(marker.thickness) <= seq_min_axis(orig, true) + dy,
                    seq_max_axis(orig, true) + spec_pad(marker.thickness) + 1 + dy <= area.bottom,
                    forall|j: int| 0 <= j < orig.len() ==> seq_min_axis(orig, false) <= #[trigger] axis(orig[j], false) <= seq_max_axis(orig, false),
                    forall|j: int| 0 <= j < orig.len() ==> seq_min_axis(orig, true) <= #[trigger] axis(orig[j], true) <= seq_max_axis(orig, true),
                    forall|j: int| 0 <= j < i ==> marker.points_abs@[j] == spec_translate_point(orig[j], dx as int, dy as int),
                    forall|j: int| i <= j < orig.len() ==> marker.points_abs@[j] == orig[j],
                    forall|j: int| 0 <= j < i ==> #[trigger] point_ok(marker.points_abs@[j]),
                decreases orig.len() - i,
            {
                let p = marker.points_abs[i];
                assert(axis(orig[i as int], false) == p.x);
                assert(axis(orig[i as int], true) == p.y);
                proof {
                    lemma_moved_point_ok(p, dx as int, dy as int, area);
                }
                marker.points_abs.set(i, translate_point(p, dx, dy));
                i = i + 1;
            }
            assert(marker.points_abs@ =~= orig.map_values(|p: Point| spec_translate_point(p, dx as int, dy as int)));
        },
        Annotation::Text(text) => {
            text.rect_abs = translate_rect(text.rect_abs, dx, dy);
        },
        Annotation::Pixelate(pixelate) => {
            pixelate.rect_abs = translate_rect(pixelate.rect_abs, dx, dy);
        },
        Annotation::Blur(blur) => {
            blur.rect_abs = translate_rect(blur.rect_abs, dx, dy);
        },
    }
}


/// Size of an empty text box.
pub open spec fn empty_text_size() -> (int, int) {
    spec_text_required_size(Seq::<char>::empty())
}

/// The box that a click at `origin` creates for new text: the default size
/// (at most the size of `bounds`), moved as little as needed to lie in `bounds`.
pub open spec fn spec_default_text_rect_at(origin: Point, bounds: RectPx) -> RectPx {
    let width = spec_min(spec_max(empty_text_size().0, TEXT_DEFAULT_W as int), spec_max(bounds.right - bounds.left, MIN_RECT as int));
    let height = spec_min(spec_max(empty_text_size().1, TEXT_DEFAULT_H as int), spec_max(bounds.bottom - bounds.top, MIN_RECT as int));
    let left = spec_clamp(origin.x as int, bounds.left as int, bounds.right - width);
    let top = spec_clamp(origin.y as int, bounds.top as int, bounds.bottom - height);
    RectPx { left: left as i32, top: top as i32, right: (left + width) as i32, bottom: (top + height) as i32 }
}

/// A new text box at `origin` inside `bounds`.
pub fn default_text_rect_at(origin: Point, bounds: RectPx) -> (r: RectPx)
    requires
        box_ok(bounds),
        bounds.right - bounds.left >= MIN_RECT,
        bounds.bottom - bounds.top >= MIN_RECT,
    ensures
        r == spec_default_text_rect_at(origin, bounds),
        box_ok(r),
        rect_within(r, bounds),
{
    proof {
        reveal_strlit("");
        assert(""@ =~= Seq::<char>::empty());
    }
    let (fit_w, fit_h) = text_required_size("");
    let width = min_i32(max_i32(fit_w, TEXT_DEFAULT_W), max_i32(bounds.right - bounds.left, MIN_RECT));
    let height = min_i32(max_i32(fit_h, TEXT_DEFAULT_H), max_i32(bounds.bottom - bounds.top, MIN_RECT));
    let left = clamp_i32(origin.x, bounds.left, bounds.right - width);
    let top = clamp_i32(origin.y, bounds.top, bounds.bottom - height);
    RectPx { left, top, right: left + width, bottom: top + height }
}


/// Bounds of a valid annotation stay within a stroke's padding of the screen coordinates.
pub open spec fn bounds_range_ok(b: RectPx) -> bool {
    &&& -COORD_LIMIT - MAX_THICKNESS - 2 <= b.left <= COORD_LIMIT + MAX_THICKNESS + 2
    &&& -COORD_LIMIT - MAX_THICKNESS - 2 <= b.top <= COORD_LIMIT + MAX_THICKNESS + 2
    &&& -COORD_LIMIT - MAX_THICKNESS - 2 <= b.right <= COORD_LIMIT + MAX_THICKNESS + 2
    &&& -COORD_LIMIT - MAX_THICKNESS - 2 <= b.bottom <= COORD_LIMIT + MAX_THICKNESS + 2
}

pub proof fn lemma_bounds_range(a: AnnView)
    requires
        ann_ok(a),
    ensures
        spec_annotation_bounds(a) matches Some(b) ==> bounds_range_ok(b),
{
    if let AnnView::Marker { points, thickness, .. } = a {
        if points.len() > 0 {
            lemma_axis_extremes(points, false);
            lemma_axis_extremes(points, true);
        }
    }
}

/// A stand-in annotation, used while another is taken out of a list.
pub fn placeholder_annotation() -> (a: Annotation)
    ensures
        a@ == (AnnView::Blur { rect: RectPx { left: 0, top: 0, right: 0, bottom: 0 }, radius: 0 }),
{
    Annotation::Blur(BlurAnn { rect_abs: RectPx { left: 0, top: 0, right: 0, bottom: 0 }, radius: 0 })
}


proof fn lemma_translate_extremes(s: Seq<Point>, dx: int, dy: int, vertical: bool)
    requires
        s.len() > 0,
        points_ok(s),
        -0x4000_0000 <= dx <= 0x4000_0000,
        -0x4000_0000 <= dy <= 0x4000_0000,
    ensures
        seq_min_axis(s.map_values(|p: Point| spec_translate_point(p, dx, dy)), vertical) == seq_min_axis(s, vertical)
            + if vertical { dy } else { dx },
        seq_max_axis(s.map_values(|p: Point| spec_translate_point(p, dx, dy)), vertical) == seq_max_axis(s, vertical)
            + if vertical { dy } else { dx },
    decreases s.len(),
{
    let m = s.map_values(|p: Point| spec_translate_point(p, dx, dy));
    assert(point_ok(s.last()));
    assert(point_ok(s[0]));
    assert(axis(m.last(), vertical) == axis(s.last(), vertical) + if vertical { dy } else { dx });
    assert(axis(m[0], vertical) == axis(s[0], vertical) + if vertical { dy } else { dx });
    if s.len() > 1 {
        let d = s.drop_last();
        assert(m.drop_last() =~= d.map_values(|p: Point| spec_translate_point(p, dx, dy)));
        assert forall|i: int| 0 <= i < d.len() implies #[trigger] point_ok(d[i]) by {
            assert(point_ok(s[i]));
        }
        lemma_translate_extremes(d, dx, dy, vertical);
    }
}

/// Moving a valid annotation whose moved bounds stay within a screen area
/// moves its bounds by the same offset.
pub proof fn lemma_translate_bounds(a: AnnView, dx: int, dy: int, area: RectPx)
    requires
        ann_ok(a),
        box_ok(area),
        moved_bounds_within(a, dx, dy, area),
    ensures
        spec_annotation_bounds(spec_translate_ann(a, dx, dy)) == Some(
            spec_translate_rect(spec_annotation_bounds(a)->0, dx, dy),
        ),
{
    lemma_bounds_range(a);
    if let AnnView::Marker { points, thickness, .. } = a {
        lemma_axis_extremes(points, false);
        lemma_axis_extremes(points, true);
        lemma_translate_extremes(points, dx, dy, false);
        lemma_translate_extremes(points, dx, dy, true);
    }
}

} // verus!
