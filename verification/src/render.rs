//! The drawing plan that burns an edit's annotations into the captured
//! image: each annotation moved from desktop pixels into the image's own
//! pixels and broken into the primitives that draw it, in order.
use vstd::prelude::*;
use crate::annotation::{AnnView, Annotation};
use crate::editor::{ann_views, RegionEditResult};
use crate::geometry::{Point, RectPx};

verus! {

/// One primitive drawn on the image, in image pixels.
#[derive(Debug)]
pub enum DrawOp {
    /// A rectangle's outline.
    RectOutline { rect: RectPx, color: [u8; 4], thickness: i32 },
    /// An ellipse's outline, inscribed in `rect`.
    EllipseOutline { rect: RectPx, color: [u8; 4], thickness: i32 },
    /// A thick line segment.
    Line { start: Point, end: Point, color: [u8; 4], thickness: i32 },
    /// The two strokes of an arrow head at `end`, pointing away from `start`.
    ArrowHead { start: Point, end: Point, color: [u8; 4], thickness: i32 },
    /// Text in the 5x7 font inside `rect`.
    Text { rect: RectPx, text: String, color: [u8; 4] },
    /// Pixelation of `rect` with blocks of side `block`.
    Pixelate { rect: RectPx, block: i32 },
    /// A box blur of `rect` with radius `radius`.
    Blur { rect: RectPx, radius: i32 },
}

/// A primitive as plain values.
pub enum DrawOpView {
    RectOutline { rect: RectPx, color: [u8; 4], thickness: i32 },
    EllipseOutline { rect: RectPx, color: [u8; 4], thickness: i32 },
    Line { start: Point, end: Point, color: [u8; 4], thickness: i32 },
    ArrowHead { start: Point, end: Point, color: [u8; 4], thickness: i32 },
    Text { rect: RectPx, text: Seq<char>, color: [u8; 4] },
    Pixelate { rect: RectPx, block: i32 },
    Blur { rect: RectPx, radius: i32 },
}

impl View for DrawOp {
    type V = DrawOpView;

    open spec fn view(&self) -> DrawOpView {
        match self {
            DrawOp::RectOutline { rect, color, thickness } => DrawOpView::RectOutline {
                rect: *rect,
                color: *color,
                thickness: *thickness,
            },
            DrawOp::EllipseOutline { rect, color, thickness } => DrawOpView::EllipseOutline {
                rect: *rect,
                color: *color,
                thickness: *thickness,
            },
            DrawOp::Line { start, end, color, thickness } => DrawOpView::Line {
                start: *start,
                end: *end,
                color: *color,
                thickness: *thickness,
            },
            DrawOp::ArrowHead { start, end, color, thickness } => DrawOpView::ArrowHead {
                start: *start,
                end: *end,
                color: *color,
                thickness: *thickness,
            },
            DrawOp::Text { rect, text, color } => DrawOpView::Text { rect: *rect, text: text@, color: *color },
            DrawOp::Pixelate { rect, block } => DrawOpView::Pixelate { rect: *rect, block: *block },
            DrawOp::Blur { rect, radius } => DrawOpView::Blur { rect: *rect, radius: *radius },
        }
    }
}

pub open spec fn op_views(v: Seq<DrawOp>) -> Seq<DrawOpView> {
    v.map_values(|o: DrawOp| o@)
}

/// `v - o` fits `i32`.
pub open spec fn diff_fits(v: i32, o: i32) -> bool {
    i32::MIN <= v - o <= i32::MAX
}

pub open spec fn rect_shift_fits(r: RectPx, b: RectPx) -> bool {
    &&& diff_fits(r.left, b.left)
    &&& diff_fits(r.top, b.top)
    &&& diff_fits(r.right, b.left)
    &&& diff_fits(r.bottom, b.top)
}

pub open spec fn point_shift_fits(p: Point, b: RectPx) -> bool {
    diff_fits(p.x, b.left) && diff_fits(p.y, b.top)
}

/// Every coordinate the plan moves into image pixels stays in `i32`; a
/// marker of fewer than two points is not drawn and so not moved.
pub open spec fn ann_shift_fits(a: AnnView, b: RectPx) -> bool {
    match a {
        AnnView::Rectangle { rect, .. } => rect_shift_fits(rect, b),
        AnnView::Ellipse { rect, .. } => rect_shift_fits(rect, b),
        AnnView::Line { start, end, .. } => point_shift_fits(start, b) && point_shift_fits(end, b),
        AnnView::Marker { points, .. } => points.len() >= 2 ==> forall|i: int|
            0 <= i < points.len() ==> #[trigger] point_shift_fits(points[i], b),
        AnnView::Text { rect, .. } => rect_shift_fits(rect, b),
        AnnView::Pixelate { rect, .. } => rect_shift_fits(rect, b),
        AnnView::Blur { rect, .. } => rect_shift_fits(rect, b),
    }
}

/// `r` in the pixels of an image whose top-left corner is `b`'s.
pub open spec fn local_rect(r: RectPx, b: RectPx) -> RectPx {
    RectPx {
        left: (r.left - b.left) as i32,
        top: (r.top - b.top) as i32,
        right: (r.right - b.left) as i32,
        bottom: (r.bottom - b.top) as i32,
    }
}

pub open spec fn local_point(p: Point, b: RectPx) -> Point {
    Point { x: (p.x - b.left) as i32, y: (p.y - b.top) as i32 }
}

/// A marker stroke: a line between each point and the next.
pub open spec fn marker_ops(points: Seq<Point>, color: [u8; 4], thickness: i32, b: RectPx) -> Seq<DrawOpView> {
    if points.len() < 2 {
        Seq::empty()
    } else {
        Seq::new(
            (points.len() - 1) as nat,
            |i: int|
                DrawOpView::Line {
                    start: local_point(points[i], b),
                    end: local_point(points[i + 1], b),
                    color,
                    thickness,
                },
        )
    }
}

/// The primitives of one annotation.
pub open spec fn ann_ops(a: AnnView, b: RectPx) -> Seq<DrawOpView> {
    match a {
        AnnView::Rectangle { rect, color, thickness } => seq![
            DrawOpView::RectOutline { rect: local_rect(rect, b), color, thickness },
        ],
        AnnView::Ellipse { rect, color, thickness } => seq![
            DrawOpView::EllipseOutline { rect: local_rect(rect, b), color, thickness },
        ],
        AnnView::Line { start, end, color, thickness, arrow } => {
            let line = seq![
                DrawOpView::Line { start: local_point(start, b), end: local_point(end, b), color, thickness },
            ];
            if arrow {
                line.push(
                    DrawOpView::ArrowHead { start: local_point(start, b), end: local_point(end, b), color, thickness },
                )
            } else {
                line
            }
        },
        AnnView::Marker { points, color, thickness } => marker_ops(points, color, thickness, b),
        AnnView::Text { rect, text, color } => seq![DrawOpView::Text { rect: local_rect(rect, b), text, color }],
        AnnView::Pixelate { rect, block } => seq![DrawOpView::Pixelate { rect: local_rect(rect, b), block }],
        AnnView::Blur { rect, radius } => seq![DrawOpView::Blur { rect: local_rect(rect, b), radius }],
    }
}

/// The primitives of all annotations, annotation after annotation.
pub open spec fn draw_plan(anns: Seq<AnnView>, b: RectPx) -> Seq<DrawOpView>
    decreases anns.len(),
{
    if anns.len() == 0 {
        Seq::empty()
    } else {
        draw_plan(anns.drop_last(), b) + ann_ops(anns.last(), b)
    }
}

fn local_rect_of(r: RectPx, b: RectPx) -> (out: RectPx)
    requires
        rect_shift_fits(r, b),
    ensures
        out == local_rect(r, b),
{
    RectPx { left: r.left - b.left, top: r.top - b.top, right: r.right - b.left, bottom: r.bottom - b.top }
}

fn local_point_of(p: Point, b: RectPx) -> (out: Point)
    requires
        point_shift_fits(p, b),
    ensures
        out == local_point(p, b),
{
    Point { x: p.x - b.left, y: p.y - b.top }
}

/// Appends the primitives of one annotation.
fn push_ann_ops(out: &mut Vec<DrawOp>, a: &Annotation, b: RectPx)
    requires
        ann_shift_fits(a@, b),
    ensures
        op_views(final(out)@) == op_views(old(out)@) + ann_ops(a@, b),
{
    let ghost start = op_views(out@);
    match a {
        Annotation::Rectangle(r) => {
            out.push(DrawOp::RectOutline { rect: local_rect_of(r.rect_abs, b), color: r.color, thickness: r.thickness });
        },
        Annotation::Ellipse(e) => {
            out.push(
                DrawOp::EllipseOutline { rect: local_rect_of(e.rect_abs, b), color: e.color, thickness: e.thickness },
            );
        },
        Annotation::Line(l) => {
            let s = local_point_of(l.start_abs, b);
            let e = local_point_of(l.end_abs, b);
            out.push(DrawOp::Line { start: s, end: e, color: l.color, thickness: l.thickness });
            if l.arrow {
                out.push(DrawOp::ArrowHead { start: s, end: e, color: l.color, thickness: l.thickness });
            }
        },
        Annotation::Marker(m) => {
            let n = m.points_abs.len();
            if n >= 2 {
                let ghost pts = m.points_abs@;
                assert(a@ == AnnView::Marker { points: pts, color: m.color, thickness: m.thickness });
                assert(forall|k: int| 0 <= k < n ==> #[trigger] point_shift_fits(pts[k], b));
                let mut last = local_point_of(m.points_abs[0], b);
                let mut i: usize = 1;
                while i < n
                    invariant
                        n == pts.len(),
                        pts == m.points_abs@,
                        2 <= n,
                        1 <= i <= n,
                        forall|k: int| 0 <= k < n ==> #[trigger] point_shift_fits(pts[k], b),
                        last == local_point(pts[i - 1], b),
                        op_views(out@) == start + marker_ops(pts, m.color, m.thickness, b).subrange(0, i - 1),
                    decreases n - i,
                {
                    let next = local_point_of(m.points_abs[i], b);
                    let ghost before = op_views(out@);
                    out.push(DrawOp::Line { start: last, end: next, color: m.color, thickness: m.thickness });
                    assert(op_views(out@) =~= before.push(out@.last()@));
                    assert(op_views(out@) =~= start + marker_ops(pts, m.color, m.thickness, b).subrange(0, i as int));
                    last = next;
                    i = i + 1;
                }
                assert(marker_ops(pts, m.color, m.thickness, b).subrange(0, n - 1) =~= marker_ops(
                    pts,
                    m.color,
                    m.thickness,
                    b,
                ));
            } else {
                assert(op_views(out@) =~= start + ann_ops(a@, b));
            }
        },
        Annotation::Text(t) => {
            out.push(DrawOp::Text { rect: local_rect_of(t.rect_abs, b), text: t.text.clone(), color: t.color });
        },
        Annotation::Pixelate(p) => {
            out.push(DrawOp::Pixelate { rect: local_rect_of(p.rect_abs, b), block: p.block });
        },
        Annotation::Blur(bl) => {
            out.push(DrawOp::Blur { rect: local_rect_of(bl.rect_abs, b), radius: bl.radius });
        },
    }
    assert(op_views(out@) =~= start + ann_ops(a@, b));
}

/// The primitives that burn an edit's annotations into the captured image
/// of its selection, in the order the annotations were made.
pub fn annotation_draw_ops(result: &RegionEditResult) -> (ops: Vec<DrawOp>)
    requires
        forall|i: int|
            0 <= i < result.annotations@.len() ==> #[trigger] ann_shift_fits(result.annotations@[i]@, result.bounds),
    ensures
        op_views(ops@) == draw_plan(ann_views(result.annotations@), result.bounds),
{
    let mut ops: Vec<DrawOp> = Vec::new();
    let n = result.annotations.len();
    let ghost anns = ann_views(result.annotations@);
    let mut i: usize = 0;
    while i < n
        invariant
            n == result.annotations@.len(),
            anns == ann_views(result.annotations@),
            i <= n,
            forall|k: int| 0 <= k < n ==> #[trigger] ann_shift_fits(result.annotations@[k]@, result.bounds),
            op_views(ops@) == draw_plan(anns.subrange(0, i as int), result.bounds),
        decreases n - i,
    {
        push_ann_ops(&mut ops, &result.annotations[i], result.bounds);
        assert(anns.subrange(0, i + 1).drop_last() =~= anns.subrange(0, i as int));
        i = i + 1;
    }
    assert(anns.subrange(0, n as int) =~= anns);
    ops
}

} // verus!
