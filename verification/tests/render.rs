use pyro::annotation::{Annotation, LineAnn, MarkerAnn, PixelateAnn, RectAnn, TextAnn};
use pyro::editor::RegionEditResult;
use pyro::geometry::{Point, RectPx};
use pyro::render::{annotation_draw_ops, DrawOp};

const RED: [u8; 4] = [255, 0, 0, 255];

fn result(annotations: Vec<Annotation>) -> RegionEditResult {
    RegionEditResult {
        bounds: RectPx { left: 100, top: 200, right: 300, bottom: 400 },
        annotations,
        output_action: None,
    }
}

#[test]
fn rectangle_moves_into_image_pixels() {
    let r = result(vec![Annotation::Rectangle(RectAnn {
        rect_abs: RectPx { left: 110, top: 210, right: 150, bottom: 250 },
        color: RED,
        thickness: 3,
    })]);
    let ops = annotation_draw_ops(&r);
    assert_eq!(ops.len(), 1);
    assert!(matches!(
        ops[0],
        DrawOp::RectOutline { rect: RectPx { left: 10, top: 10, right: 50, bottom: 50 }, color: RED, thickness: 3 }
    ));
}

#[test]
fn arrow_line_adds_its_head_after_the_line() {
    let r = result(vec![Annotation::Line(LineAnn {
        start_abs: Point { x: 100, y: 200 },
        end_abs: Point { x: 180, y: 260 },
        color: RED,
        thickness: 2,
        arrow: true,
    })]);
    let ops = annotation_draw_ops(&r);
    assert_eq!(ops.len(), 2);
    assert!(matches!(ops[0], DrawOp::Line { start: Point { x: 0, y: 0 }, end: Point { x: 80, y: 60 }, .. }));
    assert!(matches!(ops[1], DrawOp::ArrowHead { start: Point { x: 0, y: 0 }, end: Point { x: 80, y: 60 }, .. }));
}

#[test]
fn marker_is_drawn_segment_by_segment() {
    let r = result(vec![
        Annotation::Marker(MarkerAnn {
            points_abs: vec![Point { x: 101, y: 201 }, Point { x: 105, y: 201 }, Point { x: 105, y: 209 }],
            color: RED,
            thickness: 8,
        }),
        Annotation::Marker(MarkerAnn { points_abs: vec![Point { x: 120, y: 220 }], color: RED, thickness: 8 }),
    ]);
    let ops = annotation_draw_ops(&r);
    assert_eq!(ops.len(), 2);
    assert!(matches!(ops[0], DrawOp::Line { start: Point { x: 1, y: 1 }, end: Point { x: 5, y: 1 }, thickness: 8, .. }));
    assert!(matches!(ops[1], DrawOp::Line { start: Point { x: 5, y: 1 }, end: Point { x: 5, y: 9 }, .. }));
}

#[test]
fn annotations_keep_their_order() {
    let r = result(vec![
        Annotation::Pixelate(PixelateAnn { rect_abs: RectPx { left: 100, top: 200, right: 120, bottom: 220 }, block: 6 }),
        Annotation::Text(TextAnn {
            rect_abs: RectPx { left: 150, top: 250, right: 200, bottom: 280 },
            text: "hi".to_string(),
            color: RED,
        }),
    ]);
    let ops = annotation_draw_ops(&r);
    assert_eq!(ops.len(), 2);
    assert!(matches!(ops[0], DrawOp::Pixelate { rect: RectPx { left: 0, top: 0, right: 20, bottom: 20 }, block: 6 }));
    match &ops[1] {
        DrawOp::Text { rect, text, color } => {
            assert_eq!(*rect, RectPx { left: 50, top: 50, right: 100, bottom: 80 });
            assert_eq!(text, "hi");
            assert_eq!(*color, RED);
        }
        other => panic!("unexpected {other:?}"),
    }
}
