use pyro::geometry::{handle_rects, hit_handle, normalize_abs, Point, RectPx, ResizeHandle};
use pyro::glyph::{glyph_5x7, text_required_size};

#[test]
fn rect_sizes() {
    let r = RectPx { left: -10, top: 5, right: 30, bottom: 25 };
    assert_eq!(r.width(), 40);
    assert_eq!(r.height(), 20);
}

#[test]
fn handles_sit_on_corners_and_midpoints() {
    let sel = RectPx { left: 0, top: 0, right: 101, bottom: 51 };
    let hs = handle_rects(sel);
    assert_eq!(hs.len(), 8);
    assert_eq!(hs[0], (ResizeHandle::NW, RectPx { left: -4, top: -4, right: 4, bottom: 4 }));
    assert_eq!(hs[7], (ResizeHandle::SE, RectPx { left: 96, top: 46, right: 104, bottom: 54 }));
    assert_eq!(hs[1].1, RectPx { left: 46, top: -4, right: 54, bottom: 4 });
    assert_eq!(hit_handle(sel, Point { x: 99, y: 49 }), Some(ResizeHandle::SE));
    assert_eq!(hit_handle(sel, Point { x: 50, y: 25 }), None);
}

#[test]
fn drag_rectangles_are_normalized_and_clamped() {
    let bounds = RectPx { left: 0, top: 0, right: 100, bottom: 100 };
    assert_eq!(
        normalize_abs(Point { x: 80, y: -20 }, Point { x: 150, y: 40 }, bounds),
        RectPx { left: 80, top: 0, right: 100, bottom: 40 }
    );
}

#[test]
fn glyphs_ignore_ascii_case() {
    assert_eq!(glyph_5x7('A'), glyph_5x7('a'));
    assert_eq!(glyph_5x7('a'), [0b01110, 0b10001, 0b10001, 0b11111, 0b10001, 0b10001, 0b10001]);
}

#[test]
fn text_box_sizes() {
    assert_eq!(text_required_size(""), (48, 24));
    // Five glyphs: 5 * 13 + 8 = 73 wide.
    assert_eq!(text_required_size("hello"), (73, 24));
    // Two lines: 2 * 14 + 4 + 8 = 40 high.
    assert_eq!(text_required_size("a b\nc"), (48, 40));
    assert_eq!(text_required_size("abcd\r"), (60, 24));
}
