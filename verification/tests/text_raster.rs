use pyro::geometry::{Point, RectPx};
use pyro::text_raster::text_raster_pixels;

fn rect(left: i32, top: i32, right: i32, bottom: i32) -> RectPx {
    RectPx { left, top, right, bottom }
}

#[test]
fn single_glyph_covers_its_font_cells() {
    let px = text_raster_pixels(100, 100, rect(0, 0, 100, 100), "l");
    // Six rows with the left column set, then a full bottom row: 11 cells of 2x2 pixels.
    assert_eq!(px.len(), 44);
    assert_eq!(px[0], Point { x: 4, y: 4 });
    assert_eq!(px[1], Point { x: 5, y: 4 });
    assert_eq!(px[2], Point { x: 4, y: 5 });
    assert_eq!(px[3], Point { x: 5, y: 5 });
    assert_eq!(px[43], Point { x: 13, y: 17 });
}

#[test]
fn upper_case_uses_the_same_glyph() {
    let lower = text_raster_pixels(100, 100, rect(0, 0, 100, 100), "l");
    let upper = text_raster_pixels(100, 100, rect(0, 0, 100, 100), "L");
    assert_eq!(lower, upper);
}

#[test]
fn empty_text_draws_nothing() {
    assert!(text_raster_pixels(100, 100, rect(0, 0, 100, 100), "").is_empty());
}

#[test]
fn box_outside_the_image_draws_nothing() {
    assert!(text_raster_pixels(100, 100, rect(200, 200, 300, 300), "l").is_empty());
    assert!(text_raster_pixels(0, 100, rect(0, 0, 100, 100), "l").is_empty());
}

#[test]
fn glyph_wider_than_the_remaining_line_is_skipped() {
    let px = text_raster_pixels(100, 100, rect(0, 0, 30, 100), "ll");
    assert_eq!(px.len(), 44);
}

#[test]
fn space_advances_less_than_a_glyph() {
    let px = text_raster_pixels(100, 100, rect(0, 0, 100, 100), " l");
    assert_eq!(px.len(), 44);
    assert_eq!(px[0], Point { x: 10, y: 4 });
}

#[test]
fn newline_moves_down_one_line() {
    let px = text_raster_pixels(100, 100, rect(0, 0, 100, 100), "l\r\nl");
    assert_eq!(px.len(), 88);
    assert_eq!(px[44], Point { x: 4, y: 22 });
}

#[test]
fn newline_past_the_bottom_stops_the_text() {
    let px = text_raster_pixels(100, 100, rect(0, 0, 100, 22), "l\nl");
    assert_eq!(px.len(), 44);
}
