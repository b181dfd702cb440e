use pyro::geometry::RectPx;
use pyro::raster::{
    blur_buffer_4ch, build_dib, crop_capture_frame, draw_blur_raster, draw_pixelate_raster, draw_rect_outline,
    CaptureFrame, CropError, Raster,
};

fn frame() -> CaptureFrame {
    // A 3x2 frame at (10, 20) whose bytes count up.
    CaptureFrame {
        bounds: RectPx { left: 10, top: 20, right: 13, bottom: 22 },
        image: Raster { width: 3, height: 2, pixels: (0u8..24).collect() },
    }
}

#[test]
fn cropping_copies_the_selected_pixels() {
    let f = frame();
    let c = crop_capture_frame(&f, RectPx { left: 11, top: 21, right: 13, bottom: 22 }).ok().unwrap();
    assert_eq!(c.bounds, RectPx { left: 11, top: 21, right: 13, bottom: 22 });
    assert_eq!((c.image.width, c.image.height), (2, 1));
    assert_eq!(c.image.pixels, vec![16, 17, 18, 19, 20, 21, 22, 23]);
}

#[test]
fn cropping_outside_or_empty_fails() {
    let f = frame();
    assert!(matches!(
        crop_capture_frame(&f, RectPx { left: 9, top: 20, right: 12, bottom: 22 }),
        Err(CropError::OutsideSource)
    ));
    assert!(matches!(
        crop_capture_frame(&f, RectPx { left: 12, top: 20, right: 12, bottom: 22 }),
        Err(CropError::InvalidBounds { width: 0, height: 2 })
    ));
}

#[test]
fn clipboard_bitmap_is_bottom_up_bgra() {
    let img = Raster { width: 1, height: 2, pixels: vec![1, 2, 3, 4, 5, 6, 7, 8] };
    let dib = build_dib(&img);
    assert_eq!(dib.len(), 40 + 8);
    assert_eq!(&dib[0..4], &[40, 0, 0, 0]);
    assert_eq!(&dib[4..8], &[1, 0, 0, 0]);
    assert_eq!(&dib[8..12], &[2, 0, 0, 0]);
    assert_eq!(&dib[12..14], &[1, 0]);
    assert_eq!(&dib[14..16], &[32, 0]);
    assert_eq!(&dib[16..20], &[0, 0, 0, 0]);
    assert_eq!(&dib[20..24], &[8, 0, 0, 0]);
    assert!(dib[24..40].iter().all(|&b| b == 0));
    assert_eq!(&dib[40..], &[7, 6, 5, 8, 3, 2, 1, 4]);
}

#[test]
fn box_blur_values() {
    let src: Vec<u8> = vec![
        10, 20, 30, 255, 100, 0, 50, 255, 200, 90, 0, 0, 0, 0, 0, 0, 255, 255, 255, 255, 30, 60, 90, 120, 7,
    ];
    assert_eq!(
        blur_buffer_4ch(&src, 3, 2, 1),
        vec![55, 37, 52, 198, 100, 59, 55, 155, 145, 81, 59, 111, 70, 61, 68, 141, 97, 82, 85, 140, 125, 103, 102, 138, 0]
    );
    assert_eq!(
        blur_buffer_4ch(&src, 3, 2, 2),
        vec![62, 43, 44, 152, 87, 56, 48, 131, 112, 69, 51, 110, 60, 49, 52, 126, 79, 62, 61, 120, 98, 75, 69, 114, 0]
    );
}

#[test]
fn box_blur_of_nothing_is_the_input() {
    let src: Vec<u8> = vec![1, 2, 3, 4];
    assert_eq!(blur_buffer_4ch(&src, 1, 1, 0), src);
    assert_eq!(blur_buffer_4ch(&src, 0, 1, 3), src);
    assert_eq!(blur_buffer_4ch(&vec![], 0, 0, 3), Vec::<u8>::new());
}

#[test]
fn box_blur_of_a_flat_image_is_flat() {
    let src = vec![9u8; 5 * 4 * 4];
    assert_eq!(blur_buffer_4ch(&src, 5, 4, 3), src);
}

fn red_channel(img: &Raster) -> Vec<u8> {
    img.pixels.chunks(4).map(|p| p[0]).collect()
}

#[test]
fn rectangle_outline_one_pixel() {
    let mut img = Raster { width: 5, height: 4, pixels: vec![0; 5 * 4 * 4] };
    draw_rect_outline(&mut img, RectPx { left: 0, top: 0, right: 5, bottom: 4 }, [9, 9, 9, 9], 1);
    assert_eq!(red_channel(&img), vec![9, 9, 9, 9, 9, 9, 0, 0, 0, 9, 9, 0, 0, 0, 9, 9, 9, 9, 9, 9]);
}

#[test]
fn rectangle_outline_is_clipped_and_thinned() {
    let mut img = Raster { width: 5, height: 4, pixels: vec![0; 5 * 4 * 4] };
    draw_rect_outline(&mut img, RectPx { left: -3, top: 1, right: 4, bottom: 10 }, [9, 9, 9, 9], 5);
    assert_eq!(red_channel(&img), vec![0, 0, 0, 0, 0, 9, 9, 9, 9, 0, 9, 0, 0, 9, 0, 9, 9, 9, 9, 0]);
    let mut empty = Raster { width: 5, height: 4, pixels: vec![0; 5 * 4 * 4] };
    draw_rect_outline(&mut empty, RectPx { left: 6, top: 0, right: 9, bottom: 4 }, [9, 9, 9, 9], 1);
    assert!(empty.pixels.iter().all(|&b| b == 0));
}

#[test]
fn pixelate_averages_each_block() {
    let pixels: Vec<u8> = (0..5 * 4 * 4).map(|i: usize| ((i * 7) % 256) as u8).collect();
    let mut img = Raster { width: 5, height: 4, pixels };
    draw_pixelate_raster(&mut img, RectPx { left: 1, top: 0, right: 5, bottom: 3 }, 3);
    assert_eq!(
        img.pixels,
        vec![
            0, 7, 14, 21, 110, 117, 124, 131, 110, 117, 124, 131, 110, 117, 124, 131, 166, 88, 95, 102, 140, 147, 154,
            161, 110, 117, 124, 131, 110, 117, 124, 131, 110, 117, 124, 131, 166, 88, 95, 102, 24, 31, 38, 45, 110,
            117, 124, 131, 110, 117, 124, 131, 110, 117, 124, 131, 166, 88, 95, 102, 164, 171, 178, 185, 192, 199, 206,
            213, 220, 227, 234, 241, 248, 255, 6, 13, 20, 27, 34, 41
        ]
    );
}

#[test]
fn blur_raster_blurs_only_the_box() {
    let pixels: Vec<u8> = (0..4 * 3 * 4).map(|i: usize| ((i * 13) % 256) as u8).collect();
    let mut img = Raster { width: 4, height: 3, pixels };
    draw_blur_raster(&mut img, RectPx { left: 1, top: 1, right: 4, bottom: 3 }, 1);
    assert_eq!(
        img.pixels,
        vec![
            0, 13, 26, 39, 52, 65, 78, 91, 104, 117, 130, 143, 156, 169, 182, 195, 208, 221, 234, 247, 62, 75, 88, 101,
            68, 81, 94, 107, 74, 87, 100, 113, 160, 173, 186, 199, 103, 116, 129, 142, 80, 93, 106, 119, 58, 71, 84, 97
        ]
    );
}

#[test]
fn dib_of_a_two_row_image_is_header_and_bottom_up_bgra() {
    let img = Raster { width: 1, height: 2, pixels: vec![1, 2, 3, 4, 5, 6, 7, 8] };
    let d = build_dib(&img);
    assert_eq!(d.len(), 48);
    assert_eq!(&d[4..8], &1u32.to_le_bytes());
    assert_eq!(&d[8..12], &2u32.to_le_bytes());
    assert_eq!(&d[14..16], &32u16.to_le_bytes());
    assert_eq!(&d[40..48], &[7, 6, 5, 8, 3, 2, 1, 4]);
}
