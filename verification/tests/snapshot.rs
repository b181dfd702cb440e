use pyro::geometry::RectPx;
use pyro::overlay::PrecomputedSelectionSnapshot;
use pyro::raster::{CaptureFrame, Raster};
use pyro::snapshot::{
    blur_overlay_pixels, frozen_desktop_ref_from_capture_frame, pixelate_overlay_pixels,
    selection_snapshot_from_capture_frame, selection_snapshot_from_frozen, selection_snapshot_from_precomputed,
    FrozenDesktopRef, SelectionSnapshot,
};

fn frame() -> CaptureFrame {
    // A 3x2 frame at (10, 20) whose bytes count up.
    CaptureFrame {
        bounds: RectPx { left: 10, top: 20, right: 13, bottom: 22 },
        image: Raster { width: 3, height: 2, pixels: (0u8..24).collect() },
    }
}

#[test]
fn capture_frame_snapshot_swaps_red_and_blue() {
    let f = CaptureFrame {
        bounds: RectPx { left: 0, top: 0, right: 2, bottom: 1 },
        image: Raster { width: 2, height: 1, pixels: vec![1, 2, 3, 4, 5, 6, 7, 8] },
    };
    let s = selection_snapshot_from_capture_frame(&f).unwrap();
    assert_eq!((s.width, s.height), (2, 1));
    assert_eq!(s.bgra_pixels, vec![3, 2, 1, 255, 7, 6, 5, 255]);
}

#[test]
fn empty_capture_frame_gives_no_snapshot() {
    let f = CaptureFrame {
        bounds: RectPx { left: 0, top: 0, right: 0, bottom: 1 },
        image: Raster { width: 0, height: 1, pixels: vec![] },
    };
    assert!(selection_snapshot_from_capture_frame(&f).is_none());
}

#[test]
fn precomputed_snapshot_is_taken_over_when_its_size_matches() {
    let p = PrecomputedSelectionSnapshot { width: 1, height: 2, bgra_pixels: vec![9; 8] };
    let s = selection_snapshot_from_precomputed(p).unwrap();
    assert_eq!((s.width, s.height), (1, 2));
    assert_eq!(s.bgra_pixels, vec![9; 8]);
    let short = PrecomputedSelectionSnapshot { width: 1, height: 2, bgra_pixels: vec![9; 7] };
    assert!(selection_snapshot_from_precomputed(short).is_none());
    let flat = PrecomputedSelectionSnapshot { width: 1, height: 0, bgra_pixels: vec![] };
    assert!(selection_snapshot_from_precomputed(flat).is_none());
}

#[test]
fn frozen_reference_needs_a_full_buffer() {
    let f = frame();
    let r = frozen_desktop_ref_from_capture_frame(&f).unwrap();
    assert_eq!(r.bounds, f.bounds);
    assert_eq!((r.width, r.height), (3, 2));
    assert_eq!(r.rgba.len(), 24);
    let short = CaptureFrame {
        bounds: RectPx { left: 10, top: 20, right: 13, bottom: 22 },
        image: Raster { width: 3, height: 2, pixels: vec![0; 20] },
    };
    assert!(frozen_desktop_ref_from_capture_frame(&short).is_none());
}

#[test]
fn frozen_snapshot_copies_the_selected_pixels() {
    let f = frame();
    let frozen = frozen_desktop_ref_from_capture_frame(&f).unwrap();
    let s = selection_snapshot_from_frozen(RectPx { left: 11, top: 21, right: 13, bottom: 22 }, &frozen).unwrap();
    assert_eq!((s.width, s.height), (2, 1));
    assert_eq!(s.bgra_pixels, vec![18, 17, 16, 255, 22, 21, 20, 255]);
}

#[test]
fn frozen_snapshot_refuses_selections_outside_or_empty() {
    let f = frame();
    let frozen = frozen_desktop_ref_from_capture_frame(&f).unwrap();
    assert!(selection_snapshot_from_frozen(RectPx { left: 9, top: 20, right: 12, bottom: 22 }, &frozen).is_none());
    assert!(selection_snapshot_from_frozen(RectPx { left: 11, top: 21, right: 11, bottom: 22 }, &frozen).is_none());
    let pixels = vec![0u8; 8];
    let short = FrozenDesktopRef { bounds: f.bounds, width: 3, height: 2, rgba: &pixels };
    assert!(selection_snapshot_from_frozen(RectPx { left: 10, top: 20, right: 11, bottom: 21 }, &short).is_none());
}

fn counting_snapshot() -> SelectionSnapshot {
    // 4x2 pixels whose bytes count up, selection at (100, 200).
    SelectionSnapshot { width: 4, height: 2, bgra_pixels: (0u8..32).collect() }
}

const SELECTION: RectPx = RectPx { left: 100, top: 200, right: 104, bottom: 202 };

#[test]
fn pixelate_patch_averages_each_block() {
    let s = counting_snapshot();
    let p = pixelate_overlay_pixels(&s, SELECTION, RectPx { left: 101, top: 190, right: 103, bottom: 210 }, 2).unwrap();
    assert_eq!((p.left, p.top, p.width, p.height), (101, 200, 2, 2));
    assert_eq!(p.bgra_pixels, [14, 15, 16, 17].repeat(4));
}

#[test]
fn pixelate_patch_with_unit_blocks_is_the_region() {
    let s = counting_snapshot();
    let p = pixelate_overlay_pixels(&s, SELECTION, RectPx { left: 101, top: 200, right: 103, bottom: 202 }, 0).unwrap();
    let mut expected: Vec<u8> = (4u8..12).collect();
    expected.extend(20u8..28);
    assert_eq!(p.bgra_pixels, expected);
}

#[test]
fn blur_patch_blurs_the_cut_region() {
    let s = counting_snapshot();
    let p = blur_overlay_pixels(&s, SELECTION, RectPx { left: 101, top: 200, right: 103, bottom: 202 }, 1).unwrap();
    assert_eq!((p.left, p.top, p.width, p.height), (101, 200, 2, 2));
    assert_eq!(p.bgra_pixels, vec![10, 11, 12, 13, 11, 12, 13, 14, 15, 16, 17, 18, 16, 17, 18, 19]);
}

#[test]
fn effect_box_outside_the_selection_paints_nothing() {
    let s = counting_snapshot();
    assert!(pixelate_overlay_pixels(&s, SELECTION, RectPx { left: 0, top: 0, right: 50, bottom: 50 }, 4).is_none());
    assert!(blur_overlay_pixels(&s, SELECTION, RectPx { left: 102, top: 201, right: 102, bottom: 202 }, 3).is_none());
}
