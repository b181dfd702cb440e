use pyro::geometry::{Point, RectPx};
use pyro::overlay::{
    check_overlay_inputs, crop_selection_snapshot, frame_to_overlay_snapshot, normalize_points,
    rgba_to_bgra, FrozenOverlaySnapshot, OverlayError, OverlayState,
};

fn desktop() -> RectPx {
    RectPx { left: -100, top: 0, right: 100, bottom: 50 }
}

#[test]
fn rgba_becomes_opaque_bgra() {
    assert_eq!(rgba_to_bgra(&vec![1, 2, 3, 4, 5, 6, 7, 8, 9]), vec![3, 2, 1, 255, 7, 6, 5, 255]);
}

#[test]
fn drag_points_are_clamped_to_the_desktop() {
    let r = normalize_points(Point { x: 150, y: 40 }, Point { x: -5, y: 10 }, desktop());
    assert_eq!(r, RectPx { left: -100, top: 10, right: 50, bottom: 40 });
    let r2 = normalize_points(Point { x: 500, y: 500 }, Point { x: 10, y: 5 }, desktop());
    assert_eq!(r2, RectPx { left: -90, top: 5, right: 100, bottom: 50 });
}

#[test]
fn overlay_drag_and_confirm() {
    let mut s = OverlayState::new(desktop(), None, true);
    s.on_left_down(Point { x: 10, y: 10 });
    assert!(s.update_drag(Point { x: 30, y: 20 }));
    assert!(!s.update_drag(Point { x: 30, y: 20 }));
    assert!(s.on_left_up(Point { x: 40, y: 25 }));
    assert!(!s.done);
    assert!(!s.on_key(0x41));
    assert!(s.on_key(0x0D));
    assert!(s.done);
    let sel = s.into_selection().unwrap().unwrap();
    assert_eq!(sel.rect, RectPx { left: -90, top: 10, right: -60, bottom: 25 });
    assert!(sel.precomputed_snapshot.is_none());
}

#[test]
fn overlay_immediate_mode_finishes_on_release() {
    let mut s = OverlayState::new(desktop(), None, false);
    s.on_left_down(Point { x: 0, y: 0 });
    s.on_left_up(Point { x: 1, y: 1 });
    assert!(s.done);
    assert!(matches!(s.into_selection(), Err(OverlayError::SelectionTooSmall)));
}

#[test]
fn overlay_cancel_and_missing_selection() {
    let mut s = OverlayState::new(desktop(), None, true);
    assert!(s.on_key(0x0D));
    assert!(!s.done);
    assert!(s.on_key(0x1B));
    assert!(s.done && s.canceled);
    assert!(matches!(s.into_selection(), Ok(None)));
    let mut t = OverlayState::new(desktop(), None, true);
    t.done = true;
    assert!(matches!(t.into_selection(), Err(OverlayError::NoSelection)));
}

#[test]
fn cursor_indicator_repaints_old_and_new_boxes() {
    let mut s = OverlayState::new(desktop(), None, true);
    let first = s.update_cursor_indicator(Point { x: 5, y: 5 }).unwrap();
    assert_eq!(first.0, None);
    assert_eq!(first.1, RectPx { left: -9, top: -9, right: 20, bottom: 20 });
    assert!(s.update_cursor_indicator(Point { x: 5, y: 5 }).is_none());
    let second = s.update_cursor_indicator(Point { x: 6, y: 5 }).unwrap();
    assert_eq!(second.0, Some(first.1));
}

#[test]
fn frozen_frames_are_checked() {
    let px = vec![10u8; 2 * 2 * 4];
    let snap = frame_to_overlay_snapshot(2, 2, &px).ok().unwrap();
    assert_eq!(snap.width, 2);
    assert_eq!(snap.bgra_pixels[3], 255);
    assert!(matches!(frame_to_overlay_snapshot(2, 3, &px), Err(OverlayError::InvalidPixelBuffer)));
    assert!(matches!(frame_to_overlay_snapshot(0, 3, &px), Err(OverlayError::InvalidFrame)));
    assert!(matches!(frame_to_overlay_snapshot(0x8000_0000, 1, &px), Err(OverlayError::FrameTooLarge)));
    assert!(check_overlay_inputs(RectPx { left: 0, top: 0, right: 2, bottom: 2 }, &Some(snap)).is_ok());
    let snap2 = frame_to_overlay_snapshot(2, 2, &px).ok().unwrap();
    assert!(matches!(
        check_overlay_inputs(RectPx { left: 0, top: 0, right: 3, bottom: 2 }, &Some(snap2)),
        Err(OverlayError::FrameSizeMismatch)
    ));
    assert!(matches!(
        check_overlay_inputs(RectPx { left: 0, top: 0, right: 0, bottom: 2 }, &None),
        Err(OverlayError::InvalidDesktop)
    ));
}

#[test]
fn selection_pixels_are_copied_row_by_row() {
    // A 3x2 snapshot whose bytes count up.
    let snap = FrozenOverlaySnapshot { width: 3, height: 2, bgra_pixels: (0u8..24).collect() };
    let vr = RectPx { left: 10, top: 20, right: 13, bottom: 22 };
    let sel = RectPx { left: 11, top: 20, right: 13, bottom: 22 };
    let p = crop_selection_snapshot(&snap, vr, sel).unwrap();
    assert_eq!((p.width, p.height), (2, 2));
    assert_eq!(p.bgra_pixels, vec![4, 5, 6, 7, 8, 9, 10, 11, 16, 17, 18, 19, 20, 21, 22, 23]);
    let outside = RectPx { left: 12, top: 20, right: 14, bottom: 22 };
    assert!(crop_selection_snapshot(&snap, vr, outside).is_none());
}
