use std::path::PathBuf;

use pyro::geometry::{Point, RectPx};
use pyro::pinned::{
    clamp_window_position, clamp_zoom_size, initial_window_position, pin_key_action,
    pin_menu_action, reset_zoom_target, rgba_from_bgra, swap_red_blue, wheel_delta, PinAction,
    PinWindowState,
};

fn desktop() -> RectPx {
    RectPx { left: 0, top: 0, right: 1920, bottom: 1080 }
}

#[test]
fn pinned_pixels_round_trip() {
    let rgba: Vec<u8> = vec![1, 2, 3, 4, 5, 6, 7, 8];
    let s = PinWindowState::new(2, 1, &rgba, PathBuf::from("shots"));
    assert_eq!(s.bgra_pixels, vec![3, 2, 1, 4, 7, 6, 5, 8]);
    assert_eq!(rgba_from_bgra(s.source_width, s.source_height, &s.bgra_pixels), Some(rgba));
    assert_eq!(rgba_from_bgra(2, 2, &s.bgra_pixels), None);
    assert_eq!(rgba_from_bgra(0, 1, &s.bgra_pixels), None);
    assert!(!s.locked && s.hud_visible && !s.dragging);
}

#[test]
fn swap_keeps_a_partial_pixel() {
    assert_eq!(swap_red_blue(&vec![1, 2, 3, 4, 9, 8]), vec![3, 2, 1, 4, 9, 8]);
}

#[test]
fn zero_sized_capture_is_stored_as_one_pixel() {
    let s = PinWindowState::new(0, 0, &vec![], PathBuf::from("x"));
    assert_eq!((s.source_width, s.source_height), (1, 1));
}

#[test]
fn lock_stops_dragging_and_zoom() {
    let mut s = PinWindowState::new(300, 200, &vec![0; 300 * 200 * 4], PathBuf::from("x"));
    assert!(s.start_drag(Point { x: 50, y: 60 }, Point { x: 10, y: 20 }));
    assert_eq!(s.drag_offset, Point { x: 40, y: 40 });
    assert_eq!(s.drag_target(Point { x: 100, y: 100 }, 300, 200, desktop()), Some((60, 60)));
    assert!(s.toggle_lock());
    assert!(!s.dragging);
    assert!(!s.start_drag(Point { x: 0, y: 0 }, Point { x: 0, y: 0 }));
    assert_eq!(s.drag_target(Point { x: 100, y: 100 }, 300, 200, desktop()), None);
    assert_eq!(reset_zoom_target(&s, RectPx { left: 0, top: 0, right: 400, bottom: 300 }, desktop()), None);
    assert!(!s.toggle_lock());
    assert_eq!(
        reset_zoom_target(&s, RectPx { left: 0, top: 0, right: 400, bottom: 300 }, desktop()),
        Some((50, 50, 300, 200))
    );
    s.stop_drag();
    assert!(!s.dragging);
}

#[test]
fn window_positions_and_sizes_are_limited() {
    assert_eq!(clamp_window_position(-1000, 5000, 300, 200, desktop()), (-300 + 64, 1080 - 64));
    assert_eq!(clamp_window_position(10, 20, 300, 200, desktop()), (10, 20));
    assert_eq!(clamp_zoom_size(50, 5000, desktop()), (120, 2160));
    assert_eq!(initial_window_position(301, 200, desktop()), (809, 440));
    assert_eq!(initial_window_position(2921, 200, RectPx { left: 0, top: 0, right: 1920, bottom: 1080 }), (-500, 440));
}

#[test]
fn pinned_keys_and_menu() {
    assert_eq!(pin_key_action(0x1B, false), Some(PinAction::Close));
    assert_eq!(pin_key_action('C' as u32, true), Some(PinAction::Copy));
    assert_eq!(pin_key_action('C' as u32, false), None);
    assert_eq!(pin_key_action('S' as u32, true), Some(PinAction::Save));
    assert_eq!(pin_key_action('L' as u32, false), Some(PinAction::ToggleLock));
    assert_eq!(pin_menu_action(1003), Some(PinAction::ResetZoom));
    assert_eq!(pin_menu_action(0x0001_03EC), Some(PinAction::Close));
    assert_eq!(pin_menu_action(999), None);
}

#[test]
fn wheel_delta_is_signed() {
    assert_eq!(wheel_delta(120 << 16), 120);
    assert_eq!(wheel_delta(0xFF88_0000), -120);
    assert_eq!(wheel_delta(0x0008), 0);
}
