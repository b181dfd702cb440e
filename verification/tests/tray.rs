use pyro::geometry::Point;
use pyro::tray::{
    action_at_point, hover_row_at_point, matches_notify_event, point_from_lparam, popup_height,
    rgb, PopupPalette, TrayAction,
};

#[test]
fn tray_action_codes_round_trip() {
    for a in [
        TrayAction::CaptureDefault,
        TrayAction::CapturePrimary,
        TrayAction::CaptureRegion,
        TrayAction::CaptureAllDisplays,
        TrayAction::Settings,
        TrayAction::Quit,
    ] {
        assert_eq!(TrayAction::from_code(a.code()), Some(a));
    }
    assert_eq!(TrayAction::from_code(3), Some(TrayAction::CaptureRegion));
    assert_eq!(TrayAction::from_code(0), None);
    assert_eq!(TrayAction::from_code(7), None);
}

#[test]
fn popup_height_sums_rows() {
    assert_eq!(popup_height(), 216);
}

#[test]
fn popup_rows_under_points() {
    assert_eq!(hover_row_at_point(Point { x: 20, y: 10 }), Some(0));
    assert_eq!(hover_row_at_point(Point { x: 20, y: 44 }), Some(1));
    assert_eq!(hover_row_at_point(Point { x: 20, y: 115 }), Some(2));
    assert_eq!(hover_row_at_point(Point { x: 20, y: 120 }), None);
    assert_eq!(hover_row_at_point(Point { x: 20, y: 130 }), Some(4));
    assert_eq!(hover_row_at_point(Point { x: 20, y: 180 }), Some(6));
    assert_eq!(hover_row_at_point(Point { x: 4, y: 10 }), None);
    assert_eq!(hover_row_at_point(Point { x: 260, y: 10 }), None);
    assert_eq!(action_at_point(Point { x: 100, y: 50 }), Some(TrayAction::CapturePrimary));
    assert_eq!(action_at_point(Point { x: 100, y: 200 }), Some(TrayAction::Quit));
    assert_eq!(action_at_point(Point { x: 100, y: 165 }), None);
}

#[test]
fn mouse_points_are_sign_extended() {
    assert_eq!(point_from_lparam(0x0020_0010), Point { x: 16, y: 32 });
    assert_eq!(point_from_lparam(0xFFFF_FFFE_u32 as isize), Point { x: -2, y: -1 });
}

#[test]
fn notify_events_match_low_word() {
    assert!(matches_notify_event(0x0205, 0x0205));
    assert!(matches_notify_event(0x0001_0205, 0x0205));
    assert!(!matches_notify_event(0x0206, 0x0205));
}

#[test]
fn popup_palettes() {
    assert_eq!(rgb(1, 2, 3), 0x030201);
    assert_eq!(PopupPalette::from_dark_mode(true).background, rgb(32, 32, 32));
    assert_eq!(PopupPalette::from_dark_mode(false).text, rgb(26, 26, 26));
}
