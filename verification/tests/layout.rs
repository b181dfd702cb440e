use pyro::geometry::{intersection_area, RectPx};
use pyro::layout::{analyze_virtual_layout, monitor_diagnostics, trim_monitor_label, MonitorDescriptor};

fn monitor(name: &str, left: i32, top: i32, right: i32, bottom: i32, primary: bool) -> MonitorDescriptor {
    MonitorDescriptor {
        device_name: name.to_string(),
        rect: RectPx { left, top, right, bottom },
        dpi_x: 96,
        dpi_y: 96,
        is_primary: primary,
    }
}

#[test]
fn monitor_labels_are_cut_with_an_ellipsis() {
    assert_eq!(trim_monitor_label("DISPLAY1", 10), "DISPLAY1");
    assert_eq!(trim_monitor_label("\\\\.\\DISPLAY12", 6), "\\\\.\\D…");
    assert_eq!(trim_monitor_label("abc", 1), "…");
    assert_eq!(trim_monitor_label("abc", 0), "…");
}

#[test]
fn intersection_areas() {
    let a = RectPx { left: 0, top: 0, right: 100, bottom: 100 };
    let b = RectPx { left: 50, top: 80, right: 150, bottom: 200 };
    assert_eq!(intersection_area(a, b), 50 * 20);
    let c = RectPx { left: 100, top: 0, right: 200, bottom: 100 };
    assert_eq!(intersection_area(a, c), 0);
}

#[test]
fn side_by_side_monitors_cover_the_desktop() {
    let ms = vec![
        monitor("A", 0, 0, 1920, 1080, true),
        monitor("B", 1920, 0, 3840, 1080, false),
    ];
    let stats = analyze_virtual_layout(&ms, RectPx { left: 0, top: 0, right: 3840, bottom: 1080 });
    assert_eq!(stats.gap_area, 0);
    assert_eq!(stats.overlap_area, 0);
    assert_eq!(stats.max_stack, 1);
}

#[test]
fn gaps_and_overlaps_are_measured() {
    // B is lower than A, leaving a gap above it; C overlaps A.
    let ms = vec![
        monitor("A", 0, 0, 100, 100, true),
        monitor("B", 100, 50, 200, 100, false),
        monitor("C", 50, 50, 100, 100, false),
    ];
    let vr = RectPx { left: 0, top: 0, right: 200, bottom: 100 };
    let stats = analyze_virtual_layout(&ms, vr);
    assert_eq!(stats.gap_area, 100 * 50);
    assert_eq!(stats.overlap_area, 50 * 50);
    assert_eq!(stats.max_stack, 2);

    let d = monitor_diagnostics(&ms, vr);
    assert_eq!(d.primary_count, 1);
    assert!(d.out_of_bounds.is_empty());
    assert_eq!(d.overlaps, vec![(0, 2, 2500)]);
    assert_eq!(d.virtual_area, 20000);
}

#[test]
fn monitors_outside_the_desktop_are_listed() {
    let ms = vec![monitor("A", -10, 0, 100, 100, false), monitor("B", 0, 0, 50, 50, false)];
    let d = monitor_diagnostics(&ms, RectPx { left: 0, top: 0, right: 100, bottom: 100 });
    assert_eq!(d.primary_count, 0);
    assert_eq!(d.out_of_bounds, vec![0]);
}
