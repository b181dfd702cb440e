use pyro::config::{EditorShortcutConfig, RadialMenuAnimationSpeed};
use pyro::editor::{EditorState, ToolbarHit};
use pyro::geometry::{Point, RectPx};
use pyro::keybindings::{EditorKeybindings, Tool};
use pyro::toolbar::{
    clamp_radial_center, icon_mask_bgra, icon_origin, offset_toolbar_layout, should_render_selection_in_chrome, should_use_color_key,
    tool_display_name, tool_switch_needs_prepaint, toolbar_button_base_rgb, toolbar_footer_text, toolbar_hit,
    IconMask, ToolbarLayout,
};

fn r(left: i32, top: i32, w: i32, h: i32) -> RectPx {
    RectPx { left, top, right: left + w, bottom: top + h }
}

fn layout() -> ToolbarLayout {
    ToolbarLayout {
        panel: r(0, 0, 766, 145),
        lcars_cap: r(0, 0, 177, 97),
        cap_footer: r(0, 110, 160, 35),
        top_band: r(177, 0, 507, 25),
        readout: r(616, 120, 126, 16),
        tools_group: r(116, 25, 332, 68),
        tools_tag: r(122, 29, 80, 15),
        actions_group: r(472, 25, 270, 68),
        actions_tag: r(472, 29, 90, 15),
        select_btn: r(120, 44, 64, 25),
        rect_btn: r(120, 71, 64, 25),
        ellipse_btn: r(186, 44, 64, 25),
        line_btn: r(186, 71, 64, 25),
        arrow_btn: r(252, 44, 64, 25),
        marker_btn: r(252, 71, 64, 25),
        text_btn: r(318, 44, 64, 25),
        pixelate_btn: r(318, 71, 64, 25),
        blur_btn: r(384, 44, 64, 25),
        copy_btn: r(474, 43, 64, 55),
        save_btn: r(544, 43, 64, 55),
        copy_save_btn: r(614, 43, 64, 55),
        pin_btn: r(687, 43, 54, 55),
    }
}

#[test]
fn toolbar_buttons_under_points() {
    let l = layout();
    assert_eq!(toolbar_hit(l, Point { x: 130, y: 50 }), Some(ToolbarHit::Select));
    assert_eq!(toolbar_hit(l, Point { x: 130, y: 80 }), Some(ToolbarHit::Rect));
    assert_eq!(toolbar_hit(l, Point { x: 700, y: 60 }), Some(ToolbarHit::Pin));
    assert_eq!(toolbar_hit(l, Point { x: 5, y: 5 }), Some(ToolbarHit::Panel));
    assert_eq!(toolbar_hit(l, Point { x: 800, y: 5 }), None);
}

#[test]
fn moved_toolbar_hits_the_same_buttons() {
    let l = layout();
    let moved = offset_toolbar_layout(l, 100, -20);
    assert_eq!(moved.select_btn, r(220, 24, 64, 25));
    assert_eq!(toolbar_hit(moved, Point { x: 230, y: 30 }), toolbar_hit(l, Point { x: 130, y: 50 }));
}

#[test]
fn radial_menu_center_stays_inside() {
    let client = RectPx { left: 0, top: 0, right: 1000, bottom: 800 };
    assert_eq!(clamp_radial_center(Point { x: 5, y: 900 }, client), Point { x: 71, y: 728 });
    assert_eq!(clamp_radial_center(Point { x: 500, y: 400 }, client), Point { x: 500, y: 400 });
    let tiny = RectPx { left: 0, top: 0, right: 50, bottom: 50 };
    assert_eq!(clamp_radial_center(Point { x: 0, y: 0 }, tiny), Point { x: 71, y: 71 });
}

#[test]
fn footer_names_tool_and_size() {
    assert_eq!(tool_display_name(Tool::Pixelate), "CENSOR");
    let kb = EditorKeybindings::from_config(&EditorShortcutConfig::default_shortcuts()).ok().unwrap();
    let mut e = EditorState::new(
        RectPx { left: 10, top: 20, right: 650, bottom: 500 },
        RectPx { left: 0, top: 0, right: 1000, bottom: 800 },
        kb,
        [0, 0, 0],
        RadialMenuAnimationSpeed::Fast,
        [[0; 4]; 8],
    );
    assert_eq!(toolbar_footer_text(&e), "SELECT / 640 x 480");
    assert!(should_render_selection_in_chrome(&e, true, true));
    assert!(!should_render_selection_in_chrome(&e, false, true));
    e.handle_key('M' as u32, false, false, false, false);
    assert!(!should_render_selection_in_chrome(&e, true, true));
}

#[test]
fn button_base_colours_follow_the_button_groups() {
    assert_eq!(toolbar_button_base_rgb(ToolbarHit::Select), [255, 162, 109]);
    assert_eq!(toolbar_button_base_rgb(ToolbarHit::Rect), [173, 170, 243]);
    assert_eq!(toolbar_button_base_rgb(ToolbarHit::Marker), [214, 166, 216]);
    assert_eq!(toolbar_button_base_rgb(ToolbarHit::CopyAndSave), [255, 162, 109]);
    assert_eq!(toolbar_button_base_rgb(ToolbarHit::Panel), [0, 0, 0]);
}

#[test]
fn no_tool_keys_out_a_colour() {
    assert!(!should_use_color_key(Tool::Marker, true));
    assert!(!tool_switch_needs_prepaint(Tool::Marker, Tool::Select, true));
}

#[test]
fn icon_mask_is_tinted_and_premultiplied() {
    let icon = IconMask { width: 2, height: 1, alpha: vec![255, 51] };
    assert_eq!(icon_mask_bgra(&icon, [200, 100, 50]), vec![50, 100, 200, 255, 10, 20, 40, 51]);
}

#[test]
fn icon_mask_shorter_than_the_icon_leaves_clear_pixels() {
    let icon = IconMask { width: 2, height: 1, alpha: vec![255] };
    assert_eq!(icon_mask_bgra(&icon, [1, 2, 3]), vec![3, 2, 1, 255, 0, 0, 0, 0]);
    let empty = IconMask { width: 0, height: 4, alpha: vec![9] };
    assert!(icon_mask_bgra(&empty, [1, 2, 3]).is_empty());
}

#[test]
fn icon_sits_centred_in_its_chip() {
    assert_eq!(icon_origin(RectPx { left: 10, top: 20, right: 40, bottom: 41 }, 16, 16), Point { x: 17, y: 22 });
    assert_eq!(icon_origin(RectPx { left: 10, top: 20, right: 20, bottom: 30 }, 16, 16), Point { x: 10, y: 20 });
}
