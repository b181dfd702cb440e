use pyro::config::{CaptureTarget, EditorShortcutConfig, RadialMenuAnimationSpeed};
use pyro::filename::DateTimeParts;
use pyro::settings_form::{
    config_from_form, sanitize_palette, slider_index_to_speed, speed_to_slider_index, SettingsForm,
};

fn now() -> DateTimeParts {
    DateTimeParts { year: 2025, month: 3, day: 15, hour: 9, minute: 5, second: 7, ordinal: 74, weekday_from_monday: 6, iso_week: 11 }
}

fn form() -> SettingsForm {
    SettingsForm {
        capture_hotkey: " Ctrl+Shift+S ".to_string(),
        default_target_index: 1,
        default_delay_ms: " 300 ".to_string(),
        save_dir: " C:/shots ".to_string(),
        filename_template: "pyro-%Y".to_string(),
        text_commit_feedback_color: "48b4ff".to_string(),
        radial_speed_index: 3,
        copy_to_clipboard: false,
        open_editor: true,
        shortcuts: EditorShortcutConfig::default_shortcuts(),
    }
}

fn palette() -> [String; 8] {
    ["#000000", "#111111", "#222222", "#333333", "#444444", "#555555", "#666666", "#777777"].map(|s| s.to_string())
}

#[test]
fn speed_slider_steps_round_trip() {
    for s in [
        RadialMenuAnimationSpeed::Instant,
        RadialMenuAnimationSpeed::Fast,
        RadialMenuAnimationSpeed::Normal,
        RadialMenuAnimationSpeed::Slow,
        RadialMenuAnimationSpeed::Slower,
    ] {
        assert_eq!(slider_index_to_speed(speed_to_slider_index(s)), s);
    }
    assert_eq!(slider_index_to_speed(9), RadialMenuAnimationSpeed::Normal);
}

#[test]
fn palette_is_sanitized() {
    let mut raw = palette();
    raw[0] = " abcdef".to_string();
    raw[3] = "nope".to_string();
    let p = sanitize_palette(&raw);
    assert_eq!(p[0], "#ABCDEF");
    assert_eq!(p[1], "#111111");
    assert_eq!(p[3], "#5FD382");
}

#[test]
fn a_valid_form_becomes_a_configuration() {
    let c = config_from_form(&form(), &palette(), now()).unwrap();
    assert_eq!(c.capture_hotkey, "Ctrl+Shift+S");
    assert_eq!(c.default_target, CaptureTarget::Primary);
    assert_eq!(c.default_delay_ms, 300);
    assert_eq!(c.save_dir, "C:/shots");
    assert_eq!(c.filename_template, "pyro-%Y");
    assert_eq!(c.editor.text_commit_feedback_color, "#48B4FF");
    assert_eq!(c.editor.radial_menu_animation_speed, RadialMenuAnimationSpeed::Slow);
    assert!(!c.copy_to_clipboard && c.open_editor);
    assert_eq!(c.editor.annotation_palette[7], "#777777");
}

#[test]
fn the_first_bad_field_is_reported() {
    let mut f = form();
    f.save_dir = "  ".to_string();
    f.text_commit_feedback_color = "bad".to_string();
    assert_eq!(config_from_form(&f, &palette(), now()).err().unwrap(), "Save directory cannot be empty.");
    let mut g = form();
    g.shortcuts.copy_and_save = " ".to_string();
    assert_eq!(config_from_form(&g, &palette(), now()).err().unwrap(), "Shortcut Copy+Save cannot be empty.");
    let mut h = form();
    h.capture_hotkey = "Q".to_string();
    assert_eq!(
        config_from_form(&h, &palette(), now()).err().unwrap(),
        "hotkey must include at least one modifier (except PrintScreen)"
    );
    let mut i = form();
    i.default_target_index = 5;
    assert_eq!(config_from_form(&i, &palette(), now()).err().unwrap(), "Default target selection is invalid.");
    let mut j = form();
    j.shortcuts.redo = "ctrl+z".to_string();
    assert_eq!(
        config_from_form(&j, &palette(), now()).err().unwrap(),
        "Shortcut conflicts detected: Undo + Redo => `Ctrl+Z`."
    );
}
