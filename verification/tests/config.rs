use pyro::config::{AppConfig, CaptureTarget, EditorShortcutConfig, RadialMenuAnimationSpeed};

#[test]
fn animation_durations() {
    assert_eq!(RadialMenuAnimationSpeed::Instant.duration_ms(), 0);
    assert_eq!(RadialMenuAnimationSpeed::Fast.duration_ms(), 150);
    assert_eq!(RadialMenuAnimationSpeed::Normal.duration_ms(), 250);
    assert_eq!(RadialMenuAnimationSpeed::Slow.duration_ms(), 350);
    assert_eq!(RadialMenuAnimationSpeed::Slower.duration_ms(), 500);
}

#[test]
fn capture_target_names() {
    assert_eq!(CaptureTarget::Primary.name(), "primary");
    assert_eq!(CaptureTarget::Region.name(), "region");
    assert_eq!(CaptureTarget::AllDisplays.name(), "all-displays");
}

#[test]
fn default_config_values() {
    let c = AppConfig::default_with_save_dir("C:/shots".to_string());
    assert_eq!(c.capture_hotkey, "PrintScreen");
    assert_eq!(c.default_target, CaptureTarget::Region);
    assert!(c.copy_to_clipboard);
    assert!(c.open_editor);
    assert_eq!(c.save_dir, "C:/shots");
    assert_eq!(c.filename_template, "pyro-%Y%m%d-%H%M%S");
    assert_eq!(c.editor.text_commit_feedback_color, "#48B4FF");
    assert_eq!(c.editor.annotation_palette[0], "#FF5E5E");
    assert_eq!(c.editor.annotation_palette[7], "#FFFFFF");
    let s = EditorShortcutConfig::default_shortcuts();
    assert_eq!(s.copy_and_save, "Ctrl+Shift+S");
    assert_eq!(s.delete_selected, "Delete");
}
