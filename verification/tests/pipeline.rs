use std::path::PathBuf;

use pyro::config::{AppConfig, CaptureTarget, RadialMenuAnimationSpeed};
use pyro::hotkey::parse_hotkey;
use pyro::tray::TrayAction;
use pyro::keybindings::{EditorOutputAction, KeybindingError};
use pyro::pipeline::{
    listener_action, ListenerAction, ListenerEvent,
    parse_annotation_palette, parse_hex_rgb_color, resolve_editor_options_from_data,
    resolve_output_plan, transition_mode, AppMode, AppState, EditorOptionsError, HexColorError,
    OutputPlan, resolve_capture_request, should_region_edit, CaptureRequest, CaptureRequestError,
    hotkey_update, HotkeyUpdate,
};

#[test]
fn hex_colors_parse_per_channel() {
    assert_eq!(parse_hex_rgb_color("#48B4FF"), Ok([0x48, 0xB4, 0xFF]));
    assert_eq!(parse_hex_rgb_color("  00ff7f "), Ok([0, 255, 127]));
    assert_eq!(parse_hex_rgb_color("#12345"), Err(HexColorError::Format));
    assert_eq!(parse_hex_rgb_color("#1234567"), Err(HexColorError::Format));
    assert_eq!(parse_hex_rgb_color("#zz0000"), Err(HexColorError::Red));
    assert_eq!(parse_hex_rgb_color("#00zz00"), Err(HexColorError::Green));
    assert_eq!(parse_hex_rgb_color("#0000zz"), Err(HexColorError::Blue));
    // `from_str_radix` takes a leading `+`.
    assert_eq!(parse_hex_rgb_color("+F0000"), Ok([15, 0, 0]));
    assert_eq!(HexColorError::Red.message(), "invalid red channel");
}

#[test]
fn output_plan_without_editor_action() {
    let p = PathBuf::from("out.png");
    assert_eq!(resolve_output_plan(true, None, None), OutputPlan { copy: true, save: false, pin: false });
    assert_eq!(resolve_output_plan(false, None, None), OutputPlan { copy: false, save: true, pin: false });
    assert_eq!(resolve_output_plan(true, Some(&p), None), OutputPlan { copy: true, save: true, pin: false });
}

#[test]
fn output_plan_follows_editor_action() {
    let p = PathBuf::from("out.png");
    assert_eq!(
        resolve_output_plan(false, None, Some(EditorOutputAction::Copy)),
        OutputPlan { copy: true, save: false, pin: false }
    );
    assert_eq!(
        resolve_output_plan(false, Some(&p), Some(EditorOutputAction::Copy)),
        OutputPlan { copy: true, save: true, pin: false }
    );
    assert_eq!(
        resolve_output_plan(true, None, Some(EditorOutputAction::Save)),
        OutputPlan { copy: false, save: true, pin: false }
    );
    assert_eq!(
        resolve_output_plan(false, None, Some(EditorOutputAction::CopyAndSave)),
        OutputPlan { copy: true, save: true, pin: false }
    );
    assert_eq!(
        resolve_output_plan(true, None, Some(EditorOutputAction::Pin)),
        OutputPlan { copy: false, save: false, pin: true }
    );
}

#[test]
fn default_palette_parses_opaque() {
    let cfg = AppConfig::default_with_save_dir("shots".to_string());
    let palette = parse_annotation_palette(&cfg).expect("default palette");
    assert_eq!(palette[0], [0xFF, 0x5E, 0x5E, 255]);
    assert_eq!(palette[7], [255, 255, 255, 255]);
}

#[test]
fn bad_palette_entry_is_named() {
    let mut cfg = AppConfig::default_with_save_dir("shots".to_string());
    cfg.editor.annotation_palette[5] = "#12".to_string();
    cfg.editor.annotation_palette[6] = "#zz0000".to_string();
    let err = parse_annotation_palette(&cfg).unwrap_err();
    assert_eq!(err.index, 5);
    assert_eq!(err.cause, HexColorError::Format);
}

#[test]
fn editor_options_from_defaults() {
    let cfg = AppConfig::default_with_save_dir("shots".to_string());
    let opts = resolve_editor_options_from_data(&cfg).ok().expect("defaults are valid");
    assert_eq!(opts.text_commit_feedback_color, [0x48, 0xB4, 0xFF]);
    assert_eq!(opts.radial_menu_animation_speed, cfg.editor.radial_menu_animation_speed);
    assert_eq!(opts.annotation_palette[4], [0x48, 0xB4, 0xFF, 255]);
    assert_eq!(opts.keybindings.undo.label, "Ctrl+Z");
}

#[test]
fn editor_options_report_the_first_failure() {
    let mut cfg = AppConfig::default_with_save_dir("shots".to_string());
    cfg.editor.text_commit_feedback_color = "blue".to_string();
    cfg.editor.annotation_palette[0] = "bad".to_string();
    assert!(matches!(
        resolve_editor_options_from_data(&cfg),
        Err(EditorOptionsError::FeedbackColor(HexColorError::Format))
    ));
    cfg.editor.shortcuts.undo = "Ctrl+".to_string();
    assert!(matches!(
        resolve_editor_options_from_data(&cfg),
        Err(EditorOptionsError::Shortcuts(KeybindingError::Invalid { field: 12, .. }))
    ));
    let mut cfg2 = AppConfig::default_with_save_dir("shots".to_string());
    cfg2.editor.radial_menu_animation_speed = RadialMenuAnimationSpeed::Slow;
    cfg2.editor.annotation_palette[2] = "#00000g".to_string();
    match resolve_editor_options_from_data(&cfg2) {
        Err(EditorOptionsError::Palette(e)) => {
            assert_eq!(e.index, 2);
            assert_eq!(e.cause, HexColorError::Blue);
        }
        _ => panic!("expected a palette error"),
    }
}

#[test]
fn mode_transitions() {
    let mut state = AppState { mode: AppMode::Idle };
    transition_mode(&mut state, AppMode::Capture);
    assert_eq!(state.mode, AppMode::Capture);
    transition_mode(&mut state, AppMode::Edit);
    assert_eq!(state.mode, AppMode::Edit);
}

#[test]
fn capture_requests_override_the_configuration() {
    let cfg = AppConfig::default_with_save_dir("shots".to_string());
    let none = CaptureRequest { target: None, delay_ms: None, clipboard: false, no_clipboard: false, edit: false, no_edit: false };
    let s = resolve_capture_request(none, &cfg).unwrap();
    assert_eq!(s.target, CaptureTarget::Region);
    assert_eq!(s.delay_ms, 0);
    assert!(s.should_copy);
    assert!(s.should_region_edit);
    let primary = CaptureRequest { target: Some(CaptureTarget::Primary), delay_ms: Some(500), no_clipboard: true, ..none };
    let s2 = resolve_capture_request(primary, &cfg).unwrap();
    assert_eq!(s2.delay_ms, 500);
    assert!(!s2.should_copy);
    assert!(!s2.should_region_edit);
    let no_edit = CaptureRequest { no_edit: true, ..none };
    assert!(!resolve_capture_request(no_edit, &cfg).unwrap().should_region_edit);
    let both = CaptureRequest { clipboard: true, no_clipboard: true, edit: true, no_edit: true, ..none };
    assert_eq!(resolve_capture_request(both, &cfg), Err(CaptureRequestError::ClipboardConflict));
    let edits = CaptureRequest { edit: true, no_edit: true, ..none };
    assert_eq!(resolve_capture_request(edits, &cfg), Err(CaptureRequestError::EditConflict));
    assert_eq!(CaptureRequestError::EditConflict.message(), "cannot use --edit and --no-edit together");
    assert!(should_region_edit(&cfg, CaptureTarget::Region));
    assert!(!should_region_edit(&cfg, CaptureTarget::AllDisplays));
}

#[test]
fn hotkey_reload_decisions() {
    let registered = parse_hotkey("PrintScreen").unwrap();
    assert!(matches!(hotkey_update("PrintScreen", "PrintScreen", registered), HotkeyUpdate::Unchanged));
    assert!(matches!(hotkey_update("PrintScreen", "printscreen", registered), HotkeyUpdate::SameHotkey));
    match hotkey_update("PrintScreen", "Ctrl+F9", registered) {
        HotkeyUpdate::Register(h) => assert_eq!(h.vk, 120),
        other => panic!("unexpected {:?}", other),
    }
    assert!(matches!(hotkey_update("PrintScreen", "Q", registered), HotkeyUpdate::Invalid(_)));
}

#[test]
fn listener_captures_on_hotkey_and_capture_entries() {
    assert_eq!(listener_action(ListenerEvent::Hotkey), ListenerAction::RefreshThenCapture(None));
    assert_eq!(listener_action(ListenerEvent::Reload), ListenerAction::Reload);
    let code = |a: TrayAction| a.code();
    assert_eq!(listener_action(ListenerEvent::Tray(code(TrayAction::CaptureDefault))), ListenerAction::RefreshThenCapture(None));
    assert_eq!(
        listener_action(ListenerEvent::Tray(code(TrayAction::CapturePrimary))),
        ListenerAction::RefreshThenCapture(Some(CaptureTarget::Primary))
    );
    assert_eq!(
        listener_action(ListenerEvent::Tray(code(TrayAction::CaptureRegion))),
        ListenerAction::RefreshThenCapture(Some(CaptureTarget::Region))
    );
    assert_eq!(
        listener_action(ListenerEvent::Tray(code(TrayAction::CaptureAllDisplays))),
        ListenerAction::RefreshThenCapture(Some(CaptureTarget::AllDisplays))
    );
}

#[test]
fn listener_opens_settings_quits_and_ignores_unknown_codes() {
    assert_eq!(listener_action(ListenerEvent::Tray(TrayAction::Settings.code())), ListenerAction::OpenSettings);
    assert_eq!(listener_action(ListenerEvent::Tray(TrayAction::Quit.code())), ListenerAction::Quit);
    assert_eq!(listener_action(ListenerEvent::Tray(987654)), ListenerAction::Ignore);
}
