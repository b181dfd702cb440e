use pyro::config::{CaptureTarget, EditorShortcutConfig};
use pyro::settings::{
    commit_shortcut_recording, find_editor_shortcut_conflict, format_key_chord, format_key_code,
    get_shortcut_field_value, set_shortcut_field_value, commit_feedback, FieldErrorUpdate, StatusKind,
    handle_shortcut_record_key_event, index_to_target, map_shifted_symbol_key,
    map_slint_special_key_code, parse_delay, parse_hotkey, parse_recorded_key_text, read_required,
    target_to_index, validate_capture_hotkey, validate_color, validate_editor_shortcuts,
    CommitOutcome, RecordOutcome, ShortcutField, ShortcutForm, ShortcutRecorderState,
};
use pyro::shortcuts::KeyChord;

fn form() -> ShortcutForm {
    ShortcutForm { capture_hotkey: "PrintScreen".to_string(), shortcuts: EditorShortcutConfig::default_shortcuts() }
}

#[test]
fn field_ids_round_trip() {
    for id in 0..16 {
        let f = ShortcutField::from_id(id).unwrap();
        assert_eq!(f.id(), id);
    }
    assert!(ShortcutField::from_id(16).is_none());
    assert!(ShortcutField::from_id(-1).is_none());
    assert_eq!(ShortcutField::CopyAndSave.label(), "Copy+Save");
    assert!(ShortcutField::CaptureHotkey.is_capture_hotkey());
    assert!(ShortcutField::Undo.is_editor_shortcut());
    assert_eq!(ShortcutField::editor_fields().len(), 15);
}

#[test]
fn settings_key_labels() {
    assert_eq!(format_key_code(0x2C), "PrintScreen");
    assert_eq!(format_key_code('K' as u32), "K");
    let c = KeyChord { key: 0x2C, ctrl: true, shift: false, alt: true };
    assert_eq!(format_key_chord(c), "Ctrl+Alt+PrintScreen");
}

#[test]
fn settings_hotkey_parsing() {
    let c = parse_hotkey("Ctrl+Shift+F1").unwrap();
    assert_eq!(c, KeyChord { key: 112, ctrl: true, shift: true, alt: false });
    assert_eq!(parse_hotkey("SysRq").unwrap().key, 0x2C);
    assert!(validate_capture_hotkey("Q").is_err());
    assert!(validate_capture_hotkey("Win+Q").is_ok());
}

#[test]
fn capture_target_indexes() {
    for t in [CaptureTarget::Region, CaptureTarget::Primary, CaptureTarget::AllDisplays] {
        assert_eq!(index_to_target(target_to_index(t)).unwrap(), t);
    }
    assert_eq!(index_to_target(3).unwrap_err(), "Default target selection is invalid.");
}

#[test]
fn required_fields_and_delay_and_color() {
    assert_eq!(read_required("Save folder", "  C:/x  "), Ok("C:/x".to_string()));
    assert_eq!(read_required("Save folder", "   "), Err("Save folder cannot be empty.".to_string()));
    assert_eq!(parse_delay(""), Ok(0));
    assert_eq!(parse_delay(" 250 "), Ok(250));
    assert_eq!(parse_delay("-5"), Err("Default delay (ms) must be a non-negative integer.".to_string()));
    assert_eq!(validate_color(" 48b4ff"), Ok("#48B4FF".to_string()));
    assert_eq!(validate_color("#48b4f"), Err("Text commit feedback color must be #RRGGBB.".to_string()));
}

#[test]
fn editor_shortcut_validation_messages() {
    assert_eq!(validate_editor_shortcuts(&EditorShortcutConfig::default_shortcuts()), Ok(()));
    let mut s = EditorShortcutConfig::default_shortcuts();
    s.marker = "R".to_string();
    s.blur = "r".to_string();
    assert_eq!(
        validate_editor_shortcuts(&s),
        Err("Shortcut conflicts detected: Rectangle + Marker => `R` | Marker + Blur => `R`.".to_string())
    );
    let mut t = EditorShortcutConfig::default_shortcuts();
    t.undo = "Ctrl+".to_string();
    let err = validate_editor_shortcuts(&t).unwrap_err();
    assert!(err.starts_with("Undo shortcut is invalid: "));
}

#[test]
fn toolkit_key_codes() {
    assert_eq!(map_slint_special_key_code(0xF704), Some(112));
    assert_eq!(map_slint_special_key_code(0xF71B), Some(135));
    assert_eq!(map_slint_special_key_code(0xF72E), Some(0x2C));
    assert_eq!(map_slint_special_key_code(0x41), None);
    assert_eq!(map_shifted_symbol_key('!'), Some('1' as u32));
    assert_eq!(map_shifted_symbol_key('{'), Some(0xDB));
    assert_eq!(map_shifted_symbol_key('a'), None);
}

#[test]
fn recorded_key_texts() {
    assert_eq!(parse_recorded_key_text("a", false), Some('A' as u32));
    assert_eq!(parse_recorded_key_text(" ", false), None);
    assert_eq!(parse_recorded_key_text("Shift", false), None);
    assert_eq!(parse_recorded_key_text("plus", false), Some(0xBB));
    assert_eq!(parse_recorded_key_text("PrtSc", false), Some(0x2C));
    assert_eq!(parse_recorded_key_text("F7", false), Some(118));
}

#[test]
fn conflicts_with_other_editor_shortcuts() {
    let f = form();
    let r = KeyChord { key: 'R' as u32, ctrl: false, shift: false, alt: false };
    assert_eq!(find_editor_shortcut_conflict(&f, ShortcutField::Select, r), Some("Rectangle"));
    assert_eq!(find_editor_shortcut_conflict(&f, ShortcutField::Rectangle, r), None);
}

#[test]
fn recording_a_shortcut() {
    let mut f = form();
    let mut st = ShortcutRecorderState { active: Some(ShortcutField::Undo), pending: None };
    assert!(matches!(
        handle_shortcut_record_key_event(&mut st, &mut f, false, "a", false, false, false),
        RecordOutcome::Ignored
    ));
    match handle_shortcut_record_key_event(&mut st, &mut f, true, "q", true, false, false) {
        RecordOutcome::Candidate(c) => assert_eq!(c, KeyChord { key: 'Q' as u32, ctrl: true, shift: false, alt: false }),
        other => panic!("unexpected {:?}", other),
    }
    match handle_shortcut_record_key_event(&mut st, &mut f, true, "Enter", false, false, false) {
        RecordOutcome::Committed(CommitOutcome::Updated { field, value }) => {
            assert_eq!(field, ShortcutField::Undo);
            assert_eq!(value, "Ctrl+Q");
        }
        other => panic!("unexpected {:?}", other),
    }
    assert_eq!(f.shortcuts.undo, "Ctrl+Q");
    assert_eq!(st, ShortcutRecorderState { active: None, pending: None });
}

#[test]
fn recording_a_conflicting_or_invalid_shortcut() {
    let mut f = form();
    let mut st = ShortcutRecorderState {
        active: Some(ShortcutField::Select),
        pending: Some(KeyChord { key: 'R' as u32, ctrl: false, shift: false, alt: false }),
    };
    match commit_shortcut_recording(&mut st, &mut f) {
        CommitOutcome::Conflict { with, value, .. } => {
            assert_eq!(with, "Rectangle");
            assert_eq!(value, "R");
        }
        other => panic!("unexpected {:?}", other),
    }
    assert_eq!(st.pending, None);
    assert_eq!(f.shortcuts.select, "S");

    let mut cap = ShortcutRecorderState { active: Some(ShortcutField::CaptureHotkey), pending: None };
    assert!(matches!(
        handle_shortcut_record_key_event(&mut cap, &mut f, true, "x", false, false, false),
        RecordOutcome::RejectedCapture(_)
    ));
    assert!(matches!(
        handle_shortcut_record_key_event(&mut cap, &mut f, true, "Esc", false, false, false),
        RecordOutcome::Canceled
    ));
    assert_eq!(cap.active, None);
}

#[test]
fn field_value_reads_back_what_was_written() {
    let mut f = form();
    set_shortcut_field_value(&mut f, ShortcutField::Blur, "Ctrl+B");
    assert_eq!(get_shortcut_field_value(&f, ShortcutField::Blur), "Ctrl+B");
    assert_eq!(get_shortcut_field_value(&f, ShortcutField::CaptureHotkey), "PrintScreen");
    set_shortcut_field_value(&mut f, ShortcutField::CaptureHotkey, "Alt+F1");
    assert_eq!(f.capture_hotkey, "Alt+F1");
    assert_eq!(get_shortcut_field_value(&f, ShortcutField::Blur), "Ctrl+B");
}

#[test]
fn settings_accept_exactly_what_the_editor_accepts() {
    let mut s = EditorShortcutConfig::default_shortcuts();
    assert_eq!(validate_editor_shortcuts(&s).is_ok(), pyro::keybindings::EditorKeybindings::from_config(&s).is_ok());
    s.blur = s.select.clone();
    assert!(validate_editor_shortcuts(&s).is_err());
    assert!(pyro::keybindings::EditorKeybindings::from_config(&s).is_err());
    s.blur = "Ctrl+Nope".to_string();
    assert!(validate_editor_shortcuts(&s).is_err());
    assert!(pyro::keybindings::EditorKeybindings::from_config(&s).is_err());
}

#[test]
fn conflicting_commit_marks_the_field_and_success_clears_it() {
    let mut f = form();
    let mut st = ShortcutRecorderState {
        active: Some(ShortcutField::Select),
        pending: Some(KeyChord { key: 'R' as u32, ctrl: false, shift: false, alt: false }),
    };
    let fb = commit_feedback(&commit_shortcut_recording(&mut st, &mut f));
    match fb.field_error {
        FieldErrorUpdate::Show { field_id, message } => {
            assert_eq!(field_id, 1);
            assert_eq!(message, "Already used by Rectangle.");
        }
        other => panic!("unexpected {:?}", other),
    }
    assert_eq!(
        fb.status,
        Some(("`R` is already used by Rectangle. Choose a different shortcut.".to_string(), StatusKind::Warning))
    );
    st.pending = Some(KeyChord { key: 'Q' as u32, ctrl: true, shift: false, alt: false });
    let fb = commit_feedback(&commit_shortcut_recording(&mut st, &mut f));
    assert!(matches!(fb.field_error, FieldErrorUpdate::Clear));
    assert_eq!(fb.status, Some(("Updated Select to `Ctrl+Q`. Click Save to persist.".to_string(), StatusKind::Neutral)));
    st.active = Some(ShortcutField::Blur);
    let fb = commit_feedback(&commit_shortcut_recording(&mut st, &mut f));
    match fb.field_error {
        FieldErrorUpdate::Show { field_id, message } => {
            assert_eq!(field_id, 9);
            assert_eq!(message, "Press a shortcut, then Enter to commit.");
        }
        other => panic!("unexpected {:?}", other),
    }
}

#[test]
fn accepted_capture_hotkeys_register_in_the_tray_app() {
    for s in ["Ctrl+Alt+F5", "PrintScreen", "shift + prtsc", "Win+Ctrl+K"] {
        assert!(validate_capture_hotkey(s).is_ok());
        assert!(pyro::hotkey::parse_hotkey(s).is_ok());
    }
    // The settings window's own PrintScreen alias is not read by the tray app.
    assert!(validate_capture_hotkey("Ctrl+Print").is_ok());
    assert!(pyro::hotkey::parse_hotkey("Ctrl+Print").is_err());
}
