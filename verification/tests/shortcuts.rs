use pyro::shortcuts::{format_key_chord, key_code_label, parse_editor_shortcut, KeyChord, ShortcutError};

#[test]
fn shortcut_parses_modifiers_and_letter() {
    let c = parse_editor_shortcut("Ctrl+Shift+s").expect("valid shortcut");
    assert_eq!(c, KeyChord { key: 'S' as u32, ctrl: true, shift: true, alt: false });
}

#[test]
fn shortcut_parses_named_and_punctuation_keys() {
    assert_eq!(parse_editor_shortcut("Delete").unwrap().key, 0x2E);
    assert_eq!(parse_editor_shortcut("del").unwrap().key, 0x2E);
    assert_eq!(parse_editor_shortcut("Enter").unwrap().key, 0x0D);
    assert_eq!(parse_editor_shortcut("Esc").unwrap().key, 0x1B);
    assert_eq!(parse_editor_shortcut("Space").unwrap().key, 0x20);
    assert_eq!(parse_editor_shortcut("[").unwrap().key, 0xDB);
    assert_eq!(parse_editor_shortcut("Alt+/").unwrap(), KeyChord { key: 0xBF, ctrl: false, shift: false, alt: true });
    assert_eq!(parse_editor_shortcut("F5").unwrap().key, 116);
    assert_eq!(parse_editor_shortcut("7").unwrap().key, '7' as u32);
}

#[test]
fn shortcut_errors() {
    assert!(matches!(parse_editor_shortcut("Ctrl++Z"), Err(ShortcutError::EmptyToken)));
    assert!(matches!(parse_editor_shortcut("A+B"), Err(ShortcutError::MultipleKeys)));
    assert!(matches!(parse_editor_shortcut("Ctrl+Shift"), Err(ShortcutError::MissingKey)));
    match parse_editor_shortcut("Ctrl+F30") {
        Err(ShortcutError::UnsupportedKey(t)) => assert_eq!(t, "F30"),
        other => panic!("unexpected {:?}", other),
    }
}

#[test]
fn shortcut_error_messages() {
    let e = parse_editor_shortcut("Ctrl+Nope").unwrap_err();
    assert_eq!(e.message(), "unsupported key `NOPE`");
    assert_eq!(ShortcutError::MissingKey.message(), "shortcut must include a key");
}

#[test]
fn key_labels() {
    assert_eq!(key_code_label('Q' as u32), "Q");
    assert_eq!(key_code_label(123), "F12");
    assert_eq!(key_code_label(0x2E), "Delete");
    assert_eq!(key_code_label(0x08), "Backspace");
    assert_eq!(key_code_label(0xFF), "VK_0xFF");
}

#[test]
fn chord_formatting_orders_modifiers() {
    let c = KeyChord { key: 'S' as u32, ctrl: true, shift: true, alt: true };
    assert_eq!(format_key_chord(c), "Ctrl+Shift+Alt+S");
}

#[test]
fn chord_text_round_trips() {
    for text in ["Ctrl+Z", "Shift+Alt+F7", "Delete", "Ctrl+[", "Alt+Backspace"] {
        let c = parse_editor_shortcut(text).unwrap();
        let shown = format_key_chord(c);
        assert_eq!(parse_editor_shortcut(&shown).unwrap(), c);
    }
}

#[test]
fn chord_matches_exact_modifiers() {
    let c = parse_editor_shortcut("Ctrl+C").unwrap();
    assert!(c.matches('C' as u32, true, false, false));
    assert!(!c.matches('C' as u32, true, true, false));
}
