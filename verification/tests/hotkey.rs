use pyro::hotkey::{parse_hotkey, HotkeyError};

#[test]
fn parses_default_hotkey() {
    let parsed = parse_hotkey("Alt+Shift+S").expect("valid hotkey");
    assert_eq!(parsed.vk, 'S' as u32);
    assert_ne!(parsed.modifiers, 0);
}

#[test]
fn rejects_missing_modifier() {
    let err = parse_hotkey("S").expect_err("must fail");
    assert!(err.message().contains("modifier"));
}

#[test]
fn allows_printscreen_without_modifier() {
    let parsed = parse_hotkey("PrintScreen").expect("valid hotkey");
    assert_eq!(parsed.vk, 0x2C);
}

#[test]
fn parses_function_key() {
    let parsed = parse_hotkey("Ctrl+F12").expect("valid hotkey");
    assert_eq!(parsed.vk, 123);
}

#[test]
fn hotkey_modifier_bits_combine() {
    // MOD_ALT = 1, MOD_CONTROL = 2, MOD_SHIFT = 4, MOD_WIN = 8, MOD_NOREPEAT = 0x4000
    let parsed = parse_hotkey("Ctrl+Alt+Shift+Win+A").expect("valid hotkey");
    assert_eq!(parsed.vk, 'A' as u32);
    assert_eq!(parsed.modifiers & 0xF, 0xF);
}

#[test]
fn hotkey_lower_case_and_spaces() {
    let parsed = parse_hotkey(" ctrl + shift + 5 ").expect("valid hotkey");
    assert_eq!(parsed.vk, '5' as u32);
}

#[test]
fn hotkey_rejects_empty_token() {
    let err = parse_hotkey("Ctrl++S").expect_err("must fail");
    assert!(matches!(err, HotkeyError::EmptyToken));
}

#[test]
fn hotkey_rejects_two_keys() {
    let err = parse_hotkey("Ctrl+A+B").expect_err("must fail");
    assert!(matches!(err, HotkeyError::MultipleKeys));
}

#[test]
fn hotkey_rejects_unknown_key() {
    let err = parse_hotkey("Ctrl+Banana").expect_err("must fail");
    assert!(matches!(err, HotkeyError::UnsupportedKey(_)));
}

#[test]
fn hotkey_rejects_modifiers_only() {
    let err = parse_hotkey("Ctrl+Shift").expect_err("must fail");
    assert!(matches!(err, HotkeyError::MissingKey));
}
