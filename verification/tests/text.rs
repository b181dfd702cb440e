use pyro::text::utf16_to_string;

#[test]
fn utf16_buffer_ends_at_the_first_nul() {
    let units: Vec<u16> = "DISPLAY1\0junk".encode_utf16().collect();
    assert_eq!(utf16_to_string(&units), "DISPLAY1");
}

#[test]
fn utf16_buffer_without_nul_is_taken_whole() {
    let units: Vec<u16> = "Écran".encode_utf16().collect();
    assert_eq!(utf16_to_string(&units), "Écran");
    assert_eq!(utf16_to_string(&[]), "");
}

#[test]
fn lone_surrogate_becomes_replacement_character() {
    assert_eq!(utf16_to_string(&[0x41, 0xD800, 0x42]), "A\u{FFFD}B");
}

#[test]
fn surrogate_pair_decodes_to_one_character() {
    assert_eq!(utf16_to_string(&[0xD83D, 0xDE00, 0x21]), "\u{1F600}!");
    assert_eq!(utf16_to_string(&[0xDC00, 0x41]), "\u{FFFD}A");
}
