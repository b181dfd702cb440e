use pyro::glyph::glyph_5x7;

#[test]
fn capital_a_draws_the_a_glyph() {
    assert_eq!(glyph_5x7('A'), [0b01110, 0b10001, 0b10001, 0b11111, 0b10001, 0b10001, 0b10001]);
    assert_eq!(glyph_5x7('A'), glyph_5x7('a'));
}

#[test]
fn unknown_characters_draw_the_placeholder() {
    assert_eq!(glyph_5x7('?'), glyph_5x7('#'));
    assert_ne!(glyph_5x7('?'), glyph_5x7('0'));
}
