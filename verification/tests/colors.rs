use pyro::colors::{hex_to_rgb, normalize_hex_color, rgb_to_hex};

#[test]
fn normalizes_hex_colors() {
    assert_eq!(normalize_hex_color(" 48b4ff ").as_deref(), Some("#48B4FF"));
    assert_eq!(normalize_hex_color("#abcdef").as_deref(), Some("#ABCDEF"));
    assert_eq!(normalize_hex_color("#12345"), None);
    assert_eq!(normalize_hex_color("#GG0000"), None);
}

#[test]
fn hex_rgb_conversions() {
    assert_eq!(hex_to_rgb("#FF5E5E"), Some([255, 94, 94]));
    assert_eq!(hex_to_rgb("zz"), None);
    assert_eq!(rgb_to_hex([0, 128, 255]), "#0080FF");
}

#[test]
fn rgb_hex_round_trip() {
    for rgb in [[0u8, 0, 0], [255, 255, 255], [18, 52, 86], [171, 205, 239]] {
        assert_eq!(hex_to_rgb(&rgb_to_hex(rgb)), Some(rgb));
    }
}

#[test]
fn normalize_is_idempotent() {
    let once = normalize_hex_color("  a1b2c3").unwrap();
    assert_eq!(normalize_hex_color(&once).as_deref(), Some(once.as_str()));
}
