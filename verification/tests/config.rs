use basilisk::config::{ColorScheme, KeybindsConfig, ScrollbackConfig};
use basilisk::term::cell::Color;

#[test]
fn color_scheme_palette_first_sixteen() {
    let scheme = ColorScheme::default();
    let palette = scheme.build_palette();
    assert_eq!(palette.len(), 256);
    assert_eq!(palette[0], Color::rgb(0x28, 0x2a, 0x2e));
    assert_eq!(palette[1], Color::rgb(0xa5, 0x42, 0x42));
    assert_eq!(palette[15], Color::rgb(0xc5, 0xc8, 0xc6));
    assert_eq!(palette[16], Color::rgb(0, 0, 0));
    assert_eq!(palette[231], Color::rgb(255, 255, 255));
    assert_eq!(palette[255], Color::rgb(238, 238, 238));
}

#[test]
fn color_scheme_parse_hex_edges() {
    let scheme = ColorScheme::default();
    assert_eq!(scheme.parse_hex("##102030"), (0x10, 0x20, 0x30));
    assert_eq!(scheme.parse_hex("#12345"), (255, 255, 255));
    assert_eq!(scheme.parse_hex("zz0000"), (255, 0, 0));
    assert_eq!(scheme.parse_hex("+f0000"), (15, 0, 0));
}

#[test]
fn scrollback_config_default() {
    assert_eq!(ScrollbackConfig::default().lines, 10000);
}

#[test]
fn keybinds_parse_prefix() {
    let config = KeybindsConfig::default();
    assert_eq!(config.parse_prefix(), Some((true, false, false, 'b')));
    let custom = KeybindsConfig { prefix: "Alt+Shift+A".to_string(), custom: vec![] };
    assert_eq!(custom.parse_prefix(), Some((false, true, true, 'a')));
    let none = KeybindsConfig { prefix: "ctrl+space".to_string(), custom: vec![] };
    assert_eq!(none.parse_prefix(), None);
}

#[test]
fn default_scheme_palette_is_the_256_color_palette() {
    let palette = ColorScheme::default().build_palette();
    for i in 0..256usize {
        assert_eq!(palette[i], Color::from_256(i as u8));
    }
}
