use basilisk::term::cell::{Cell, CellFlags, Color, ColorPalette, GraphemeStorage};

#[test]
fn cell_new() {
    let cell = Cell::new('A');
    assert_eq!(cell.c, 'A');
    assert_eq!(cell.grapheme_key, 0);
    assert!(!cell.is_empty());
}

#[test]
fn cell_with_grapheme() {
    let cell = Cell::with_grapheme('👨', 42);
    assert_eq!(cell.c, '👨');
    assert_eq!(cell.grapheme_key, 42);
    assert!(cell.has_grapheme());
}

#[test]
fn cell_empty() {
    let cell = Cell::empty();
    assert_eq!(cell.c, ' ');
    assert_eq!(cell.grapheme_key, 0);
    assert!(cell.is_empty());
}

#[test]
fn cell_reset() {
    let mut cell = Cell::with_grapheme('X', 5);
    cell.fg = Color::rgb(255, 0, 0);
    cell.flags = CellFlags::bold();
    cell.reset();
    assert_eq!(cell.c, ' ');
    assert_eq!(cell.grapheme_key, 0);
    assert!(cell.flags.is_empty());
}

#[test]
fn color_from_hex() {
    let red = Color::from_hex("#ff0000").unwrap();
    assert_eq!(red.r, 255);
    assert_eq!(red.g, 0);
    assert_eq!(red.b, 0);

    let green = Color::from_hex("00ff00").unwrap();
    assert_eq!(green.g, 255);
}

#[test]
fn color_from_hex_rejects_bad_input() {
    assert!(Color::from_hex("#ff00").is_none());
    assert!(Color::from_hex("#gg0000").is_none());
}

#[test]
fn color_palette_default() {
    let palette = ColorPalette::default();
    let black = palette.get(0);
    assert_eq!(black, Color::rgb(0x28, 0x2a, 0x2e));
}

#[test]
fn color_palette_custom() {
    let palette = ColorPalette::from_config(
        Color::rgb(0, 0, 0), Color::rgb(255, 0, 0), Color::rgb(0, 255, 0), Color::rgb(255, 255, 0),
        Color::rgb(0, 0, 255), Color::rgb(255, 0, 255), Color::rgb(0, 255, 255), Color::rgb(255, 255, 255),
        Color::rgb(128, 128, 128), Color::rgb(255, 128, 128), Color::rgb(128, 255, 128), Color::rgb(255, 255, 128),
        Color::rgb(128, 128, 255), Color::rgb(255, 128, 255), Color::rgb(128, 255, 255), Color::rgb(255, 255, 255),
    );
    assert_eq!(palette.get(1), Color::rgb(255, 0, 0));
    assert_eq!(palette.get(9), Color::rgb(255, 128, 128));
}

#[test]
fn color_from_ansi_with_palette() {
    let mut palette = ColorPalette::default();
    palette.set(1, Color::rgb(200, 50, 50));

    let red = Color::from_ansi_with_palette(1, &palette);
    assert_eq!(red, Color::rgb(200, 50, 50));
}

#[test]
fn color_from_256_with_palette() {
    let mut palette = ColorPalette::default();
    palette.set(9, Color::rgb(255, 100, 100));

    let bright_red = Color::from_256_with_palette(9, &palette);
    assert_eq!(bright_red, Color::rgb(255, 100, 100));

    let cube_color = Color::from_256_with_palette(196, &palette);
    assert_eq!(cube_color.r, 255);
}

#[test]
fn color_from_256_cube() {
    let red = Color::from_256(196);
    assert_eq!(red.r, 255);
    assert_eq!(red.g, 0);
    assert_eq!(red.b, 0);
}

#[test]
fn color_from_256_grayscale() {
    let gray = Color::from_256(244);
    assert_eq!(gray.r, gray.g);
    assert_eq!(gray.g, gray.b);
}

#[test]
fn color_from_256_exact_values() {
    // Cube index 16 + 36*1 + 6*2 + 3 = 67: levels 95, 135, 175.
    assert_eq!(Color::from_256(67), Color::rgb(95, 135, 175));
    // Grayscale 232 + 5 = 237: 8 + 10 * 5.
    assert_eq!(Color::from_256(237), Color::rgb(58, 58, 58));
}

#[test]
fn color_to_array() {
    let white = Color::rgb(255, 255, 255);
    let arr = [white.r as f32 / 255.0, white.g as f32 / 255.0, white.b as f32 / 255.0, 1.0f32];
    assert!((arr[0] - 1.0).abs() < f32::EPSILON);
}

#[test]
fn cellflags_operations() {
    let flags = CellFlags::bold().union(CellFlags::italic());
    assert!(flags.contains(CellFlags::bold()));
    assert!(flags.contains(CellFlags::italic()));
    assert!(!flags.contains(CellFlags::underline()));
}

#[test]
fn grapheme_storage_basic() {
    let mut storage = GraphemeStorage::new();

    let key1 = storage.store("👨‍👩‍👧");
    assert!(key1 > 0);
    assert_eq!(storage.get(key1), Some("👨‍👩‍👧"));

    let key2 = storage.store("🇺🇸");
    assert!(key2 > 0);
    assert_ne!(key1, key2);
    assert_eq!(storage.get(key2), Some("🇺🇸"));
}

#[test]
fn grapheme_storage_dedup() {
    let mut storage = GraphemeStorage::new();

    let key1 = storage.store("👨‍👩‍👧");
    let key2 = storage.store("👨‍👩‍👧");

    assert_eq!(key1, key2);
    assert_eq!(storage.len(), 1);
}

#[test]
fn grapheme_storage_clear() {
    let mut storage = GraphemeStorage::new();
    storage.store("👨‍👩‍👧");
    storage.store("🇺🇸");
    assert_eq!(storage.len(), 2);

    storage.clear();
    assert!(storage.is_empty());
}
