use basilisk::render::cell_style::{cell_style, glyph_flags, parse_hex_color, search_hit, search_label, status_label, CellStyle};
use basilisk::term::cell::{Cell, CellFlags, Color};
use basilisk::term::cursor::CursorShape;

fn white() -> Color {
    Color::rgb(255, 255, 255)
}
fn black() -> Color {
    Color::rgb(0, 0, 0)
}

#[test]
fn parse_hex_color_valid() {
    let color = parse_hex_color("#ff0000");
    assert_eq!(color.r, 255);
    assert_eq!(color.g, 0);
    assert_eq!(color.b, 0);
}

#[test]
fn parse_hex_color_no_hash() {
    let color = parse_hex_color("00ff00");
    assert_eq!(color.r, 0);
    assert_eq!(color.g, 255);
    assert_eq!(color.b, 0);
}

#[test]
fn glyph_flags_none() {
    let flags = glyph_flags(CellFlags::empty());
    assert_eq!(flags, 0);
}

#[test]
fn glyph_flags_bold() {
    let flags = glyph_flags(CellFlags::bold());
    assert_eq!(flags, 1);
}

#[test]
fn glyph_flags_italic() {
    let flags = glyph_flags(CellFlags::italic());
    assert_eq!(flags, 2);
}

#[test]
fn glyph_flags_both() {
    assert_eq!(glyph_flags(CellFlags::bold() | CellFlags::italic()), 3);
}

fn style(cell: &Cell, cursor: bool, shape: CursorShape, selected: bool, search: bool, current: bool) -> Option<CellStyle> {
    cell_style(cell, cursor, shape, selected, search, current, Color::rgb(200, 200, 200), Color::rgb(10, 10, 10), Color::rgb(0, 255, 0), true)
}

#[test]
fn plain_cells_take_the_defaults() {
    let mut cell = Cell::empty();
    cell.c = 'a';
    let s = style(&cell, false, CursorShape::Block, false, false, false).unwrap();
    assert_eq!((s.fg, s.bg), (Color::rgb(200, 200, 200), Color::rgb(10, 10, 10)));
    assert!(s.glyph && !s.underline && !s.wide);
    let blank = style(&Cell::empty(), false, CursorShape::Block, false, false, false).unwrap();
    assert!(!blank.glyph);
}

#[test]
fn inverse_selection_and_cursor() {
    let mut cell = Cell::empty();
    cell.c = 'x';
    cell.fg = Color::rgb(1, 2, 3);
    cell.bg = Color::rgb(4, 5, 6);
    cell.flags = CellFlags::inverse();
    let s = style(&cell, false, CursorShape::Block, false, false, false).unwrap();
    assert_eq!((s.fg, s.bg), (Color::rgb(4, 5, 6), Color::rgb(1, 2, 3)));
    let s = style(&cell, false, CursorShape::Block, true, false, false).unwrap();
    assert_eq!((s.fg, s.bg), (Color::rgb(1, 2, 3), Color::rgb(4, 5, 6)));
    let s = style(&cell, true, CursorShape::Block, false, false, false).unwrap();
    assert_eq!((s.fg, s.bg), (Color::rgb(10, 10, 10), Color::rgb(0, 255, 0)));
    let s = style(&cell, true, CursorShape::Beam, false, false, false).unwrap();
    assert_eq!(s.cursor_mark, Some(CursorShape::Beam));
}

#[test]
fn search_highlights_and_attributes() {
    let mut cell = Cell::empty();
    cell.c = 'x';
    cell.fg = white();
    cell.bg = black();
    cell.flags = CellFlags::dim() | CellFlags::underline();
    let s = style(&cell, false, CursorShape::Block, false, true, false).unwrap();
    assert_eq!((s.fg, s.bg), (Color::rgb(0, 0, 0), Color::rgb(255, 255, 77)));
    assert!(s.underline);
    let s = style(&cell, false, CursorShape::Block, false, true, true).unwrap();
    assert_eq!(s.bg, Color::rgb(255, 153, 0));
    let s = style(&cell, false, CursorShape::Block, false, false, false).unwrap();
    assert_eq!(s.fg, Color::rgb(127, 127, 127));
    cell.flags = CellFlags::hidden();
    let s = style(&cell, false, CursorShape::Block, false, false, false).unwrap();
    assert_eq!(s.fg, s.bg);
    cell.flags = CellFlags::blink();
    let s = cell_style(&cell, false, CursorShape::Block, false, false, false, white(), black(), white(), false).unwrap();
    assert_eq!(s.fg, s.bg);
    cell.flags = CellFlags::wide_spacer();
    assert!(style(&cell, false, CursorShape::Block, false, false, false).is_none());
}

#[test]
fn search_hits() {
    let m = [(0u16, 2u16, 5u16), (1, 0, 3), (0, 4, 8)];
    assert_eq!(search_hit(&m, Some(2), 0, 4), (true, false));
    assert_eq!(search_hit(&m, Some(2), 0, 6), (true, true));
    assert_eq!(search_hit(&m, None, 1, 1), (true, false));
    assert_eq!(search_hit(&m, Some(1), 1, 3), (false, false));
}

#[test]
fn status_bar_labels() {
    assert_eq!(status_label(0, "main"), "[0:main]");
    assert_eq!(status_label(12, "averyverylongname"), "[12:averyveryl]");
    assert_eq!(search_label("foo"), "Search: foo_");
}
