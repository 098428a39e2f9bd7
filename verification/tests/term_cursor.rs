use basilisk::term::cell::{CellFlags, Color};
use basilisk::term::cursor::Cursor;

#[test]
fn cursor_new() {
    let cursor = Cursor::new();
    assert_eq!(cursor.col, 0);
    assert_eq!(cursor.line, 0);
    assert!(cursor.visible);
}

#[test]
fn cursor_move_to() {
    let mut cursor = Cursor::new();
    cursor.move_to(10, 5);
    assert_eq!(cursor.col, 10);
    assert_eq!(cursor.line, 5);
}

#[test]
fn cursor_move_up() {
    let mut cursor = Cursor::new();
    cursor.line = 10;
    cursor.move_up(3);
    assert_eq!(cursor.line, 7);
}

#[test]
fn cursor_move_up_bounds() {
    let mut cursor = Cursor::new();
    cursor.line = 2;
    cursor.move_up(10);
    assert_eq!(cursor.line, 0);
}

#[test]
fn cursor_move_down() {
    let mut cursor = Cursor::new();
    cursor.move_down(5, 24);
    assert_eq!(cursor.line, 5);
}

#[test]
fn cursor_move_down_bounds() {
    let mut cursor = Cursor::new();
    cursor.move_down(100, 24);
    assert_eq!(cursor.line, 23);
}

#[test]
fn cursor_move_left() {
    let mut cursor = Cursor::new();
    cursor.col = 10;
    cursor.move_left(3);
    assert_eq!(cursor.col, 7);
}

#[test]
fn cursor_move_right() {
    let mut cursor = Cursor::new();
    cursor.move_right(5, 80);
    assert_eq!(cursor.col, 5);
}

#[test]
fn cursor_move_right_bounds() {
    let mut cursor = Cursor::new();
    cursor.move_right(100, 80);
    assert_eq!(cursor.col, 79);
}

#[test]
fn cursor_carriage_return() {
    let mut cursor = Cursor::new();
    cursor.col = 50;
    cursor.carriage_return();
    assert_eq!(cursor.col, 0);
}

#[test]
fn cursor_save_restore() {
    let mut cursor = Cursor::new();
    cursor.col = 10;
    cursor.line = 5;
    cursor.fg = Color::rgb(255, 0, 0);
    cursor.flags = CellFlags::bold();

    let saved = cursor.save();

    cursor.col = 0;
    cursor.line = 0;
    cursor.fg = Color::rgb(0, 0, 0);
    cursor.flags = CellFlags::empty();

    cursor.restore(&saved);
    assert_eq!(cursor.col, 10);
    assert_eq!(cursor.line, 5);
    assert_eq!(cursor.fg, Color::rgb(255, 0, 0));
    assert!(cursor.flags.contains(CellFlags::bold()));
}
