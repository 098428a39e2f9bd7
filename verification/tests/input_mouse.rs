use basilisk::input::mouse::{MouseButton, MouseEvent, MouseHandler};
use basilisk::term::grid::Grid;
use basilisk::term::selection::{SelectionManager, SelectionType};
use basilisk::term::terminal::MouseMode;

#[test]
fn mouse_handler_new() {
    let handler = MouseHandler::new();
    assert_eq!(handler.cell_position(), (0, 0));
    assert!(!handler.is_dragging());
    assert!(handler.pressed_button().is_none());
}

#[test]
fn mouse_button_codes() {
    assert_eq!(MouseButton::Left.code(), 0);
    assert_eq!(MouseButton::Middle.code(), 1);
    assert_eq!(MouseButton::Right.code(), 2);
    assert_eq!(MouseButton::WheelUp.code(), 64);
    assert_eq!(MouseButton::WheelDown.code(), 65);
}

#[test]
fn mouse_press_release() {
    let mut handler = MouseHandler::new();

    handler.press(MouseButton::Left, 1);
    assert_eq!(handler.pressed_button(), Some(MouseButton::Left));
    assert_eq!(handler.click_count(), 1);

    handler.release(MouseButton::Left);
    assert!(handler.pressed_button().is_none());
}

#[test]
fn mouse_drag_detection() {
    let mut handler = MouseHandler::new();

    // Pixel (5, 10) with 10x20 cells is cell (0, 0); pixel (25, 30) is (2, 1).
    handler.update_cell(0, 0);
    handler.press(MouseButton::Left, 1);
    assert!(!handler.is_dragging());

    handler.update_cell(2, 1);
    handler.motion();
    assert!(handler.is_dragging());
}

#[test]
fn encode_x10_press() {
    let handler = MouseHandler::new();
    let encoded = handler.encode_event(MouseEvent::Press(MouseButton::Left), MouseMode::X10, 5, 10);

    assert!(encoded.is_some());
    let bytes = encoded.unwrap();
    assert_eq!(bytes[0], 0x1b);
    assert_eq!(bytes[1], b'[');
    assert_eq!(bytes[2], b'M');
}

#[test]
fn encode_x10_no_release() {
    let handler = MouseHandler::new();
    let encoded = handler.encode_event(MouseEvent::Release(MouseButton::Left), MouseMode::X10, 5, 10);
    assert!(encoded.is_none());
}

#[test]
fn encode_sgr_press() {
    let handler = MouseHandler::new();
    let encoded = handler.encode_event(MouseEvent::Press(MouseButton::Left), MouseMode::Sgr, 5, 10);

    assert!(encoded.is_some());
    let seq = String::from_utf8(encoded.unwrap()).unwrap();
    assert!(seq.starts_with("\x1b[<"));
    assert!(seq.ends_with('M'));
    assert!(seq.contains(";6;"));
    assert!(seq.contains(";11"));
}

#[test]
fn encode_sgr_release() {
    let handler = MouseHandler::new();
    let encoded = handler.encode_event(MouseEvent::Release(MouseButton::Left), MouseMode::Sgr, 5, 10);

    assert!(encoded.is_some());
    let seq = String::from_utf8(encoded.unwrap()).unwrap();
    assert!(seq.ends_with('m'));
}

#[test]
fn encode_none_mode() {
    let handler = MouseHandler::new();
    let encoded = handler.encode_event(MouseEvent::Press(MouseButton::Left), MouseMode::Off, 5, 10);
    assert!(encoded.is_none());
}

#[test]
fn encode_legacy_exact_and_clamped() {
    let handler = MouseHandler::new();
    let bytes = handler.encode_event(MouseEvent::Drag(MouseButton::Right), MouseMode::ButtonMotion, 5, 300).unwrap();
    assert_eq!(bytes, vec![0x1b, b'[', b'M', 32 + 34, 32 + 5 + 1, 32 + 222 + 1]);
    assert!(handler.encode_event(MouseEvent::Move, MouseMode::ButtonMotion, 1, 1).is_none());
    assert_eq!(handler.encode_event(MouseEvent::Move, MouseMode::AnyMotion, 0, 0).unwrap()[3], 32 + 35);
}

#[test]
fn click_count_selection() {
    let mut handler = MouseHandler::new();

    handler.press(MouseButton::Left, 1);
    assert_eq!(handler.click_count(), 1);

    handler.press(MouseButton::Left, 2);
    assert_eq!(handler.click_count(), 2);

    handler.press(MouseButton::Left, 3);
    assert_eq!(handler.click_count(), 3);
}

#[test]
fn double_click_selects_word() {
    let mut grid = Grid::new(20, 2, 10);
    for (i, c) in "foo bar_1 !x".chars().enumerate() {
        grid.cell_mut(i as u16, 0).set_char(c);
    }
    let mut handler = MouseHandler::new();
    handler.press(MouseButton::Left, 2);
    let mut selection = SelectionManager::new();
    handler.handle_selection(&mut selection, &grid, 5, 0);
    let sel = selection.selection.unwrap();
    assert_eq!(sel.selection_type, SelectionType::Word);
    assert_eq!((sel.anchor.col, sel.current.col), (4, 8));
    assert_eq!(handler.find_word_bounds(&grid, 10, 0), (10, 10));
}
