use basilisk::input::keyboard::KeyboardHandler;
use basilisk::render::window::{KeyCode, Modifiers};

fn no_mods() -> Modifiers {
    Modifiers::default()
}

fn ctrl() -> Modifiers {
    Modifiers { ctrl: true, ..Default::default() }
}

fn alt() -> Modifiers {
    Modifiers { alt: true, ..Default::default() }
}

fn shift() -> Modifiers {
    Modifiers { shift: true, ..Default::default() }
}

#[test]
fn char_simple() {
    let handler = KeyboardHandler::new();
    assert_eq!(handler.char_to_bytes('a', &no_mods()), vec![b'a']);
    assert_eq!(handler.char_to_bytes('A', &no_mods()), vec![b'A']);
}

#[test]
fn char_utf8() {
    let handler = KeyboardHandler::new();
    let bytes = handler.char_to_bytes('ñ', &no_mods());
    assert_eq!(bytes, "ñ".as_bytes());
}

#[test]
fn ctrl_c() {
    let handler = KeyboardHandler::new();
    assert_eq!(handler.char_to_bytes('c', &ctrl()), vec![3]);
}

#[test]
fn ctrl_a() {
    let handler = KeyboardHandler::new();
    assert_eq!(handler.char_to_bytes('a', &ctrl()), vec![1]);
}

#[test]
fn alt_key() {
    let handler = KeyboardHandler::new();
    let bytes = handler.char_to_bytes('x', &alt());
    assert_eq!(bytes, vec![0x1b, b'x']);
}

#[test]
fn key_arrow_up() {
    let handler = KeyboardHandler::new();
    let bytes = handler.key_to_bytes(KeyCode::Up, &no_mods()).unwrap();
    assert_eq!(bytes, vec![0x1b, b'[', b'A']);
}

#[test]
fn key_arrow_application_mode() {
    let mut handler = KeyboardHandler::new();
    handler.application_cursor = true;
    let bytes = handler.key_to_bytes(KeyCode::Up, &no_mods()).unwrap();
    assert_eq!(bytes, vec![0x1b, b'O', b'A']);
}

#[test]
fn key_enter() {
    let handler = KeyboardHandler::new();
    let bytes = handler.key_to_bytes(KeyCode::Enter, &no_mods()).unwrap();
    assert_eq!(bytes, vec![0x0d]);
}

#[test]
fn key_backspace() {
    let handler = KeyboardHandler::new();
    let bytes = handler.key_to_bytes(KeyCode::Backspace, &no_mods()).unwrap();
    assert_eq!(bytes, vec![0x7f]);
}

#[test]
fn key_f1() {
    let handler = KeyboardHandler::new();
    let bytes = handler.key_to_bytes(KeyCode::F1, &no_mods()).unwrap();
    assert_eq!(bytes, vec![0x1b, b'O', b'P']);
}

#[test]
fn key_delete() {
    let handler = KeyboardHandler::new();
    let bytes = handler.key_to_bytes(KeyCode::Delete, &no_mods()).unwrap();
    assert_eq!(bytes, vec![0x1b, b'[', b'3', b'~']);
}

#[test]
fn key_shift_tab() {
    let handler = KeyboardHandler::new();
    let bytes = handler.key_to_bytes(KeyCode::Tab, &shift()).unwrap();
    assert_eq!(bytes, vec![0x1b, b'[', b'Z']);
}

#[test]
fn key_ctrl_arrow() {
    let handler = KeyboardHandler::new();
    let bytes = handler.key_to_bytes(KeyCode::Up, &ctrl()).unwrap();
    assert_eq!(bytes, vec![0x1b, b'[', b'1', b';', b'5', b'A']);
}

#[test]
fn bracketed_paste_markers_only_when_enabled() {
    let mut handler = KeyboardHandler::new();
    assert_eq!(handler.bracketed_paste_start(), None);
    handler.bracketed_paste = true;
    assert_eq!(handler.bracketed_paste_start(), Some(b"\x1b[200~".to_vec()));
    assert_eq!(handler.bracketed_paste_end(), Some(b"\x1b[201~".to_vec()));
}
