use std::cell::RefCell;

use basilisk::ansi::csi::dispatch;
use basilisk::ansi::handler::{Attr, Handler};
use basilisk::term::cell::Color;

struct MockHandler {
    calls: RefCell<Vec<String>>,
}

impl MockHandler {
    fn new() -> Self {
        Self { calls: RefCell::new(Vec::new()) }
    }

    fn log(&self, s: &str) {
        self.calls.borrow_mut().push(s.to_string());
    }

    fn has_call(&self, s: &str) -> bool {
        self.calls.borrow().iter().any(|c| c.contains(s))
    }
}

impl Handler for MockHandler {
    fn input(&mut self, c: char) { self.log(&format!("input:{}", c)); }
    fn goto(&mut self, line: u16, col: u16) { self.log(&format!("goto:{},{}", line, col)); }
    fn goto_line(&mut self, line: u16) { self.log(&format!("goto_line:{}", line)); }
    fn goto_col(&mut self, col: u16) { self.log(&format!("goto_col:{}", col)); }
    fn move_up(&mut self, n: u16) { self.log(&format!("move_up:{}", n)); }
    fn move_down(&mut self, n: u16) { self.log(&format!("move_down:{}", n)); }
    fn move_forward(&mut self, n: u16) { self.log(&format!("move_forward:{}", n)); }
    fn move_backward(&mut self, n: u16) { self.log(&format!("move_backward:{}", n)); }
    fn move_down_and_cr(&mut self, n: u16) { self.log(&format!("move_down_cr:{}", n)); }
    fn move_up_and_cr(&mut self, n: u16) { self.log(&format!("move_up_cr:{}", n)); }
    fn insert_blank(&mut self, n: u16) { self.log(&format!("insert_blank:{}", n)); }
    fn newline(&mut self) { self.log("newline"); }
    fn carriage_return(&mut self) { self.log("cr"); }
    fn backspace(&mut self) { self.log("backspace"); }
    fn tab(&mut self) { self.log("tab"); }
    fn erase_chars(&mut self, n: u16) { self.log(&format!("erase_chars:{}", n)); }
    fn delete_chars(&mut self, n: u16) { self.log(&format!("delete_chars:{}", n)); }
    fn erase_in_line(&mut self, mode: u16) { self.log(&format!("erase_line:{}", mode)); }
    fn erase_in_display(&mut self, mode: u16) { self.log(&format!("erase_display:{}", mode)); }
    fn insert_lines(&mut self, n: u16) { self.log(&format!("insert_lines:{}", n)); }
    fn delete_lines(&mut self, n: u16) { self.log(&format!("delete_lines:{}", n)); }
    fn clear_tab(&mut self, mode: u16) { self.log(&format!("clear_tab:{}", mode)); }
    fn set_attr(&mut self, attr: Attr) { self.log(&format!("attr:{:?}", attr)); }
    fn set_title(&mut self, title: &str) { self.log(&format!("title:{}", title)); }
    fn bell(&mut self) { self.log("bell"); }
    fn reset(&mut self) { self.log("reset"); }
    fn save_cursor(&mut self) { self.log("save_cursor"); }
    fn restore_cursor(&mut self) { self.log("restore_cursor"); }
    fn set_scroll_region(&mut self, top: u16, bottom: u16) { self.log(&format!("scroll_region:{},{}", top, bottom)); }
    fn scroll_up(&mut self, n: u16) { self.log(&format!("scroll_up:{}", n)); }
    fn scroll_down(&mut self, n: u16) { self.log(&format!("scroll_down:{}", n)); }
    fn set_cursor_visible(&mut self, visible: bool) { self.log(&format!("cursor_visible:{}", visible)); }
    fn reverse_index(&mut self) { self.log("reverse_index"); }
    fn linefeed(&mut self) { self.log("linefeed"); }
    fn set_mode(&mut self, mode: u16, enable: bool) { self.log(&format!("set_mode:{}:{}", mode, enable)); }
    fn set_hyperlink(&mut self, id: Option<&str>, url: Option<&str>) { self.log(&format!("hyperlink:{:?}:{:?}", id, url)); }
    fn set_working_directory(&mut self, path: &str) { self.log(&format!("cwd:{}", path)); }
    fn clipboard(&mut self, clipboard: char, data: Option<&str>) { self.log(&format!("clipboard:{}:{:?}", clipboard, data)); }
}

#[test]
fn csi_cursor_up() {
    let mut h = MockHandler::new();
    dispatch(&mut h, &[5], &[], 'A');
    assert!(h.has_call("move_up:5"));
}

#[test]
fn csi_cursor_down() {
    let mut h = MockHandler::new();
    dispatch(&mut h, &[3], &[], 'B');
    assert!(h.has_call("move_down:3"));
}

#[test]
fn csi_cursor_forward() {
    let mut h = MockHandler::new();
    dispatch(&mut h, &[2], &[], 'C');
    assert!(h.has_call("move_forward:2"));
}

#[test]
fn csi_cursor_back() {
    let mut h = MockHandler::new();
    dispatch(&mut h, &[4], &[], 'D');
    assert!(h.has_call("move_backward:4"));
}

#[test]
fn csi_cursor_position() {
    let mut h = MockHandler::new();
    dispatch(&mut h, &[10, 20], &[], 'H');
    assert!(h.has_call("goto:9,19"));
}

#[test]
fn csi_cursor_position_default() {
    let mut h = MockHandler::new();
    dispatch(&mut h, &[], &[], 'H');
    assert!(h.has_call("goto:0,0"));
}

#[test]
fn csi_erase_display() {
    let mut h = MockHandler::new();
    dispatch(&mut h, &[2], &[], 'J');
    assert!(h.has_call("erase_display:2"));
}

#[test]
fn csi_erase_line() {
    let mut h = MockHandler::new();
    dispatch(&mut h, &[0], &[], 'K');
    assert!(h.has_call("erase_line:0"));
}

#[test]
fn csi_sgr_reset() {
    let mut h = MockHandler::new();
    dispatch(&mut h, &[], &[], 'm');
    assert!(h.has_call("attr:Reset"));
}

#[test]
fn csi_sgr_bold() {
    let mut h = MockHandler::new();
    dispatch(&mut h, &[1], &[], 'm');
    assert!(h.has_call("attr:Bold"));
}

#[test]
fn csi_sgr_foreground() {
    let mut h = MockHandler::new();
    dispatch(&mut h, &[31], &[], 'm');
    assert!(h.has_call("Foreground"));
}

#[test]
fn csi_sgr_256_color() {
    let mut h = MockHandler::new();
    dispatch(&mut h, &[38, 5, 196], &[], 'm');
    assert!(h.has_call("Foreground"));
}

#[test]
fn csi_sgr_true_color() {
    let mut h = MockHandler::new();
    dispatch(&mut h, &[38, 2, 255, 128, 0], &[], 'm');
    assert!(h.has_call("Foreground"));
}

#[test]
fn csi_scroll_up() {
    let mut h = MockHandler::new();
    dispatch(&mut h, &[5], &[], 'S');
    assert!(h.has_call("scroll_up:5"));
}

#[test]
fn csi_delete_chars() {
    let mut h = MockHandler::new();
    dispatch(&mut h, &[3], &[], 'P');
    assert!(h.has_call("delete_chars:3"));
}

#[test]
fn csi_cursor_visibility() {
    let mut h = MockHandler::new();
    dispatch(&mut h, &[25], &[b'?'], 'l');
    assert!(h.has_call("set_mode:25:false"));

    dispatch(&mut h, &[25], &[b'?'], 'h');
    assert!(h.has_call("set_mode:25:true"));
}

#[test]
fn csi_save_restore_cursor() {
    let mut h = MockHandler::new();
    dispatch(&mut h, &[], &[], 's');
    assert!(h.has_call("save_cursor"));

    dispatch(&mut h, &[], &[], 'u');
    assert!(h.has_call("restore_cursor"));
}

#[test]
fn csi_sgr_true_color_exact() {
    let mut h = MockHandler::new();
    dispatch(&mut h, &[38, 2, 255, 128, 0], &[], 'm');
    assert!(h.has_call(&format!("attr:{:?}", Attr::Foreground(Color::rgb(255, 128, 0)))));
}

#[test]
fn csi_scroll_region_defaults() {
    let mut h = MockHandler::new();
    dispatch(&mut h, &[2, 10], &[], 'r');
    assert!(h.has_call("scroll_region:2,10"));
}

#[test]
fn attr_variants() {
    let attr = Attr::Bold;
    assert_eq!(attr, Attr::Bold);

    let fg = Attr::Foreground(Color::rgb(255, 0, 0));
    match fg {
        Attr::Foreground(c) => assert_eq!(c.r, 255),
        _ => panic!("Expected Foreground"),
    }
}

#[test]
fn attr_reset() {
    let attr = Attr::Reset;
    assert_eq!(attr, Attr::Reset);
}

#[test]
fn csi_sgr_basic_colors_name_palette_indices() {
    let mut h = MockHandler::new();
    dispatch(&mut h, &[31, 41, 91, 107], &[], 'm');
    assert!(h.has_call(&format!("attr:{:?}", Attr::ForegroundIndex(1))));
    assert!(h.has_call(&format!("attr:{:?}", Attr::BackgroundIndex(1))));
    assert!(h.has_call(&format!("attr:{:?}", Attr::ForegroundIndex(9))));
    assert!(h.has_call(&format!("attr:{:?}", Attr::BackgroundIndex(15))));
    assert_eq!(h.calls.borrow().len(), 4);
}

#[test]
fn osc_hyperlink_takes_id_and_url_fields() {
    let mut h = MockHandler::new();
    let params = vec![b"8".to_vec(), b"id=abc".to_vec(), b"https://example.com".to_vec()];
    basilisk::ansi::osc::dispatch(&mut h, &params);
    assert_eq!(*h.calls.borrow(), vec![format!("hyperlink:{:?}:{:?}", Some("abc"), Some("https://example.com"))]);
    let mut h2 = MockHandler::new();
    let end = vec![b"8".to_vec(), Vec::new(), Vec::new()];
    basilisk::ansi::osc::dispatch(&mut h2, &end);
    assert_eq!(*h2.calls.borrow(), vec![format!("hyperlink:{:?}:{:?}", None::<&str>, Some(""))]);
}
