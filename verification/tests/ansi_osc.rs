use std::cell::RefCell;

use basilisk::ansi::handler::{Attr, Handler};
use basilisk::ansi::osc::{dispatch, parse_color_spec, parse_params};

struct MockHandler {
    title: RefCell<String>,
    cwd: RefCell<String>,
}

impl MockHandler {
    fn new() -> Self {
        Self { title: RefCell::new(String::new()), cwd: RefCell::new(String::new()) }
    }
}

impl Handler for MockHandler {
    fn input(&mut self, _c: char) {}
    fn goto(&mut self, _line: u16, _col: u16) {}
    fn goto_line(&mut self, _line: u16) {}
    fn goto_col(&mut self, _col: u16) {}
    fn move_up(&mut self, _n: u16) {}
    fn move_down(&mut self, _n: u16) {}
    fn move_forward(&mut self, _n: u16) {}
    fn move_backward(&mut self, _n: u16) {}
    fn move_down_and_cr(&mut self, _n: u16) {}
    fn move_up_and_cr(&mut self, _n: u16) {}
    fn insert_blank(&mut self, _n: u16) {}
    fn newline(&mut self) {}
    fn carriage_return(&mut self) {}
    fn backspace(&mut self) {}
    fn tab(&mut self) {}
    fn erase_chars(&mut self, _n: u16) {}
    fn delete_chars(&mut self, _n: u16) {}
    fn erase_in_line(&mut self, _mode: u16) {}
    fn erase_in_display(&mut self, _mode: u16) {}
    fn insert_lines(&mut self, _n: u16) {}
    fn delete_lines(&mut self, _n: u16) {}
    fn clear_tab(&mut self, _mode: u16) {}
    fn set_attr(&mut self, _attr: Attr) {}
    fn set_title(&mut self, title: &str) {
        *self.title.borrow_mut() = title.to_string();
    }
    fn bell(&mut self) {}
    fn reset(&mut self) {}
    fn save_cursor(&mut self) {}
    fn restore_cursor(&mut self) {}
    fn set_scroll_region(&mut self, _top: u16, _bottom: u16) {}
    fn scroll_up(&mut self, _n: u16) {}
    fn scroll_down(&mut self, _n: u16) {}
    fn set_cursor_visible(&mut self, _visible: bool) {}
    fn reverse_index(&mut self) {}
    fn linefeed(&mut self) {}
    fn set_mode(&mut self, _mode: u16, _enable: bool) {}
    fn set_hyperlink(&mut self, _id: Option<&str>, _url: Option<&str>) {}
    fn set_working_directory(&mut self, path: &str) {
        *self.cwd.borrow_mut() = path.to_string();
    }
    fn clipboard(&mut self, _clipboard: char, _data: Option<&str>) {}
}

#[test]
fn parse_params_empty() {
    let params = parse_params(b"");
    assert_eq!(params.len(), 1);
    assert!(params[0].is_empty());
}

#[test]
fn parse_params_single() {
    let params = parse_params(b"0");
    assert_eq!(params.len(), 1);
    assert_eq!(params[0], b"0");
}

#[test]
fn parse_params_multiple() {
    let params = parse_params(b"0;My Title");
    assert_eq!(params.len(), 2);
    assert_eq!(params[0], b"0");
    assert_eq!(params[1], b"My Title");
}

#[test]
fn osc_set_title() {
    let mut h = MockHandler::new();
    let params = vec![b"0".to_vec(), b"Test Title".to_vec()];
    dispatch(&mut h, &params);
    assert_eq!(*h.title.borrow(), "Test Title");
}

#[test]
fn osc_set_title_code_2() {
    let mut h = MockHandler::new();
    let params = vec![b"2".to_vec(), b"Window Title".to_vec()];
    dispatch(&mut h, &params);
    assert_eq!(*h.title.borrow(), "Window Title");
}

#[test]
fn osc_working_directory_from_file_url() {
    let mut h = MockHandler::new();
    let params = vec![b"7".to_vec(), b"file://host/home/user".to_vec()];
    dispatch(&mut h, &params);
    assert_eq!(*h.cwd.borrow(), "/home/user");
}

#[test]
fn parse_color_rgb() {
    let color = parse_color_spec(b"rgb:ff/00/80");
    assert!(color.is_some());
    let c = color.unwrap();
    assert_eq!(c.r, 255);
    assert_eq!(c.g, 0);
    assert_eq!(c.b, 128);
}

#[test]
fn parse_color_hex() {
    let color = parse_color_spec(b"#ff0080");
    assert!(color.is_some());
    let c = color.unwrap();
    assert_eq!(c.r, 255);
    assert_eq!(c.g, 0);
    assert_eq!(c.b, 128);
}

#[test]
fn parse_color_rgb_16bit() {
    let color = parse_color_spec(b"rgb:ffff/0000/8080");
    assert!(color.is_some());
    let c = color.unwrap();
    assert_eq!(c.r, 255);
    assert_eq!(c.g, 0);
    assert_eq!(c.b, 128);
}

#[test]
fn parse_color_invalid() {
    assert!(parse_color_spec(b"rgb:zz/00/00").is_none());
    assert!(parse_color_spec(b"blue").is_none());
}
