use basilisk::ansi::handler::Handler;
use basilisk::term::cell::CellFlags;
use basilisk::term::terminal::{BellEvent, Terminal};

#[test]
fn terminal_new() {
    let term = Terminal::new(80, 24, 1000);
    assert_eq!(term.grid.cols(), 80);
    assert_eq!(term.grid.lines(), 24);
}

#[test]
fn terminal_write_char() {
    let mut term = Terminal::new(80, 24, 1000);
    term.input('A');
    assert_eq!(term.grid.cell(0, 0).c, 'A');
    assert_eq!(term.cursor.col, 1);
}

#[test]
fn terminal_terminal_newline() {
    let mut term = Terminal::new(80, 24, 1000);
    term.linefeed();
    assert_eq!(term.cursor.line, 1);
}

#[test]
fn terminal_terminal_carriage_return() {
    let mut term = Terminal::new(80, 24, 1000);
    term.cursor.col = 10;
    term.carriage_return();
    assert_eq!(term.cursor.col, 0);
}

#[test]
fn terminal_process_text() {
    let mut term = Terminal::new(80, 24, 1000);
    term.process(b"Hello");
    assert_eq!(term.grid.cell(0, 0).c, 'H');
    assert_eq!(term.grid.cell(4, 0).c, 'o');
    assert_eq!(term.cursor.col, 5);
}

#[test]
fn terminal_process_csi_cursor() {
    let mut term = Terminal::new(80, 24, 1000);
    term.process(b"\x1b[10;20H");
    assert_eq!(term.cursor.line, 9);
    assert_eq!(term.cursor.col, 19);
}

#[test]
fn terminal_process_csi_erase() {
    let mut term = Terminal::new(80, 24, 1000);
    term.process(b"ABCDE");
    term.process(b"\x1b[H\x1b[2J");
    assert_eq!(term.grid.cell(0, 0).c, ' ');
}

#[test]
fn terminal_process_sgr() {
    let mut term = Terminal::new(80, 24, 1000);
    term.process(b"\x1b[1;31mRed");
    assert!(term.cursor.flags.contains(CellFlags::bold()));
    assert_eq!(term.grid.cell(0, 0).c, 'R');
}

#[test]
fn terminal_terminal_tab() {
    let mut term = Terminal::new(80, 24, 1000);
    term.tab();
    assert_eq!(term.cursor.col, 8);
}

#[test]
fn terminal_terminal_save_restore_cursor() {
    let mut term = Terminal::new(80, 24, 1000);
    term.cursor.col = 10;
    term.cursor.line = 5;
    term.save_cursor();

    term.cursor.col = 0;
    term.cursor.line = 0;

    term.restore_cursor();
    assert_eq!(term.cursor.col, 10);
    assert_eq!(term.cursor.line, 5);
}

#[test]
fn terminal_scroll_at_bottom() {
    let mut term = Terminal::new(80, 5, 1000);
    term.cursor.line = 4;
    term.linefeed();
    assert_eq!(term.cursor.line, 4);
    assert_eq!(term.grid.scrollback_len(), 1);
}

#[test]
fn terminal_line_wrap() {
    let mut term = Terminal::new(5, 2, 1000);
    term.process(b"ABCDE");
    assert_eq!(term.cursor.col, 5);
    term.process(b"F");
    assert_eq!(term.cursor.line, 1);
    assert_eq!(term.cursor.col, 1);
}

#[test]
fn terminal_alternate_screen() {
    let mut term = Terminal::new(80, 24, 1000);
    term.process(b"Primary");
    assert!(!term.is_alternate_screen());

    term.process(b"\x1b[?1049h");
    assert!(term.is_alternate_screen());
    assert_eq!(term.grid.cell(0, 0).c, ' ');

    term.process(b"Alternate");

    term.process(b"\x1b[?1049l");
    assert!(!term.is_alternate_screen());
    assert_eq!(term.grid.cell(0, 0).c, 'P');
}

#[test]
fn terminal_alternate_screen_restores_cursor() {
    let mut term = Terminal::new(80, 24, 1000);
    term.process(b"\x1b[3;7H");
    term.process(b"\x1b[?1049h");
    term.process(b"\x1b[10;10Hxyz");
    term.process(b"\x1b[?1049l");
    assert_eq!(term.cursor.line, 2);
    assert_eq!(term.cursor.col, 6);
}

#[test]
fn terminal_viewport_scroll() {
    let mut term = Terminal::new(80, 5, 100);

    for i in 0..20 {
        term.process(format!("Line {}\n", i).as_bytes());
    }

    assert_eq!(term.viewport_offset, 0);
    assert!(term.grid.scrollback_len() > 0);

    term.scroll_viewport_up(5);
    assert_eq!(term.viewport_offset, 5);

    term.scroll_viewport_down(3);
    assert_eq!(term.viewport_offset, 2);

    term.reset_viewport();
    assert_eq!(term.viewport_offset, 0);
}

#[test]
fn terminal_bell() {
    let mut term = Terminal::new(80, 24, 1000);
    assert!(term.take_pending_bell().is_none());

    term.bell();
    assert!(term.has_pending_bell());

    let bell = term.take_pending_bell();
    assert!(matches!(bell, Some(BellEvent::Both)));
    assert!(!term.has_pending_bell());
}

#[test]
fn terminal_hyperlink() {
    let mut term = Terminal::new(80, 24, 1000);

    term.set_hyperlink(Some("test"), Some("https://example.com"));
    assert!(term.current_hyperlink().is_some());

    term.process(b"Click here");

    assert!(term.hyperlink(1).is_some());

    term.set_hyperlink(None, None);
    assert!(term.current_hyperlink().is_none());
}

#[test]
fn terminal_origin_mode() {
    let mut term = Terminal::new(80, 24, 1000);

    term.set_scroll_region(5, 15);

    term.set_mode(6, true);
    assert!(term.modes.origin_mode);
    assert_eq!(term.cursor.line, 4);

    term.goto(0, 0);
    assert_eq!(term.cursor.line, 4);
}

#[test]
fn terminal_application_keypad() {
    let mut term = Terminal::new(80, 24, 1000);
    assert!(!term.modes.application_keypad);

    term.process(b"\x1b=");
    assert!(term.modes.application_keypad);

    term.process(b"\x1b>");
    assert!(!term.modes.application_keypad);
}

#[test]
fn terminal_device_status_report_response() {
    let mut term = Terminal::new(80, 24, 1000);
    term.process(b"\x1b[5;3H");
    term.device_status_report(6);
    assert_eq!(term.take_responses(), b"\x1b[5;3R".to_vec());
    assert!(term.take_responses().is_empty());
}

#[test]
fn terminal_utf8_split_across_calls() {
    let mut term = Terminal::new(80, 24, 1000);
    let bytes = "é".as_bytes();
    term.process(&bytes[..1]);
    term.process(&bytes[1..]);
    assert_eq!(term.grid.cell(0, 0).c, 'é');
    assert_eq!(term.cursor.col, 1);
}
