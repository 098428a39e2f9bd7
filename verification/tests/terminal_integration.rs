use basilisk::ansi::{Action, Parser};
use basilisk::term::{CellFlags, Grid, Terminal};

#[test]
fn terminal_echo_text() {
    let mut term = Terminal::new(80, 24, 1000);
    term.process(b"Hello, World!");

    let grid = term.grid();
    assert_eq!(grid.cell(0, 0).c(), 'H');
    assert_eq!(grid.cell(1, 0).c(), 'e');
    assert_eq!(grid.cell(12, 0).c(), '!');
}

#[test]
fn terminal_integration_terminal_newline() {
    let mut term = Terminal::new(80, 24, 1000);
    term.process(b"Line1\r\nLine2");

    let grid = term.grid();
    assert_eq!(grid.cell(0, 0).c(), 'L');
    assert_eq!(grid.cell(0, 1).c(), 'L');
}

#[test]
fn terminal_integration_terminal_carriage_return() {
    let mut term = Terminal::new(80, 24, 1000);
    term.process(b"XXXX\rYY");

    let grid = term.grid();
    assert_eq!(grid.cell(0, 0).c(), 'Y');
    assert_eq!(grid.cell(1, 0).c(), 'Y');
    assert_eq!(grid.cell(2, 0).c(), 'X');
}

#[test]
fn terminal_cursor_movement() {
    let mut term = Terminal::new(80, 24, 1000);

    term.process(b"\x1b[6;11H");
    term.process(b"X");

    let grid = term.grid();
    assert_eq!(grid.cell(10, 5).c(), 'X');
}

#[test]
fn terminal_clear_screen() {
    let mut term = Terminal::new(80, 24, 1000);
    term.process(b"XXXXX");
    term.process(b"\x1b[2J");
    term.process(b"\x1b[H");

    let grid = term.grid();
    assert_eq!(grid.cell(0, 0).c(), ' ');
}

#[test]
fn terminal_sgr_bold() {
    let mut term = Terminal::new(80, 24, 1000);
    term.process(b"\x1b[1mBold\x1b[0m");

    let grid = term.grid();
    assert!(grid.cell(0, 0).flags.contains(CellFlags::bold()));
    assert!(!grid.cell(4, 0).flags.contains(CellFlags::bold()));
}

#[test]
fn terminal_sgr_colors() {
    let mut term = Terminal::new(80, 24, 1000);
    term.process(b"\x1b[31mR\x1b[32mG\x1b[34mB\x1b[0m");

    let grid = term.grid();
    assert!(grid.cell(0, 0).fg.r > grid.cell(0, 0).fg.g);
    assert!(grid.cell(1, 0).fg.g > grid.cell(1, 0).fg.r);
    assert!(grid.cell(2, 0).fg.b > grid.cell(2, 0).fg.r);
}

#[test]
fn terminal_erase_in_line() {
    let mut term = Terminal::new(80, 24, 1000);
    term.process(b"ABCDEFGH");
    term.process(b"\x1b[4G");
    term.process(b"\x1b[K");

    let grid = term.grid();
    assert_eq!(grid.cell(0, 0).c(), 'A');
    assert_eq!(grid.cell(2, 0).c(), 'C');
    assert_eq!(grid.cell(3, 0).c(), ' ');
    assert_eq!(grid.cell(7, 0).c(), ' ');
}

#[test]
fn terminal_scrollback() {
    let mut term = Terminal::new(80, 5, 100);

    for i in 0..10 {
        term.process(format!("Line {}\n", i).as_bytes());
    }

    let grid = term.grid();
    assert!(grid.scrollback_len() > 0);
}

#[test]
fn terminal_resize() {
    let mut term = Terminal::new(80, 24, 1000);
    term.process(b"Hello");

    let before = term.grid().cell(0, 0).c();
    assert_eq!(before, 'H');

    term.resize(40, 12);

    let grid = term.grid();
    assert_eq!(grid.cols(), 40);
    assert_eq!(grid.lines(), 12);
}

#[test]
fn terminal_integration_terminal_tab() {
    let mut term = Terminal::new(80, 24, 1000);
    term.process(b"A\tB");

    let grid = term.grid();
    assert_eq!(grid.cell(0, 0).c(), 'A');
    assert_eq!(grid.cell(8, 0).c(), 'B');
}

#[test]
fn terminal_integration_terminal_save_restore_cursor() {
    let mut term = Terminal::new(80, 24, 1000);
    term.process(b"\x1b[5;10H");
    term.process(b"\x1b[s");
    term.process(b"\x1b[1;1H");
    term.process(b"\x1b[u");
    term.process(b"X");

    let grid = term.grid();
    assert_eq!(grid.cell(9, 4).c(), 'X');
}

#[test]
fn terminal_window_title() {
    let mut term = Terminal::new(80, 24, 1000);
    term.process(b"\x1b]0;My Title\x07");

    assert_eq!(term.title(), "My Title");
}

#[test]
fn parser_csi_sequence() {
    let mut parser = Parser::new();
    let mut actions = Vec::new();

    for byte in b"\x1b[5A" {
        if let Some(action) = parser.advance(*byte) {
            actions.push(action);
        }
    }

    assert_eq!(actions.len(), 1);
    match &actions[0] {
        Action::CsiDispatch { params, action, .. } => {
            assert_eq!(*action, 'A');
            assert_eq!(params, &[5]);
        }
        _ => panic!("Expected CsiDispatch"),
    }
}

#[test]
fn parser_osc_sequence() {
    let mut parser = Parser::new();
    let mut actions = Vec::new();

    for byte in b"\x1b]0;Test\x07" {
        if let Some(action) = parser.advance(*byte) {
            actions.push(action);
        }
    }

    assert_eq!(actions.len(), 1);
    match &actions[0] {
        Action::OscDispatch(params) => {
            assert_eq!(params.len(), 2);
        }
        _ => panic!("Expected OscDispatch"),
    }
}

#[test]
fn terminal_integration_grid_cell_access() {
    let mut grid = Grid::new(80, 24, 1000);

    grid.cell_mut(10, 5).set_char('X');
    grid.cell_mut(10, 5).flags = CellFlags::bold();

    assert_eq!(grid.cell(10, 5).c(), 'X');
    assert!(grid.cell(10, 5).flags.contains(CellFlags::bold()));
}

#[test]
fn grid_scroll() {
    let mut grid = Grid::new(80, 5, 100);

    for (i, c) in "FirstLine".chars().enumerate() {
        grid.cell_mut(i as u16, 0).set_char(c);
    }

    grid.scroll_up(1);

    assert_eq!(grid.scrollback_len(), 1);
    assert_eq!(grid.cell(0, 0).c(), ' ');
}

#[test]
fn terminal_title_ended_by_string_terminator_prints_nothing() {
    let mut term = Terminal::new(80, 24, 1000);
    term.process(b"\x1b]0;Tab\x1b\\ok");
    assert_eq!(term.title(), "Tab");
    assert_eq!(term.grid().cell(0, 0).c(), 'o');
    assert_eq!(term.grid().cell(1, 0).c(), 'k');
}
