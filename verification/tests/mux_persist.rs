use basilisk::mux::persist::{ExternalMux, PaneScrollback, ScrollbackLine};
use basilisk::term::grid::Grid;

#[test]
fn test_scrollback_line() {
    let line = ScrollbackLine {
        text: "hello world".to_string(),
        has_formatting: false,
    };
    assert_eq!(line.text, "hello world");
}

#[test]
fn test_pane_scrollback_empty() {
    let sb = PaneScrollback {
        pane_id: 1,
        lines: vec![],
        cursor_row: 0,
        cursor_col: 0,
    };
    assert!(sb.is_empty());
    assert_eq!(sb.len(), 0);
}

#[test]
fn test_pane_scrollback_with_lines() {
    let sb = PaneScrollback {
        pane_id: 1,
        lines: vec![
            ScrollbackLine { text: "line 1".into(), has_formatting: false },
            ScrollbackLine { text: "line 2".into(), has_formatting: false },
        ],
        cursor_row: 1,
        cursor_col: 5,
    };
    assert!(!sb.is_empty());
    assert_eq!(sb.len(), 2);
}

#[test]
fn test_pane_scrollback_from_grid() {
    let mut grid = Grid::new(6, 2, 10);
    grid.cell_mut(0, 0).set_char('a');
    grid.cell_mut(0, 1).set_char('b');
    grid.scroll_up(1);
    grid.cell_mut(1, 1).set_char('c');
    let sb = PaneScrollback::from_grid(3, &grid);
    assert_eq!(sb.pane_id, 3);
    let texts: Vec<&str> = sb.lines.iter().map(|l| l.text.as_str()).collect();
    assert_eq!(texts, vec!["a", "b", " c"]);
}

#[test]
fn test_external_mux_detect_none() {
    let mux = ExternalMux::detect(false, false);
    assert_eq!(mux, ExternalMux::Absent);
    assert_eq!(ExternalMux::detect(true, true), ExternalMux::Tmux);
    assert_eq!(ExternalMux::detect(false, true), ExternalMux::Screen);
    let _ = mux.name();
    let _ = mux.is_active();
}

#[test]
fn test_external_mux_tmux() {
    let mux = ExternalMux::Tmux;
    assert_eq!(mux.name(), "tmux");
    assert!(mux.is_active());
    assert!(mux.list_command().is_some());
    assert!(mux.attach_command("test").is_some());
}

#[test]
fn test_external_mux_screen() {
    let mux = ExternalMux::Screen;
    assert_eq!(mux.name(), "screen");
    assert!(mux.is_active());
    assert_eq!(mux.attach_command("s1").unwrap(), "screen -r s1");
}

#[test]
fn test_external_mux_none() {
    let mux = ExternalMux::Absent;
    assert_eq!(mux.name(), "none");
    assert!(!mux.is_active());
    assert!(mux.list_command().is_none());
    assert!(mux.attach_command("test").is_none());
}
