use basilisk::term::grid::Grid;

#[test]
fn grid_new() {
    let grid = Grid::new(80, 24, 1000);
    assert_eq!(grid.cols(), 80);
    assert_eq!(grid.lines(), 24);
}

#[test]
fn grid_grid_cell_access() {
    let mut grid = Grid::new(80, 24, 1000);
    grid.cell_mut(0, 0).set_char('A');
    assert_eq!(grid.cell(0, 0).c(), 'A');
}

#[test]
fn grid_resize_expand() {
    let mut grid = Grid::new(80, 24, 1000);
    grid.resize(100, 30);
    assert_eq!(grid.cols(), 100);
    assert_eq!(grid.lines(), 30);
}

#[test]
fn grid_resize_shrink() {
    let mut grid = Grid::new(80, 24, 1000);
    grid.cell_mut(0, 0).set_char('X');
    grid.resize(60, 20);
    assert_eq!(grid.cols(), 60);
    assert_eq!(grid.lines(), 20);
    assert!(grid.scrollback_len() > 0);
}

#[test]
fn grid_scroll_up() {
    let mut grid = Grid::new(80, 24, 1000);
    grid.cell_mut(0, 0).set_char('A');
    grid.scroll_up(1);
    assert_eq!(grid.scrollback_len(), 1);
    assert_eq!(grid.cell(0, 0).c(), ' ');
}

#[test]
fn grid_scroll_up_keeps_row_in_scrollback() {
    let mut grid = Grid::new(10, 3, 100);
    grid.cell_mut(0, 0).set_char('A');
    grid.cell_mut(0, 1).set_char('B');
    grid.scroll_up(1);
    assert_eq!(grid.scrollback_row(0).unwrap().cells[0].c, 'A');
    assert_eq!(grid.cell(0, 0).c(), 'B');
}

#[test]
fn grid_scrollback_limit() {
    let mut grid = Grid::new(80, 24, 5);
    for i in 0..10 {
        grid.cell_mut(0, 0).set_char(char::from(b'A' + i));
        grid.scroll_up(1);
    }
    assert_eq!(grid.scrollback_len(), 5);
}

#[test]
fn grid_clear_line() {
    let mut grid = Grid::new(80, 24, 1000);
    grid.cell_mut(0, 5).set_char('X');
    grid.clear_line(5);
    assert_eq!(grid.cell(0, 5).c(), ' ');
}

#[test]
fn grid_clear_region() {
    let mut grid = Grid::new(80, 24, 1000);
    for col in 0..10 {
        grid.cell_mut(col, 0).set_char('X');
    }
    grid.clear_region((2, 0), (7, 0));
    assert_eq!(grid.cell(0, 0).c(), 'X');
    assert_eq!(grid.cell(1, 0).c(), 'X');
    assert_eq!(grid.cell(2, 0).c(), ' ');
    assert_eq!(grid.cell(6, 0).c(), ' ');
    assert_eq!(grid.cell(7, 0).c(), 'X');
}
