use basilisk::term::grid::Grid;
use basilisk::term::selection::{Point, Selection, SelectionManager};

#[test]
fn point_is_before() {
    let p1 = Point::new(5, 3);
    let p2 = Point::new(10, 3);
    let p3 = Point::new(5, 5);

    assert!(p1.is_before(&p2));
    assert!(p1.is_before(&p3));
    assert!(!p2.is_before(&p1));
}

#[test]
fn selection_bounds() {
    let mut sel = Selection::normal(10, 5);
    sel.update(5, 3);

    let (start, end) = sel.bounds();
    assert_eq!(start.line, 3);
    assert_eq!(start.col, 5);
    assert_eq!(end.line, 5);
    assert_eq!(end.col, 10);
}

#[test]
fn selection_contains_normal() {
    let mut sel = Selection::normal(5, 2);
    sel.update(10, 4);

    assert!(sel.contains(7, 3));
    assert!(sel.contains(8, 2));
    assert!(sel.contains(5, 4));
    assert!(!sel.contains(0, 0));
    assert!(!sel.contains(15, 4));
}

#[test]
fn selection_contains_block() {
    let mut sel = Selection::block(5, 2);
    sel.update(10, 4);

    assert!(sel.contains(7, 3));
    assert!(!sel.contains(3, 3));
    assert!(!sel.contains(12, 3));
}

#[test]
fn selection_contains_line() {
    let mut sel = Selection::line(2);
    sel.update(0, 4);

    assert!(sel.contains(0, 2));
    assert!(sel.contains(50, 3));
    assert!(sel.contains(100, 4));
    assert!(!sel.contains(0, 1));
    assert!(!sel.contains(0, 5));
}

#[test]
fn selection_manager_workflow() {
    let mut manager = SelectionManager::new();

    assert!(!manager.has_selection());

    manager.start_normal(5, 3);
    assert!(manager.has_selection());

    manager.update(10, 5);
    assert!(manager.is_selected(7, 4));

    manager.clear();
    assert!(!manager.has_selection());
}

#[test]
fn selection_extract_simple() {
    let mut grid = Grid::new(20, 5, 100);

    for (i, c) in "Hello".chars().enumerate() {
        grid.cell_mut(i as u16, 1).c = c;
    }

    let mut sel = Selection::normal(0, 1);
    sel.update(4, 1);

    let text = sel.extract_text(&grid);
    assert_eq!(text, "Hello");
}

#[test]
fn selection_extract_multiline() {
    let mut grid = Grid::new(20, 5, 100);

    for (i, c) in "Line1".chars().enumerate() {
        grid.cell_mut(i as u16, 0).c = c;
    }
    for (i, c) in "Line2".chars().enumerate() {
        grid.cell_mut(i as u16, 1).c = c;
    }

    let mut sel = Selection::normal(0, 0);
    sel.update(4, 1);

    let text = sel.extract_text(&grid);
    assert_eq!(text, "Line1\nLine2");
}

#[test]
fn selection_extract_block_trims_only_at_end() {
    let mut grid = Grid::new(20, 5, 100);
    for (i, c) in "abcdef".chars().enumerate() {
        grid.cell_mut(i as u16, 0).c = c;
        grid.cell_mut(i as u16, 1).c = c;
    }
    let mut sel = Selection::block(1, 0);
    sel.update(8, 1);
    assert_eq!(sel.extract_text(&grid), "bcdef   \nbcdef");
}

#[test]
fn selection_clear() {
    let mut sel = Selection::normal(0, 0);
    assert!(sel.is_active());

    sel.clear();
    assert!(!sel.is_active());
}
