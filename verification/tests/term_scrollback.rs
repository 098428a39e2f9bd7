use basilisk::term::grid::Grid;
use basilisk::term::scrollback::ScrollbackView;

fn make_grid_with_scrollback(lines: u16, scrollback_lines: usize) -> Grid {
    let mut grid = Grid::new(80, lines, 10000);
    for _ in 0..scrollback_lines {
        grid.scroll_up(1);
    }
    grid
}

fn ratio(r: (i128, u128)) -> f32 {
    r.0 as f32 / r.1 as f32
}

#[test]
fn scrollback_view_new() {
    let view = ScrollbackView::new(24);
    assert_eq!(view.offset(), 0);
    assert!(!view.is_active());
    assert_eq!(view.visible_lines(), 24);
}

#[test]
fn scrollback_scroll_up() {
    let mut view = ScrollbackView::new(24);
    let grid = make_grid_with_scrollback(24, 100);

    view.scroll_up(10, &grid);
    assert_eq!(view.offset(), 10);
    assert!(view.is_active());
}

#[test]
fn scrollback_scroll_down() {
    let mut view = ScrollbackView::new(24);
    let grid = make_grid_with_scrollback(24, 100);

    view.scroll_up(20, &grid);
    view.scroll_down(10);
    assert_eq!(view.offset(), 10);

    view.scroll_down(20);
    assert_eq!(view.offset(), 0);
    assert!(!view.is_active());
}

#[test]
fn scrollback_page_up_down() {
    let mut view = ScrollbackView::new(24);
    let grid = make_grid_with_scrollback(24, 100);

    view.page_up(&grid);
    assert_eq!(view.offset(), 23);

    view.page_down();
    assert_eq!(view.offset(), 0);
}

#[test]
fn scrollback_to_top_bottom() {
    let mut view = ScrollbackView::new(24);
    let grid = make_grid_with_scrollback(24, 100);

    view.scroll_to_top(&grid);
    assert_eq!(view.offset(), 100);
    assert!(view.is_active());

    view.scroll_to_bottom();
    assert_eq!(view.offset(), 0);
    assert!(!view.is_active());
}

#[test]
fn scrollback_max_offset() {
    let mut view = ScrollbackView::new(24);
    let grid = make_grid_with_scrollback(24, 50);

    view.scroll_up(1000, &grid);
    assert_eq!(view.offset(), 50);
}

#[test]
fn scrollback_deactivate() {
    let mut view = ScrollbackView::new(24);
    let grid = make_grid_with_scrollback(24, 100);

    view.scroll_up(50, &grid);
    assert!(view.is_active());

    view.deactivate();
    assert!(!view.is_active());
    assert_eq!(view.offset(), 0);
}

#[test]
fn visible_range_live() {
    let view = ScrollbackView::new(24);
    let grid = make_grid_with_scrollback(24, 100);

    let range = view.visible_range(&grid);
    assert_eq!(range.scrollback_count, 0);
    assert_eq!(range.active_count, 24);
}

#[test]
fn visible_range_scrolled() {
    let mut view = ScrollbackView::new(24);
    let grid = make_grid_with_scrollback(24, 100);

    view.scroll_up(10, &grid);
    let range = view.visible_range(&grid);

    assert_eq!(range.scrollback_count, 10);
    assert_eq!(range.active_count, 14);
}

#[test]
fn scrollbar_position() {
    let mut view = ScrollbackView::new(24);
    let grid = make_grid_with_scrollback(24, 100);

    assert!((ratio(view.scrollbar_position(&grid)) - 1.0).abs() < 0.01);

    view.scroll_to_top(&grid);
    assert!((ratio(view.scrollbar_position(&grid)) - 0.0).abs() < 0.01);

    view.scroll_to_bottom();
    view.scroll_up(50, &grid);
    assert!((ratio(view.scrollbar_position(&grid)) - 0.5).abs() < 0.01);
}

#[test]
fn scrollbar_size() {
    let view = ScrollbackView::new(24);
    let grid = make_grid_with_scrollback(24, 100);

    let (num, den) = view.scrollbar_size(&grid);
    let size = num as f32 / den as f32;
    assert!((size - 24.0 / 124.0).abs() < 0.01);
}
