//! Terminal grid with scrollback.

use vstd::prelude::*;
use std::collections::VecDeque;
use super::cell::{Cell, blank_cell};

verus! {

/// A single row of cells.
#[derive(Clone, Debug)]
pub struct Row {
    pub cells: Vec<Cell>,
}

/// A row of `n` blank cells.
pub open spec fn blank_row(n: int) -> Seq<Cell> {
    Seq::new(n as nat, |i: int| blank_cell())
}

/// A row cut or padded with blank cells to `n` cells.
pub open spec fn resized_row(r: Seq<Cell>, n: int) -> Seq<Cell> {
    if n <= r.len() { r.take(n) } else { r + blank_row(n - r.len()) }
}

/// The cells of every row, in order.
pub open spec fn rows_of(v: Seq<Row>) -> Seq<Seq<Cell>> {
    v.map_values(|r: Row| r.cells@)
}

pub proof fn lemma_rows_of_push(v: Seq<Row>, r: Row)
    ensures rows_of(v.push(r)) == rows_of(v).push(r.cells@),
{
    assert(rows_of(v.push(r)) =~= rows_of(v).push(r.cells@));
}

pub proof fn lemma_rows_of_update(v: Seq<Row>, i: int, r: Row)
    requires 0 <= i < v.len(),
    ensures rows_of(v.update(i, r)) == rows_of(v).update(i, r.cells@),
{
    assert(rows_of(v.update(i, r)) =~= rows_of(v).update(i, r.cells@));
}

pub proof fn lemma_rows_of_remove(v: Seq<Row>, i: int)
    requires 0 <= i < v.len(),
    ensures rows_of(v.remove(i)) == rows_of(v).remove(i),
{
    assert(rows_of(v.remove(i)) =~= rows_of(v).remove(i));
}

pub proof fn lemma_rows_of_insert(v: Seq<Row>, i: int, r: Row)
    requires 0 <= i <= v.len(),
    ensures rows_of(v.insert(i, r)) == rows_of(v).insert(i, r.cells@),
{
    assert(rows_of(v.insert(i, r)) =~= rows_of(v).insert(i, r.cells@));
}

pub proof fn lemma_rows_of_drop_last(v: Seq<Row>)
    requires v.len() > 0,
    ensures rows_of(v.drop_last()) == rows_of(v).drop_last(),
{
    assert(rows_of(v.drop_last()) =~= rows_of(v).drop_last());
}

pub proof fn lemma_rows_of_drop_first(v: Seq<Row>)
    requires v.len() > 0,
    ensures rows_of(v.drop_first()) == rows_of(v).drop_first(),
{
    assert(rows_of(v.drop_first()) =~= rows_of(v).drop_first());
}

impl Row {
    pub fn new(cols: usize) -> (r: Self)
        ensures r.cells@ == blank_row(cols as int),
    {
        let mut cells: Vec<Cell> = Vec::new();
        let mut i: usize = 0;
        while i < cols
            invariant
                0 <= i <= cols,
                cells@ =~= blank_row(i as int),
            decreases cols - i,
        {
            cells.push(Cell::empty());
            i = i + 1;
            assert(cells@ =~= blank_row(i as int));
        }
        Row { cells }
    }

    /// Reset every cell to blank, keeping the width.
    pub fn clear(&mut self)
        ensures final(self).cells@ == blank_row(old(self).cells@.len() as int),
    {
        let n = self.cells.len();
        let mut i: usize = 0;
        while i < n
            invariant
                0 <= i <= n,
                n == self.cells@.len(),
                n == old(self).cells@.len(),
                forall|j: int| 0 <= j < i ==> self.cells@[j] == blank_cell(),
            decreases n - i,
        {
            self.cells.set(i, Cell::empty());
            i = i + 1;
        }
        assert(self.cells@ =~= blank_row(n as int));
    }

    /// Cut or pad with blank cells to `cols` cells.
    pub fn resize(&mut self, cols: usize)
        ensures final(self).cells@ == resized_row(old(self).cells@, cols as int),
    {
        if cols <= self.cells.len() {
            self.cells.truncate(cols);
            assert(self.cells@ =~= resized_row(old(self).cells@, cols as int));
        } else {
            let extra = Row::new(cols - self.cells.len());
            let mut more = extra.cells;
            self.cells.append(&mut more);
            assert(self.cells@ =~= resized_row(old(self).cells@, cols as int));
        }
    }
}

/// Terminal grid with scrollback buffer.
pub struct Grid {
    pub rows: Vec<Row>,
    pub scrollback: VecDeque<Row>,
    pub cols: u16,
    pub lines: u16,
    pub scrollback_limit: usize,
}

/// A scrollback that gains `row` at its end, dropping its oldest row first when
/// it already holds `limit` rows or more.
pub open spec fn pushed_history(sb: Seq<Seq<Cell>>, row: Seq<Cell>, limit: int) -> Seq<Seq<Cell>> {
    if sb.len() >= limit && sb.len() > 0 { sb.drop_first().push(row) } else { sb.push(row) }
}

/// `n` blank rows of width `w`.
pub open spec fn blank_rows(n: int, w: int) -> Seq<Seq<Cell>> {
    Seq::new(n as nat, |i: int| blank_row(w))
}

impl Grid {
    /// The visible rows.
    pub open spec fn view_rows(&self) -> Seq<Seq<Cell>> {
        rows_of(self.rows@)
    }

    /// The scrollback rows, oldest first.
    pub open spec fn view_scrollback(&self) -> Seq<Seq<Cell>> {
        rows_of(self.scrollback@)
    }

    /// Well-formed: as many rows as lines, each `cols` wide.
    pub open spec fn wf(&self) -> bool {
        &&& self.rows@.len() == self.lines as int
        &&& forall|l: int| 0 <= l < self.rows@.len() ==> #[trigger] self.rows@[l].cells@.len() == self.cols as int
    }

    /// Position (`col`, `line`) is a cell of the visible grid.
    pub open spec fn in_bounds(&self, col: int, line: int) -> bool {
        0 <= line < self.rows@.len() && 0 <= col < self.rows@[line].cells@.len()
    }

    /// The cell at (`col`, `line`).
    pub open spec fn cell_at(&self, col: int, line: int) -> Cell {
        self.rows@[line].cells@[col]
    }

    pub fn new(cols: u16, lines: u16, scrollback_limit: usize) -> (g: Self)
        ensures
            g.wf(),
            g.cols == cols,
            g.lines == lines,
            g.scrollback_limit == scrollback_limit,
            g.view_rows() == blank_rows(lines as int, cols as int),
            g.view_scrollback().len() == 0,
    {
        let mut rows: Vec<Row> = Vec::new();
        let mut i: u16 = 0;
        while i < lines
            invariant
                0 <= i <= lines,
                rows_of(rows@) =~= blank_rows(i as int, cols as int),
                rows@.len() == i,
            decreases lines - i,
        {
            let ghost prev = rows@;
            rows.push(Row::new(cols as usize));
            proof {
                lemma_rows_of_push(prev, rows@[rows@.len() - 1]);
                assert(rows@ == prev.push(rows@[rows@.len() - 1]));
            }
            i = i + 1;
            assert(rows_of(rows@) =~= blank_rows(i as int, cols as int));
        }
        let g = Grid { rows, scrollback: VecDeque::new(), cols, lines, scrollback_limit };
        assert(g.view_scrollback() =~= Seq::<Seq<Cell>>::empty());
        assert forall|l: int| 0 <= l < g.rows@.len() implies #[trigger] g.rows@[l].cells@.len() == cols as int by {
            assert(rows_of(g.rows@)[l] == blank_row(cols as int));
        }
        g
    }

    /// Resize: rows are cut or padded to the new width; new blank rows are
    /// added at the bottom, or the top rows move to scrollback (kept only while
    /// the scrollback holds fewer rows than its limit).
    pub fn resize(&mut self, cols: u16, lines: u16)
        requires
            old(self).wf(),
        ensures
            final(self).wf(),
            final(self).cols == cols,
            final(self).lines == lines,
            final(self).scrollback_limit == old(self).scrollback_limit,
            lines >= old(self).lines ==> final(self).view_rows()
                == old(self).view_rows().map_values(|r: Seq<Cell>| resized_row(r, cols as int))
                    + blank_rows(lines - old(self).lines, cols as int),
            lines >= old(self).lines ==> final(self).view_scrollback() == old(self).view_scrollback(),
            lines < old(self).lines ==> final(self).view_rows()
                == old(self).view_rows().map_values(|r: Seq<Cell>| resized_row(r, cols as int)).skip(old(self).lines - lines),
            lines < old(self).lines ==> final(self).view_scrollback().len() >= old(self).view_scrollback().len(),
    {
        let n = self.rows.len();
        let mut i: usize = 0;
        while i < n
            invariant
                0 <= i <= n,
                n == self.rows@.len(),
                n == old(self).rows@.len(),
                self.lines == old(self).lines,
                self.cols == old(self).cols,
                self.scrollback == old(self).scrollback,
                self.scrollback_limit == old(self).scrollback_limit,
                forall|j: int| 0 <= j < i ==> #[trigger] rows_of(self.rows@)[j] == resized_row(rows_of(old(self).rows@)[j], cols as int),
                forall|j: int| i <= j < n ==> #[trigger] rows_of(self.rows@)[j] == rows_of(old(self).rows@)[j],
            decreases n - i,
        {
            let ghost prev = self.rows@;
            self.rows[i].resize(cols as usize);
            proof {
                lemma_rows_of_update(prev, i as int, self.rows@[i as int]);
                assert(self.rows@ == prev.update(i as int, self.rows@[i as int]));
                assert(rows_of(prev)[i as int] == rows_of(old(self).rows@)[i as int]);
                assert(rows_of(self.rows@)[i as int] == resized_row(rows_of(old(self).rows@)[i as int], cols as int));
            }
            i = i + 1;
        }
        let ghost resized = rows_of(old(self).rows@).map_values(|r: Seq<Cell>| resized_row(r, cols as int));
        assert(rows_of(self.rows@) =~= resized);
        if lines > self.lines {
            let mut k: u16 = 0;
            let add: u16 = lines - self.lines;
            while k < add
                invariant
                    0 <= k <= add,
                    add == lines - old(self).lines,
                    self.lines == old(self).lines,
                    self.scrollback == old(self).scrollback,
                    self.scrollback_limit == old(self).scrollback_limit,
                    rows_of(self.rows@) =~= resized + blank_rows(k as int, cols as int),
                decreases add - k,
            {
                let ghost prev = self.rows@;
                self.rows.push(Row::new(cols as usize));
                proof {
                    lemma_rows_of_push(prev, self.rows@[self.rows@.len() - 1]);
                    assert(self.rows@ == prev.push(self.rows@[self.rows@.len() - 1]));
                }
                k = k + 1;
                assert(rows_of(self.rows@) =~= resized + blank_rows(k as int, cols as int));
            }
        } else if lines < self.lines {
            let drop: u16 = self.lines - lines;
            let mut k: u16 = 0;
            while k < drop
                invariant
                    0 <= k <= drop,
                    drop == old(self).lines - lines,
                    old(self).lines as int == resized.len(),
                    self.scrollback_limit == old(self).scrollback_limit,
                    rows_of(self.rows@) =~= resized.skip(k as int),
                    self.scrollback@.len() >= old(self).scrollback@.len(),
                decreases drop - k,
            {
                let ghost prev = self.rows@;
                if self.rows.len() > 0 {
                    let row = self.rows.remove(0);
                    proof { lemma_rows_of_remove(prev, 0); }
                    if self.scrollback.len() < self.scrollback_limit {
                        self.scrollback.push_back(row);
                    }
                }
                assert(rows_of(prev).len() == prev.len());
                assert(prev.len() == resized.len() - k);
                k = k + 1;
                assert(rows_of(self.rows@) =~= resized.skip(k as int));
            }
        }
        self.cols = cols;
        self.lines = lines;
        assert forall|l: int| 0 <= l < self.rows@.len() implies #[trigger] self.rows@[l].cells@.len() == cols as int by {
            assert(rows_of(self.rows@)[l].len() == cols as int);
        }
    }

    /// The cell at (`col`, `line`).
    pub fn cell(&self, col: u16, line: u16) -> (c: &Cell)
        requires
            self.in_bounds(col as int, line as int),
        ensures
            *c == self.cell_at(col as int, line as int),
    {
        &self.rows[line as usize].cells[col as usize]
    }

    /// Mutable access to the cell at (`col`, `line`).
    pub fn cell_mut(&mut self, col: u16, line: u16) -> (c: &mut Cell)
        requires
            old(self).in_bounds(col as int, line as int),
        ensures
            *c == old(self).cell_at(col as int, line as int),
            final(self).view_rows() == old(self).view_rows().update(line as int,
                old(self).view_rows()[line as int].update(col as int, *final(c))),
            final(self).view_scrollback() == old(self).view_scrollback(),
            final(self).cols == old(self).cols,
            final(self).lines == old(self).lines,
            final(self).scrollback_limit == old(self).scrollback_limit,
            final(self).rows@.len() == old(self).rows@.len(),
    {
        &mut self.rows[line as usize].cells[col as usize]
    }

    /// Replace the cell at (`col`, `line`); positions outside the grid are ignored.
    pub fn set_cell(&mut self, col: u16, line: u16, cell: Cell)
        ensures
            old(self).in_bounds(col as int, line as int) ==> final(self).view_rows() == old(self).view_rows().update(line as int,
                old(self).view_rows()[line as int].update(col as int, cell)),
            !old(self).in_bounds(col as int, line as int) ==> final(self).view_rows() == old(self).view_rows(),
            final(self).view_scrollback() == old(self).view_scrollback(),
            final(self).scrollback == old(self).scrollback,
            final(self).cols == old(self).cols,
            final(self).lines == old(self).lines,
            final(self).scrollback_limit == old(self).scrollback_limit,
            final(self).rows@.len() == old(self).rows@.len(),
            old(self).wf() ==> final(self).wf(),
    {
        if (line as usize) < self.rows.len() && (col as usize) < self.rows[line as usize].cells.len() {
            self.rows[line as usize].cells.set(col as usize, cell);
            proof {
                lemma_rows_of_update(old(self).rows@, line as int, self.rows@[line as int]);
            }
            assert(rows_of(self.rows@) =~= rows_of(old(self).rows@).update(line as int,
                rows_of(old(self).rows@)[line as int].update(col as int, cell)));
            assert(old(self).wf() ==> forall|l: int| 0 <= l < self.rows@.len() ==> #[trigger] self.rows@[l].cells@.len() == self.cols as int) by {
                if old(self).wf() {
                    assert forall|l: int| 0 <= l < self.rows@.len() implies #[trigger] self.rows@[l].cells@.len() == self.cols as int by {
                        assert(rows_of(self.rows@)[l].len() == rows_of(old(self).rows@)[l].len());
                    }
                }
            }
        }
    }

    /// Move the top row to the scrollback (dropping the oldest scrollback row
    /// when the limit is reached) and add a blank row at the bottom, `amount` times.
    pub fn scroll_up(&mut self, amount: usize)
        requires
            old(self).wf(),
            old(self).lines > 0,
        ensures
            final(self).wf(),
            final(self).cols == old(self).cols,
            final(self).lines == old(self).lines,
            final(self).scrollback_limit == old(self).scrollback_limit,
            final(self).view_rows() == scrolled_rows(old(self).view_rows(), amount as int, old(self).cols as int),
            final(self).view_scrollback() == scrolled_history(old(self).view_scrollback(), old(self).view_rows(),
                amount as int, old(self).cols as int, old(self).scrollback_limit as int),
    {
        let mut k: usize = 0;
        while k < amount
            invariant
                0 <= k <= amount,
                self.wf(),
                self.lines > 0,
                self.cols == old(self).cols,
                self.lines == old(self).lines,
                self.scrollback_limit == old(self).scrollback_limit,
                self.view_rows() == scrolled_rows(old(self).view_rows(), k as int, old(self).cols as int),
                self.view_scrollback() == scrolled_history(old(self).view_scrollback(), old(self).view_rows(),
                    k as int, old(self).cols as int, old(self).scrollback_limit as int),
            decreases amount - k,
        {
            let ghost before = self.view_rows();
            let ghost hist = self.view_scrollback();
            let ghost r0 = self.rows@;
            let ghost s0 = self.scrollback@;
            let row = self.rows.remove(0);
            proof { lemma_rows_of_remove(r0, 0); }
            if self.scrollback.len() >= self.scrollback_limit {
                self.scrollback.pop_front();
            }
            let ghost s1 = self.scrollback@;
            proof {
                if s0.len() >= self.scrollback_limit && s0.len() > 0 {
                    lemma_rows_of_drop_first(s0);
                    assert(s1 == s0.drop_first());
                } else {
                    assert(s1 == s0);
                }
            }
            self.scrollback.push_back(row);
            proof { lemma_rows_of_push(s1, self.scrollback@[self.scrollback@.len() - 1]); }
            let ghost r1 = self.rows@;
            self.rows.push(Row::new(self.cols as usize));
            proof { lemma_rows_of_push(r1, self.rows@[self.rows@.len() - 1]); }
            assert(self.view_rows() =~= before.drop_first().push(blank_row(self.cols as int)));
            assert(self.view_scrollback() =~= pushed_history(hist, before[0], self.scrollback_limit as int));
            k = k + 1;
            assert forall|l: int| 0 <= l < self.rows@.len() implies #[trigger] self.rows@[l].cells@.len() == self.cols as int by {
                assert(self.view_rows()[l].len() == self.cols as int);
            }
        }
    }

    /// Scroll the region `top..=bottom` up by `amount`: its top row leaves (to the
    /// scrollback when `top` is 0) and a blank row enters at its bottom.
    /// Nothing happens unless `top < bottom < ` the number of rows.
    pub fn scroll_region_up(&mut self, top: u16, bottom: u16, amount: usize)
        requires
            old(self).wf(),
        ensures
            final(self).wf(),
            final(self).cols == old(self).cols,
            final(self).lines == old(self).lines,
            final(self).scrollback_limit == old(self).scrollback_limit,
            !(top < bottom && (bottom as int) < old(self).rows@.len()) ==> final(self).view_rows() == old(self).view_rows()
                && final(self).view_scrollback() == old(self).view_scrollback(),
            (top < bottom && (bottom as int) < old(self).rows@.len()) ==> final(self).view_rows()
                == region_scrolled_up(old(self).view_rows(), top as int, bottom as int, amount as int, old(self).cols as int),
            (top < bottom && (bottom as int) < old(self).rows@.len() && top > 0) ==>
                final(self).view_scrollback() == old(self).view_scrollback(),
    {
        let top_u = top as usize;
        let bottom_u = bottom as usize;
        if top_u >= bottom_u || bottom_u >= self.rows.len() {
            return;
        }
        let mut k: usize = 0;
        while k < amount
            invariant
                0 <= k <= amount,
                top_u < bottom_u < self.rows@.len(),
                top_u == top, bottom_u == bottom,
                self.wf(),
                self.cols == old(self).cols,
                self.lines == old(self).lines,
                self.scrollback_limit == old(self).scrollback_limit,
                self.view_rows() == region_scrolled_up(old(self).view_rows(), top as int, bottom as int, k as int, old(self).cols as int),
                top > 0 ==> self.view_scrollback() == old(self).view_scrollback(),
            decreases amount - k,
        {
            let ghost before = self.view_rows();
            let ghost r0 = self.rows@;
            let row = self.rows.remove(top_u);
            proof { lemma_rows_of_remove(r0, top as int); }
            if top_u == 0 {
                if self.scrollback.len() >= self.scrollback_limit {
                    self.scrollback.pop_front();
                }
                self.scrollback.push_back(row);
            }
            let ghost r1 = self.rows@;
            self.rows.insert(bottom_u, Row::new(self.cols as usize));
            proof { lemma_rows_of_insert(r1, bottom as int, self.rows@[bottom as int]); assert(self.rows@ == r1.insert(bottom as int, self.rows@[bottom as int])); }
            assert(self.view_rows() =~= region_step_up(before, top as int, bottom as int, self.cols as int));
            k = k + 1;
            assert forall|l: int| 0 <= l < self.rows@.len() implies #[trigger] self.rows@[l].cells@.len() == self.cols as int by {
                assert(self.view_rows()[l].len() == self.cols as int);
            }
        }
    }

    /// Scroll the region `top..=bottom` down by `amount`: its bottom row is
    /// dropped and a blank row enters at its top. Nothing happens unless
    /// `top < bottom <` the number of rows.
    pub fn scroll_region_down(&mut self, top: u16, bottom: u16, amount: usize)
        requires
            old(self).wf(),
        ensures
            final(self).wf(),
            final(self).cols == old(self).cols,
            final(self).lines == old(self).lines,
            final(self).scrollback_limit == old(self).scrollback_limit,
            final(self).view_scrollback() == old(self).view_scrollback(),
            !(top < bottom && (bottom as int) < old(self).rows@.len()) ==> final(self).view_rows() == old(self).view_rows(),
            (top < bottom && (bottom as int) < old(self).rows@.len()) ==> final(self).view_rows()
                == region_scrolled_down(old(self).view_rows(), top as int, bottom as int, amount as int, old(self).cols as int),
    {
        let top_u = top as usize;
        let bottom_u = bottom as usize;
        if top_u >= bottom_u || bottom_u >= self.rows.len() {
            return;
        }
        let mut k: usize = 0;
        while k < amount
            invariant
                0 <= k <= amount,
                top_u < bottom_u < self.rows@.len(),
                top_u == top, bottom_u == bottom,
                self.wf(),
                self.cols == old(self).cols,
                self.lines == old(self).lines,
                self.scrollback_limit == old(self).scrollback_limit,
                self.scrollback == old(self).scrollback,
                self.view_rows() == region_scrolled_down(old(self).view_rows(), top as int, bottom as int, k as int, old(self).cols as int),
            decreases amount - k,
        {
            let ghost before = self.view_rows();
            let ghost r0 = self.rows@;
            self.rows.remove(bottom_u);
            proof { lemma_rows_of_remove(r0, bottom as int); }
            let ghost r1 = self.rows@;
            self.rows.insert(top_u, Row::new(self.cols as usize));
            proof { lemma_rows_of_insert(r1, top as int, self.rows@[top as int]); assert(self.rows@ == r1.insert(top as int, self.rows@[top as int])); }
            assert(self.view_rows() =~= region_step_down(before, top as int, bottom as int, self.cols as int));
            k = k + 1;
            assert forall|l: int| 0 <= l < self.rows@.len() implies #[trigger] self.rows@[l].cells@.len() == self.cols as int by {
                assert(self.view_rows()[l].len() == self.cols as int);
            }
        }
    }

    /// Within lines `top..=bottom`, `amount` times: drop the row at `top` and
    /// add a blank row at `bottom` (the rows below the region and the
    /// scrollback stay as they are).
    pub fn remove_region_lines(&mut self, top: u16, bottom: u16, amount: usize)
        requires
            old(self).wf(),
            top <= bottom,
            (bottom as int) < old(self).rows@.len(),
        ensures
            final(self).wf(),
            final(self).cols == old(self).cols,
            final(self).lines == old(self).lines,
            final(self).scrollback_limit == old(self).scrollback_limit,
            final(self).scrollback == old(self).scrollback,
            final(self).view_rows()
                == region_scrolled_up(old(self).view_rows(), top as int, bottom as int, amount as int, old(self).cols as int),
    {
        let top_u = top as usize;
        let bottom_u = bottom as usize;
        let mut k: usize = 0;
        while k < amount
            invariant
                0 <= k <= amount,
                top_u <= bottom_u < self.rows@.len(),
                top_u == top, bottom_u == bottom,
                self.wf(),
                self.cols == old(self).cols,
                self.lines == old(self).lines,
                self.scrollback_limit == old(self).scrollback_limit,
                self.scrollback == old(self).scrollback,
                self.view_rows() == region_scrolled_up(old(self).view_rows(), top as int, bottom as int, k as int, old(self).cols as int),
            decreases amount - k,
        {
            let ghost before = self.view_rows();
            let ghost r0 = self.rows@;
            self.rows.remove(top_u);
            proof { lemma_rows_of_remove(r0, top as int); }
            let ghost r1 = self.rows@;
            self.rows.insert(bottom_u, Row::new(self.cols as usize));
            proof { lemma_rows_of_insert(r1, bottom as int, self.rows@[bottom as int]); assert(self.rows@ == r1.insert(bottom as int, self.rows@[bottom as int])); }
            assert(self.view_rows() =~= region_step_up(before, top as int, bottom as int, self.cols as int));
            k = k + 1;
            assert forall|l: int| 0 <= l < self.rows@.len() implies #[trigger] self.rows@[l].cells@.len() == self.cols as int by {
                assert(self.view_rows()[l].len() == self.cols as int);
            }
        }
    }

    /// Within lines `top..=bottom`, `amount` times: drop the row at `bottom`
    /// and add a blank row at `top` (the scrollback stays as it is).
    pub fn insert_region_lines(&mut self, top: u16, bottom: u16, amount: usize)
        requires
            old(self).wf(),
            top <= bottom,
            (bottom as int) < old(self).rows@.len(),
        ensures
            final(self).wf(),
            final(self).cols == old(self).cols,
            final(self).lines == old(self).lines,
            final(self).scrollback_limit == old(self).scrollback_limit,
            final(self).scrollback == old(self).scrollback,
            final(self).view_rows()
                == region_scrolled_down(old(self).view_rows(), top as int, bottom as int, amount as int, old(self).cols as int),
    {
        let top_u = top as usize;
        let bottom_u = bottom as usize;
        let mut k: usize = 0;
        while k < amount
            invariant
                0 <= k <= amount,
                top_u <= bottom_u < self.rows@.len(),
                top_u == top, bottom_u == bottom,
                self.wf(),
                self.cols == old(self).cols,
                self.lines == old(self).lines,
                self.scrollback_limit == old(self).scrollback_limit,
                self.scrollback == old(self).scrollback,
                self.view_rows() == region_scrolled_down(old(self).view_rows(), top as int, bottom as int, k as int, old(self).cols as int),
            decreases amount - k,
        {
            let ghost before = self.view_rows();
            let ghost r0 = self.rows@;
            self.rows.remove(bottom_u);
            proof { lemma_rows_of_remove(r0, bottom as int); }
            let ghost r1 = self.rows@;
            self.rows.insert(top_u, Row::new(self.cols as usize));
            proof { lemma_rows_of_insert(r1, top as int, self.rows@[top as int]); assert(self.rows@ == r1.insert(top as int, self.rows@[top as int])); }
            assert(self.view_rows() =~= region_step_down(before, top as int, bottom as int, self.cols as int));
            k = k + 1;
            assert forall|l: int| 0 <= l < self.rows@.len() implies #[trigger] self.rows@[l].cells@.len() == self.cols as int by {
                assert(self.view_rows()[l].len() == self.cols as int);
            }
        }
    }

    /// Bring back the most recent scrollback rows, `amount` times: each one
    /// enters at the top while the bottom row is dropped. A step with an empty
    /// scrollback changes nothing. Rows keep the width they had in the scrollback.
    pub fn scroll_down(&mut self, amount: usize)
        requires
            old(self).rows@.len() > 0,
        ensures
            final(self).cols == old(self).cols,
            final(self).lines == old(self).lines,
            final(self).scrollback_limit == old(self).scrollback_limit,
            final(self).rows@.len() == old(self).rows@.len(),
            (final(self).view_rows(), final(self).view_scrollback())
                == history_pulled(old(self).view_rows(), old(self).view_scrollback(), amount as int),
    {
        let mut k: usize = 0;
        while k < amount
            invariant
                0 <= k <= amount,
                self.cols == old(self).cols,
                self.lines == old(self).lines,
                self.scrollback_limit == old(self).scrollback_limit,
                self.rows@.len() == old(self).rows@.len(),
                self.rows@.len() > 0,
                (self.view_rows(), self.view_scrollback())
                    == history_pulled(old(self).view_rows(), old(self).view_scrollback(), k as int),
            decreases amount - k,
        {
            let ghost s0 = self.scrollback@;
            let ghost r0 = self.rows@;
            if let Some(row) = self.scrollback.pop_back() {
                proof { lemma_rows_of_drop_last(s0); assert(self.scrollback@ == s0.drop_last()); }
                self.rows.pop();
                proof { lemma_rows_of_drop_last(r0); }
                let ghost r1 = self.rows@;
                self.rows.insert(0, row);
                proof {
                    lemma_rows_of_insert(r1, 0, self.rows@[0]);
                    assert(self.rows@ == r1.insert(0, self.rows@[0]));
                    assert(rows_of(s0).last() == self.rows@[0].cells@);
                    assert(rows_of(r1).insert(0, rows_of(s0).last()) =~= seq![rows_of(s0).last()] + rows_of(r0).drop_last());
                }
            } else {
                proof { assert(rows_of(s0).len() == 0); }
            }
            k = k + 1;
        }
    }

    /// Reset every visible cell to blank.
    pub fn clear(&mut self)
        requires
            old(self).wf(),
        ensures
            final(self).wf(),
            final(self).view_rows() == blank_rows(old(self).lines as int, old(self).cols as int),
            final(self).view_scrollback() == old(self).view_scrollback(),
            final(self).cols == old(self).cols,
            final(self).lines == old(self).lines,
            final(self).scrollback_limit == old(self).scrollback_limit,
    {
        let n = self.rows.len();
        let mut i: usize = 0;
        while i < n
            invariant
                0 <= i <= n,
                n == self.rows@.len(),
                self.wf(),
                self.cols == old(self).cols,
                self.lines == old(self).lines,
                self.scrollback == old(self).scrollback,
                self.scrollback_limit == old(self).scrollback_limit,
                forall|j: int| 0 <= j < i ==> #[trigger] self.view_rows()[j] == blank_row(self.cols as int),
            decreases n - i,
        {
            self.clear_line(i as u16);
            i = i + 1;
        }
        assert(self.view_rows() =~= blank_rows(old(self).lines as int, old(self).cols as int));
    }

    /// Reset one visible line to blank; lines outside the grid are ignored.
    pub fn clear_line(&mut self, line: u16)
        requires
            old(self).wf(),
        ensures
            final(self).wf(),
            (line as int) < old(self).rows@.len() ==> final(self).view_rows()
                == old(self).view_rows().update(line as int, blank_row(old(self).cols as int)),
            (line as int) >= old(self).rows@.len() ==> final(self).view_rows() == old(self).view_rows(),
            final(self).view_scrollback() == old(self).view_scrollback(),
            final(self).scrollback == old(self).scrollback,
            final(self).cols == old(self).cols,
            final(self).lines == old(self).lines,
            final(self).scrollback_limit == old(self).scrollback_limit,
    {
        if (line as usize) < self.rows.len() {
            self.rows[line as usize].clear();
            proof { lemma_rows_of_update(old(self).rows@, line as int, self.rows@[line as int]); }
            assert(self.view_rows() =~= old(self).view_rows().update(line as int, blank_row(old(self).cols as int)));
            assert forall|l: int| 0 <= l < self.rows@.len() implies #[trigger] self.rows@[l].cells@.len() == self.cols as int by {
                assert(self.view_rows()[l].len() == self.cols as int);
            }
        }
    }

    /// Reset the cells from `start` (column, line) up to, not including, the
    /// end column on the end line; lines between are cleared whole.
    pub fn clear_region(&mut self, start: (u16, u16), end: (u16, u16))
        requires
            old(self).wf(),
        ensures
            final(self).wf(),
            final(self).cols == old(self).cols,
            final(self).lines == old(self).lines,
            final(self).view_scrollback() == old(self).view_scrollback(),
            forall|l: int, c: int| 0 <= l < old(self).lines && 0 <= c < old(self).cols ==>
                #[trigger] final(self).view_rows()[l][c] == (if in_region(c, l, start, end, old(self).cols as int) { blank_cell() } else { old(self).view_rows()[l][c] }),
    {
        let (start_col, start_line) = start;
        let (end_col, end_line) = end;
        let mut line: u32 = start_line as u32;
        while line <= end_line as u32 && line < self.rows.len() as u32
            invariant
                start_line as u32 <= line,
                line <= end_line as u32 + 1 || line == start_line as u32,
                start == (start_col, start_line),
                end == (end_col, end_line),
                self.wf(),
                self.cols == old(self).cols,
                self.lines == old(self).lines,
                self.scrollback == old(self).scrollback,
                forall|l: int, c: int| 0 <= l < old(self).lines && 0 <= c < old(self).cols ==>
                    #[trigger] self.view_rows()[l][c] == (if l < line && in_region(c, l, start, end, old(self).cols as int) { blank_cell() } else { old(self).view_rows()[l][c] }),
            decreases end_line as u32 + 1 - line,
        {
            let col_start: u16 = if line == start_line as u32 { start_col } else { 0 };
            let col_end: u16 = if line == end_line as u32 { end_col } else { self.cols };
            let mut col: u16 = col_start;
            while col < col_end
                invariant
                    col_start <= col,
                    (line as int) < self.rows@.len(),
                    col_start == (if line == start_line as u32 { start_col } else { 0u16 }),
                    col_end == (if line == end_line as u32 { end_col } else { self.cols }),
                    start == (start_col, start_line),
                    end == (end_col, end_line),
                    start_line as u32 <= line <= end_line as u32,
                    self.wf(),
                    self.cols == old(self).cols,
                    self.lines == old(self).lines,
                    self.scrollback == old(self).scrollback,
                    forall|l: int, c: int| 0 <= l < old(self).lines && 0 <= c < old(self).cols ==>
                        #[trigger] self.view_rows()[l][c] == (if (l < line && in_region(c, l, start, end, old(self).cols as int))
                            || (l == line && col_start <= c < col && in_region(c, l, start, end, old(self).cols as int)) { blank_cell() } else { old(self).view_rows()[l][c] }),
                decreases col_end - col,
            {
                self.set_cell(col, line as u16, Cell::empty());
                col = col + 1;
            }
            line = line + 1;
        }
        assert forall|l: int, c: int| 0 <= l < old(self).lines && 0 <= c < old(self).cols implies
            #[trigger] self.view_rows()[l][c] == (if in_region(c, l, start, end, old(self).cols as int) { blank_cell() } else { old(self).view_rows()[l][c] }) by {
            if in_region(c, l, start, end, old(self).cols as int) {
                assert(l < line);
            }
        }
    }

    pub fn cols(&self) -> (c: u16)
        ensures c == self.cols,
    {
        self.cols
    }

    pub fn lines(&self) -> (l: u16)
        ensures l == self.lines,
    {
        self.lines
    }

    pub fn scrollback_len(&self) -> (n: usize)
        ensures n == self.view_scrollback().len(),
    {
        self.scrollback.len()
    }

    /// Scrollback row `offset` places back from the most recent one (0 = the
    /// most recent); offsets past the oldest row give the oldest row, and an
    /// empty scrollback gives nothing.
    pub fn scrollback_row(&self, offset: usize) -> (r: Option<&Row>)
        ensures
            self.view_scrollback().len() == 0 ==> r.is_none(),
            self.view_scrollback().len() > 0 ==> r.is_some() && r.unwrap().cells@
                == self.view_scrollback()[history_index(self.view_scrollback().len() as int, offset as int)],
    {
        let len = self.scrollback.len();
        let idx: usize = if offset >= len { 0 } else { len - offset - 1 };
        if idx < len {
            Some(&self.scrollback[idx])
        } else {
            None
        }
    }

    pub fn row(&self, line: u16) -> (r: &Row)
        requires
            (line as int) < self.rows@.len(),
        ensures
            r.cells@ == self.view_rows()[line as int],
    {
        &self.rows[line as usize]
    }

    /// Mutable access to a visible row.
    pub fn row_mut(&mut self, line: u16) -> (r: &mut Row)
        requires
            (line as int) < old(self).rows@.len(),
        ensures
            *r == old(self).rows@[line as int],
            final(self).rows@ == old(self).rows@.update(line as int, *final(r)),
            final(self).scrollback == old(self).scrollback,
            final(self).cols == old(self).cols,
            final(self).lines == old(self).lines,
            final(self).scrollback_limit == old(self).scrollback_limit,
    {
        &mut self.rows[line as usize]
    }

    /// Replace a visible row; lines outside the grid are ignored.
    pub fn set_row(&mut self, line: u16, row: Row)
        ensures
            (line as int) < old(self).rows@.len() ==> final(self).view_rows() == old(self).view_rows().update(line as int, row.cells@),
            (line as int) >= old(self).rows@.len() ==> final(self).view_rows() == old(self).view_rows(),
            final(self).scrollback == old(self).scrollback,
            final(self).cols == old(self).cols,
            final(self).lines == old(self).lines,
            final(self).scrollback_limit == old(self).scrollback_limit,
            final(self).rows@.len() == old(self).rows@.len(),
            old(self).wf() && row.cells@.len() == old(self).cols ==> final(self).wf(),
    {
        if (line as usize) < self.rows.len() {
            let ghost w = row.cells@.len();
            self.rows.set(line as usize, row);
            proof { lemma_rows_of_update(old(self).rows@, line as int, self.rows@[line as int]); }
            assert(self.view_rows() =~= old(self).view_rows().update(line as int, row.cells@));
            proof {
                if old(self).wf() && w == old(self).cols as nat {
                    assert forall|l: int| 0 <= l < self.rows@.len() implies #[trigger] self.rows@[l].cells@.len() == self.cols as int by {
                        assert(self.view_rows()[l].len() == self.cols as int);
                    }
                }
            }
        }
    }

    /// Cut or pad every visible row to the grid's width.
    pub fn fit_rows(&mut self)
        requires
            old(self).rows@.len() == old(self).lines as int,
        ensures
            final(self).wf(),
            final(self).view_rows() == old(self).view_rows().map_values(|r: Seq<Cell>| resized_row(r, old(self).cols as int)),
            final(self).scrollback == old(self).scrollback,
            final(self).cols == old(self).cols,
            final(self).lines == old(self).lines,
            final(self).scrollback_limit == old(self).scrollback_limit,
    {
        let n = self.rows.len();
        let mut i: usize = 0;
        while i < n
            invariant
                0 <= i <= n,
                n == self.rows@.len(),
                n == old(self).rows@.len(),
                self.lines == old(self).lines,
                self.cols == old(self).cols,
                self.scrollback == old(self).scrollback,
                self.scrollback_limit == old(self).scrollback_limit,
                forall|j: int| 0 <= j < i ==> #[trigger] rows_of(self.rows@)[j] == resized_row(rows_of(old(self).rows@)[j], self.cols as int),
                forall|j: int| i <= j < n ==> #[trigger] rows_of(self.rows@)[j] == rows_of(old(self).rows@)[j],
            decreases n - i,
        {
            let ghost r0 = self.rows@;
            let cols = self.cols as usize;
            self.rows[i].resize(cols);
            proof {
                lemma_rows_of_update(r0, i as int, self.rows@[i as int]);
                assert(self.rows@ == r0.update(i as int, self.rows@[i as int]));
                assert(rows_of(self.rows@)[i as int] == resized_row(rows_of(r0)[i as int], self.cols as int));
                assert forall|j: int| 0 <= j < i + 1 implies #[trigger] rows_of(self.rows@)[j] == resized_row(rows_of(old(self).rows@)[j], self.cols as int) by {
                    if j < i {
                        assert(rows_of(self.rows@)[j] == rows_of(r0)[j]);
                    }
                }
                assert forall|j: int| i + 1 <= j < n implies #[trigger] rows_of(self.rows@)[j] == rows_of(old(self).rows@)[j] by {
                    assert(rows_of(self.rows@)[j] == rows_of(r0)[j]);
                }
            }
            i = i + 1;
        }
        assert(self.view_rows() =~= old(self).view_rows().map_values(|r: Seq<Cell>| resized_row(r, old(self).cols as int)));
        assert forall|l: int| 0 <= l < self.rows@.len() implies #[trigger] self.rows@[l].cells@.len() == self.cols as int by {
            assert(rows_of(self.rows@)[l] == resized_row(rows_of(old(self).rows@)[l], self.cols as int));
        }
    }
}

/// Visible rows and scrollback after `k` steps that each bring the most recent
/// scrollback row back to the top and drop the bottom row.
pub open spec fn history_pulled(rows: Seq<Seq<Cell>>, sb: Seq<Seq<Cell>>, k: int) -> (Seq<Seq<Cell>>, Seq<Seq<Cell>>)
    decreases k,
{
    if k <= 0 {
        (rows, sb)
    } else {
        let prev = history_pulled(rows, sb, k - 1);
        if prev.1.len() == 0 {
            prev
        } else {
            (seq![prev.1.last()] + prev.0.drop_last(), prev.1.drop_last())
        }
    }
}

/// Scrollback index (from the oldest) of the row `offset` places back from the
/// most recent one, the oldest for offsets past it.
pub open spec fn history_index(len: int, offset: int) -> int {
    if offset >= len { 0 } else { len - offset - 1 }
}

/// Position (`c`, `l`) is inside the region cleared by `clear_region`.
pub open spec fn in_region(c: int, l: int, start: (u16, u16), end: (u16, u16), cols: int) -> bool {
    let lo = if l == start.1 { start.0 as int } else { 0 };
    let hi = if l == end.1 { end.0 as int } else { cols };
    start.1 <= l <= end.1 && lo <= c < hi
}

/// Visible rows after `k` full-screen scroll steps.
pub open spec fn scrolled_rows(rows: Seq<Seq<Cell>>, k: int, cols: int) -> Seq<Seq<Cell>>
    decreases k,
{
    if k <= 0 { rows } else { scrolled_rows(rows, k - 1, cols).drop_first().push(blank_row(cols)) }
}

/// Scrollback after `k` full-screen scroll steps.
pub open spec fn scrolled_history(sb: Seq<Seq<Cell>>, rows: Seq<Seq<Cell>>, k: int, cols: int, limit: int) -> Seq<Seq<Cell>>
    decreases k,
{
    if k <= 0 { sb } else {
        pushed_history(scrolled_history(sb, rows, k - 1, cols, limit), scrolled_rows(rows, k - 1, cols)[0], limit)
    }
}

/// One region-up step: the region's top row leaves, a blank row enters at its bottom.
pub open spec fn region_step_up(rows: Seq<Seq<Cell>>, top: int, bottom: int, cols: int) -> Seq<Seq<Cell>> {
    rows.remove(top).insert(bottom, blank_row(cols))
}

/// One region-down step: the region's bottom row leaves, a blank row enters at its top.
pub open spec fn region_step_down(rows: Seq<Seq<Cell>>, top: int, bottom: int, cols: int) -> Seq<Seq<Cell>> {
    rows.remove(bottom).insert(top, blank_row(cols))
}

pub open spec fn region_scrolled_up(rows: Seq<Seq<Cell>>, top: int, bottom: int, k: int, cols: int) -> Seq<Seq<Cell>>
    decreases k,
{
    if k <= 0 { rows } else { region_step_up(region_scrolled_up(rows, top, bottom, k - 1, cols), top, bottom, cols) }
}

pub open spec fn region_scrolled_down(rows: Seq<Seq<Cell>>, top: int, bottom: int, k: int, cols: int) -> Seq<Seq<Cell>>
    decreases k,
{
    if k <= 0 { rows } else { region_step_down(region_scrolled_down(rows, top, bottom, k - 1, cols), top, bottom, cols) }
}


/// The scrollback never holds more rows than its limit: however far the
/// screen scrolls, a history within the limit stays within it (for a limit
/// of at least one row).
pub proof fn law_scrollback_within_limit(sb: Seq<Seq<Cell>>, rows: Seq<Seq<Cell>>, k: int, cols: int, limit: int)
    requires
        limit >= 1,
        sb.len() <= limit,
    ensures
        scrolled_history(sb, rows, k, cols, limit).len() <= limit,
    decreases k,
{
    if k > 0 {
        law_scrollback_within_limit(sb, rows, k - 1, cols, limit);
    }
}

} // verus!
