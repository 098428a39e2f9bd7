//! Text selection for copy and paste.

use vstd::prelude::*;
use super::grid::Grid;
use super::cell::Cell;
use crate::text::string_from_chars;

verus! {

/// Selection anchor point.
#[derive(Debug, Clone, Copy, PartialEq, Eq, Structural)]
pub struct Point {
    pub col: u16,
    pub line: u16,
}

/// `a` comes before `b` in reading order.
pub open spec fn before(a: Point, b: Point) -> bool {
    a.line < b.line || (a.line == b.line && a.col < b.col)
}

impl Point {
    pub fn new(col: u16, line: u16) -> (p: Self)
        ensures p == (Point { col, line }),
    {
        Point { col, line }
    }

    /// This point comes before `other` in reading order.
    pub fn is_before(&self, other: &Point) -> (b: bool)
        ensures b == before(*self, *other),
    {
        self.line < other.line || (self.line == other.line && self.col < other.col)
    }
}

/// Selection type.
#[derive(Debug, Clone, Copy, PartialEq, Eq, Structural)]
pub enum SelectionType {
    /// Character by character.
    Normal,
    /// Rectangular block.
    Block,
    /// Whole lines.
    Line,
    /// Word (double-click); selects like `Normal`.
    Word,
}

/// Text selection state.
#[derive(Debug, Clone, Copy, PartialEq, Eq, Structural)]
pub struct Selection {
    pub selection_type: SelectionType,
    /// Where the selection started.
    pub anchor: Point,
    /// Where the selection ends now.
    pub current: Point,
    pub active: bool,
}

/// The selection's ends in reading order.
pub open spec fn ordered(s: Selection) -> (Point, Point) {
    if before(s.anchor, s.current) { (s.anchor, s.current) } else { (s.current, s.anchor) }
}

/// The columns a block selection spans.
pub open spec fn block_cols(s: Selection) -> (u16, u16) {
    if s.anchor.col < s.current.col { (s.anchor.col, s.current.col) } else { (s.current.col, s.anchor.col) }
}

/// Cell (`col`, `line`) lies in the selection.
pub open spec fn selects(s: Selection, col: u16, line: u16) -> bool {
    let (start, end) = ordered(s);
    match s.selection_type {
        SelectionType::Block => {
            let (lo, hi) = block_cols(s);
            start.line <= line <= end.line && lo <= col <= hi
        },
        SelectionType::Line => start.line <= line <= end.line,
        _ => {
            &&& start.line <= line <= end.line
            &&& (line == start.line ==> col >= start.col)
            &&& (line == end.line ==> col <= end.col)
        },
    }
}

/// `s` without its trailing spaces.
pub open spec fn trim_end_spaces(s: Seq<char>) -> Seq<char>
    decreases s.len(),
{
    if s.len() > 0 && s.last() == ' ' { trim_end_spaces(s.drop_last()) } else { s }
}

/// The characters of `row` from column `from` through `to` (within the
/// row), NUL characters left out.
pub open spec fn row_text(row: Seq<Cell>, from: int, to: int) -> Seq<char>
    decreases to - from + 1,
{
    if to < from || from >= row.len() {
        seq![]
    } else if to >= row.len() {
        row_text(row, from, row.len() - 1)
    } else {
        let prev = row_text(row, from, to - 1);
        if row[to].c == '\0' { prev } else { prev.push(row[to].c) }
    }
}

/// The column range a selection takes from a line, and whether the text
/// is trimmed after the line.
pub open spec fn line_span(s: Selection, line: int, cols: int) -> (int, int) {
    let (start, end) = ordered(s);
    let last = if cols > 0 { cols - 1 } else { 0 };
    match s.selection_type {
        SelectionType::Block => {
            let (lo, hi) = block_cols(s);
            (lo as int, if hi < last { hi as int } else { last })
        },
        SelectionType::Line => (0, cols - 1),
        _ => {
            let from = if line == start.line { start.col as int } else { 0 };
            let to = if line == end.line { end.col as int } else { last };
            (from, if to < last { to } else { last })
        },
    }
}

/// The text after the selection's first `k` lines.
pub open spec fn selected_lines(s: Selection, rows: Seq<Seq<Cell>>, cols: int, k: int) -> Seq<char>
    decreases k,
{
    if k <= 0 {
        seq![]
    } else {
        let (start, end) = ordered(s);
        let line = start.line + k - 1;
        let (from, to) = line_span(s, line, cols);
        let acc = selected_lines(s, rows, cols, k - 1) + row_text(rows[line], from, to);
        let trimmed = match s.selection_type {
            SelectionType::Block => acc,
            SelectionType::Line => trim_end_spaces(acc),
            _ => if line < end.line { trim_end_spaces(acc) } else { acc },
        };
        if line < end.line { trimmed.push('\n') } else { trimmed }
    }
}

/// The selected text of a grid with `lines` rows: the selected lines that
/// exist, each line's selected characters, lines joined by newlines, and
/// no trailing spaces (line selections and character selections trim each
/// line before its newline).
pub open spec fn selection_text(s: Selection, rows: Seq<Seq<Cell>>, cols: int, lines: int) -> Seq<char> {
    if !s.active {
        seq![]
    } else {
        let (start, end) = ordered(s);
        let last = if end.line < lines { end.line as int } else { lines - 1 };
        trim_end_spaces(selected_lines(s, rows, cols, last - start.line + 1))
    }
}

fn trim_spaces(v: &mut Vec<char>)
    ensures final(v)@ == trim_end_spaces(old(v)@),
{
    while v.len() > 0 && v[v.len() - 1] == ' '
        invariant
            trim_end_spaces(v@) == trim_end_spaces(old(v)@),
        decreases v.len(),
    {
        let ghost before = v@;
        v.pop();
        assert(v@ =~= before.drop_last());
    }
}

fn push_row_text(out: &mut Vec<char>, row: &[Cell], from: u32, to: u32)
    ensures final(out)@ == old(out)@ + row_text(row@, from as int, to as int),
{
    let end: u32 = if (to as usize) < row.len() { to } else if row.len() > 0 { (row.len() - 1) as u32 } else { 0 };
    if row.len() == 0 || (from as usize) >= row.len() || to < from {
        proof { lemma_row_text_empty(row@, from as int, to as int); }
        return;
    }
    proof { lemma_row_text_clip(row@, from as int, to as int); }
    let ghost start = out@;
    let mut c: u64 = from as u64;
    while c <= end as u64
        invariant
            from <= c <= end + 1,
            (end as int) < row@.len(),
            from <= end,
            out@ == start + row_text(row@, from as int, c - 1),
        decreases end + 1 - c,
    {
        let ch = row[c as usize].c;
        if ch != '\0' {
            out.push(ch);
        }
        assert(out@ =~= start + row_text(row@, from as int, c as int));
        c = c + 1;
    }
    proof {
        if (to as int) >= row@.len() {
            assert(end as int == row@.len() - 1);
        }
    }
}

proof fn lemma_row_text_empty(row: Seq<Cell>, from: int, to: int)
    requires from >= 0, row.len() == 0 || from >= row.len() || to < from,
    ensures row_text(row, from, to) == Seq::<char>::empty(),
    decreases to - from + 1,
{
}

proof fn lemma_row_text_clip(row: Seq<Cell>, from: int, to: int)
    requires 0 <= from < row.len(),
    ensures to >= row.len() ==> row_text(row, from, to) == row_text(row, from, row.len() - 1),
{
}

impl Selection {
    /// A new active selection at (`col`, `line`).
    pub fn new(col: u16, line: u16, selection_type: SelectionType) -> (s: Self)
        ensures s == (Selection { selection_type, anchor: Point { col, line }, current: Point { col, line }, active: true }),
    {
        let point = Point::new(col, line);
        Selection { selection_type, anchor: point, current: point, active: true }
    }

    pub fn normal(col: u16, line: u16) -> (s: Self)
        ensures s == (Selection { selection_type: SelectionType::Normal, anchor: Point { col, line }, current: Point { col, line }, active: true }),
    {
        Self::new(col, line, SelectionType::Normal)
    }

    pub fn block(col: u16, line: u16) -> (s: Self)
        ensures s == (Selection { selection_type: SelectionType::Block, anchor: Point { col, line }, current: Point { col, line }, active: true }),
    {
        Self::new(col, line, SelectionType::Block)
    }

    /// A line selection starting at `line`.
    pub fn line(line: u16) -> (s: Self)
        ensures s == (Selection { selection_type: SelectionType::Line, anchor: Point { col: 0, line }, current: Point { col: 0, line }, active: true }),
    {
        Self::new(0, line, SelectionType::Line)
    }

    /// Move the selection's end.
    pub fn update(&mut self, col: u16, line: u16)
        ensures *final(self) == (Selection { current: Point { col, line }, ..*old(self) }),
    {
        self.current = Point::new(col, line);
    }

    /// The ends in reading order.
    pub fn bounds(&self) -> (b: (Point, Point))
        ensures
            b == ordered(*self),
            !before(b.1, b.0),
            (b.0 == self.anchor && b.1 == self.current) || (b.0 == self.current && b.1 == self.anchor),
    {
        if self.anchor.is_before(&self.current) {
            (self.anchor, self.current)
        } else {
            (self.current, self.anchor)
        }
    }

    /// Cell (`col`, `line`) lies in the selection.
    pub fn contains(&self, col: u16, line: u16) -> (b: bool)
        ensures b == selects(*self, col, line),
    {
        let (start, end) = self.bounds();
        match self.selection_type {
            SelectionType::Normal | SelectionType::Word => {
                if line < start.line || line > end.line {
                    return false;
                }
                if line == start.line && line == end.line {
                    col >= start.col && col <= end.col
                } else if line == start.line {
                    col >= start.col
                } else if line == end.line {
                    col <= end.col
                } else {
                    true
                }
            }
            SelectionType::Block => {
                let (min_col, max_col) = if self.anchor.col < self.current.col {
                    (self.anchor.col, self.current.col)
                } else {
                    (self.current.col, self.anchor.col)
                };
                line >= start.line && line <= end.line && col >= min_col && col <= max_col
            }
            SelectionType::Line => {
                line >= start.line && line <= end.line
            }
        }
    }

    pub fn is_active(&self) -> (b: bool)
        ensures b == self.active,
    {
        self.active
    }

    /// Deactivate the selection.
    pub fn clear(&mut self)
        ensures *final(self) == (Selection { active: false, ..*old(self) }),
    {
        self.active = false;
    }

    /// The selected text of a grid (empty when inactive).
    pub fn extract_text(&self, grid: &Grid) -> (text: String)
        requires
            grid.wf(),
        ensures
            text@ == selection_text(*self, grid.view_rows(), grid.cols as int, grid.lines as int),
    {
        if !self.active {
            return String::new();
        }
        let (start, end) = self.bounds();
        let lines = grid.lines() as u32;
        let cols = grid.cols() as u32;
        let last: u32 = if cols > 0 { cols - 1 } else { 0 };
        let stop: u32 = if (end.line as u32) < lines { end.line as u32 } else if lines > 0 { lines - 1 } else { 0 };
        let mut result: Vec<char> = Vec::new();
        let mut line: u32 = start.line as u32;
        if lines == 0 || (start.line as u32) > stop {
            proof {
                let l = if end.line < lines { end.line as int } else { lines - 1 };
                assert(l - start.line + 1 <= 0);
            }
            return String::new();
        }
        while line <= stop
            invariant
                start.line <= line <= stop + 1,
                stop < lines,
                stop <= end.line,
                lines == grid.lines,
                cols == grid.cols,
                grid.wf(),
                (start, end) == ordered(*self),
                last as int == (if cols > 0 { cols - 1 } else { 0 }),
                result@ == selected_lines(*self, grid.view_rows(), cols as int, line - start.line),
            decreases stop + 1 - line,
        {
            let row = grid.row(line as u16);
            let (from, to): (u32, u32) = match self.selection_type {
                SelectionType::Block => {
                    let (lo, hi) = if self.anchor.col < self.current.col {
                        (self.anchor.col, self.current.col)
                    } else {
                        (self.current.col, self.anchor.col)
                    };
                    (lo as u32, if (hi as u32) < last { hi as u32 } else { last })
                }
                SelectionType::Line => (0, if cols > 0 { cols - 1 } else { 0 }),
                _ => {
                    let from: u32 = if line == start.line as u32 { start.col as u32 } else { 0 };
                    let to: u32 = if line == end.line as u32 { end.col as u32 } else { last };
                    (from, if to < last { to } else { last })
                }
            };
            let ghost k = line - start.line + 1;
            proof {
                let (f, t) = line_span(*self, line as int, cols as int);
                if self.selection_type == SelectionType::Line && cols == 0 {
                    assert(row_text(grid.view_rows()[line as int], f, t) == row_text(grid.view_rows()[line as int], 0, 0)) by {
                        lemma_row_text_empty(grid.view_rows()[line as int], f, t);
                        lemma_row_text_empty(grid.view_rows()[line as int], 0, 0);
                    }
                } else {
                    assert(f == from as int && t == to as int);
                }
            }
            push_row_text(&mut result, row.cells.as_slice(), from, to);
            match self.selection_type {
                SelectionType::Block => {}
                SelectionType::Line => trim_spaces(&mut result),
                _ => {
                    if line < end.line as u32 {
                        trim_spaces(&mut result);
                    }
                }
            }
            if line < end.line as u32 {
                result.push('\n');
            }
            line = line + 1;
        }
        trim_spaces(&mut result);
        string_from_chars(result.as_slice())
    }
}

/// Selection manager: at most one selection.
#[derive(Debug, Clone, Copy)]
pub struct SelectionManager {
    pub selection: Option<Selection>,
}

/// The manager's selection while it is active.
pub open spec fn active_selection(m: SelectionManager) -> Option<Selection> {
    match m.selection {
        Some(s) => if s.active { Some(s) } else { None },
        None => None,
    }
}

impl SelectionManager {
    pub fn new() -> (m: Self)
        ensures m.selection.is_none(),
    {
        SelectionManager { selection: None }
    }

    /// Start a new selection.
    pub fn start(&mut self, col: u16, line: u16, selection_type: SelectionType)
        ensures final(self).selection == Some(Selection { selection_type, anchor: Point { col, line }, current: Point { col, line }, active: true }),
    {
        self.selection = Some(Selection::new(col, line, selection_type));
    }

    /// Start a normal selection.
    pub fn start_normal(&mut self, col: u16, line: u16)
        ensures final(self).selection == Some(Selection { selection_type: SelectionType::Normal, anchor: Point { col, line }, current: Point { col, line }, active: true }),
    {
        self.start(col, line, SelectionType::Normal);
    }

    /// Move the end of the current selection, if any.
    pub fn update(&mut self, col: u16, line: u16)
        ensures
            final(self).selection == (match old(self).selection {
                Some(s) => Some(Selection { current: Point { col, line }, ..s }),
                None => None,
            }),
    {
        if let Some(sel) = &mut self.selection {
            sel.update(col, line);
        }
    }

    pub fn clear(&mut self)
        ensures final(self).selection.is_none(),
    {
        self.selection = None;
    }

    /// The current selection, while active.
    pub fn get(&self) -> (s: Option<&Selection>)
        ensures
            s.is_some() == active_selection(*self).is_some(),
            s.is_some() ==> *s.unwrap() == active_selection(*self).unwrap(),
    {
        match &self.selection {
            Some(s) => if s.is_active() { Some(s) } else { None },
            None => None,
        }
    }

    /// Cell (`col`, `line`) is in the active selection.
    pub fn is_selected(&self, col: u16, line: u16) -> (b: bool)
        ensures b == (active_selection(*self).is_some() && selects(active_selection(*self).unwrap(), col, line)),
    {
        match self.get() {
            Some(s) => s.contains(col, line),
            None => false,
        }
    }

    /// The text of the active selection.
    pub fn extract_text(&self, grid: &Grid) -> (t: Option<String>)
        requires
            grid.wf(),
        ensures
            t.is_some() == active_selection(*self).is_some(),
            t.is_some() ==> t.unwrap()@ == selection_text(active_selection(*self).unwrap(), grid.view_rows(), grid.cols as int, grid.lines as int),
    {
        match self.get() {
            Some(s) => Some(s.extract_text(grid)),
            None => None,
        }
    }

    /// There is an active selection.
    pub fn has_selection(&self) -> (b: bool)
        ensures b == active_selection(*self).is_some(),
    {
        self.get().is_some()
    }
}

impl Default for SelectionManager {
    fn default() -> (m: Self)
        ensures m.selection.is_none(),
    {
        Self::new()
    }
}

/// The ends `bounds` gives are in reading order and are the selection's
/// two points.
pub proof fn lemma_bounds_ordered(s: Selection)
    ensures
        !before(ordered(s).1, ordered(s).0),
        (ordered(s).0 == s.anchor && ordered(s).1 == s.current) || (ordered(s).0 == s.current && ordered(s).1 == s.anchor),
        selects(s, ordered(s).0.col, ordered(s).0.line) || s.selection_type == SelectionType::Block,
{
}

} // verus!
