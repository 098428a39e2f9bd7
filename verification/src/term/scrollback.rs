//! Scrollback view for navigating the terminal history.

use vstd::prelude::*;
use super::grid::Grid;
use super::cursor::{sat_sub, min_int};

verus! {

/// Scrollback viewport state.
#[derive(Debug, Clone, Copy, PartialEq, Eq, Structural)]
pub struct ScrollbackView {
    /// Offset from the bottom (0 = the live terminal).
    pub offset: usize,
    /// Number of visible lines.
    pub visible_lines: u16,
    /// Whether in scrollback mode (rather than live).
    pub active: bool,
}

/// Visible line range.
#[derive(Debug, Clone, Copy, PartialEq, Eq, Structural)]
pub struct VisibleRange {
    /// Starting index in the scrollback (oldest first).
    pub scrollback_start: usize,
    /// Number of lines from the scrollback.
    pub scrollback_count: usize,
    /// Starting line in the active grid.
    pub active_start: usize,
    /// Number of lines from the active grid.
    pub active_count: usize,
}

/// The lines a view shows: history lines first (the `offset` most recent
/// ones, as many as fit), then the live screen.
pub open spec fn range_of(v: ScrollbackView, scrollback_len: int, lines: int) -> VisibleRange {
    let visible = v.visible_lines as int;
    if v.offset == 0 {
        VisibleRange { scrollback_start: 0, scrollback_count: 0, active_start: 0, active_count: min_int(visible, lines) as usize }
    } else {
        let sb_visible = min_int(v.offset as int, visible);
        let active_visible = sat_sub(visible, sb_visible);
        let start = sat_sub(scrollback_len, v.offset as int);
        VisibleRange {
            scrollback_start: start as usize,
            scrollback_count: min_int(sb_visible, sat_sub(scrollback_len, start)) as usize,
            active_start: 0,
            active_count: min_int(active_visible, lines) as usize,
        }
    }
}

impl ScrollbackView {
    pub fn new(visible_lines: u16) -> (v: Self)
        ensures v == (ScrollbackView { offset: 0, visible_lines, active: false }),
    {
        ScrollbackView { offset: 0, visible_lines, active: false }
    }

    pub fn offset(&self) -> (o: usize)
        ensures o == self.offset,
    {
        self.offset
    }

    pub fn is_active(&self) -> (b: bool)
        ensures b == self.active,
    {
        self.active
    }

    /// Set the number of visible lines (on resize).
    pub fn set_visible_lines(&mut self, lines: u16)
        ensures *final(self) == (ScrollbackView { visible_lines: lines, ..*old(self) }),
    {
        self.visible_lines = lines;
    }

    pub fn visible_lines(&self) -> (n: u16)
        ensures n == self.visible_lines,
    {
        self.visible_lines
    }

    /// Enter scrollback mode.
    pub fn activate(&mut self)
        ensures *final(self) == (ScrollbackView { active: true, ..*old(self) }),
    {
        self.active = true;
    }

    /// Back to the live terminal.
    pub fn deactivate(&mut self)
        ensures *final(self) == (ScrollbackView { active: false, offset: 0, ..*old(self) }),
    {
        self.active = false;
        self.offset = 0;
    }

    /// Scroll up `n` lines, at most to the oldest history line; a view off
    /// the live screen is in scrollback mode.
    pub fn scroll_up(&mut self, n: usize, grid: &Grid)
        ensures
            final(self).offset as int == min_int(old(self).offset + n, grid.view_scrollback().len() as int),
            final(self).active == (old(self).active || final(self).offset > 0),
            final(self).visible_lines == old(self).visible_lines,
    {
        let max_offset = grid.scrollback_len();
        let target = self.offset.saturating_add(n);
        self.offset = if target < max_offset { target } else { max_offset };
        if self.offset > 0 {
            self.active = true;
        }
    }

    /// Scroll down `n` lines; reaching the live screen leaves scrollback mode.
    pub fn scroll_down(&mut self, n: usize)
        ensures
            n >= old(self).offset ==> *final(self) == (ScrollbackView { offset: 0, active: false, ..*old(self) }),
            n < old(self).offset ==> *final(self) == (ScrollbackView { offset: (old(self).offset - n) as usize, ..*old(self) }),
    {
        if n >= self.offset {
            self.offset = 0;
            self.active = false;
        } else {
            self.offset = self.offset - n;
        }
    }

    /// Scroll up one page (the visible lines less one).
    pub fn page_up(&mut self, grid: &Grid)
        ensures
            final(self).offset as int == min_int(old(self).offset + sat_sub(old(self).visible_lines as int, 1), grid.view_scrollback().len() as int),
            final(self).active == (old(self).active || final(self).offset > 0),
            final(self).visible_lines == old(self).visible_lines,
    {
        let page_size = self.visible_lines.saturating_sub(1) as usize;
        self.scroll_up(page_size, grid);
    }

    /// Scroll down one page (the visible lines less one).
    pub fn page_down(&mut self)
        ensures
            sat_sub(old(self).visible_lines as int, 1) >= old(self).offset ==>
                *final(self) == (ScrollbackView { offset: 0, active: false, ..*old(self) }),
            sat_sub(old(self).visible_lines as int, 1) < old(self).offset ==>
                *final(self) == (ScrollbackView { offset: (old(self).offset - sat_sub(old(self).visible_lines as int, 1)) as usize, ..*old(self) }),
    {
        let page_size = self.visible_lines.saturating_sub(1) as usize;
        self.scroll_down(page_size);
    }

    /// Scroll to the oldest history line.
    pub fn scroll_to_top(&mut self, grid: &Grid)
        ensures
            final(self).offset as int == grid.view_scrollback().len(),
            final(self).active == (old(self).active || final(self).offset > 0),
            final(self).visible_lines == old(self).visible_lines,
    {
        self.offset = grid.scrollback_len();
        if self.offset > 0 {
            self.active = true;
        }
    }

    /// Back to the live terminal.
    pub fn scroll_to_bottom(&mut self)
        ensures *final(self) == (ScrollbackView { offset: 0, active: false, ..*old(self) }),
    {
        self.offset = 0;
        self.active = false;
    }

    /// The lines to display.
    pub fn visible_range(&self, grid: &Grid) -> (r: VisibleRange)
        ensures r == range_of(*self, grid.view_scrollback().len() as int, grid.lines as int),
    {
        let scrollback_len = grid.scrollback_len();
        let active_lines = grid.lines() as usize;
        let visible = self.visible_lines as usize;
        if self.offset == 0 {
            return VisibleRange {
                scrollback_start: 0,
                scrollback_count: 0,
                active_start: 0,
                active_count: if visible < active_lines { visible } else { active_lines },
            };
        }
        let scrollback_visible = if self.offset < visible { self.offset } else { visible };
        let active_visible = visible.saturating_sub(scrollback_visible);
        let scrollback_start = scrollback_len.saturating_sub(self.offset);
        let rest = scrollback_len.saturating_sub(scrollback_start);
        VisibleRange {
            scrollback_start,
            scrollback_count: if scrollback_visible < rest { scrollback_visible } else { rest },
            active_start: 0,
            active_count: if active_visible < active_lines { active_visible } else { active_lines },
        }
    }

    /// Scrollbar position as a fraction `(numerator, denominator)`: 1 at the
    /// bottom, 0 at the top (`1 - offset / history length`; 1 without history).
    pub fn scrollbar_position(&self, grid: &Grid) -> (r: (i128, u128))
        ensures
            grid.view_scrollback().len() == 0 ==> r == (1i128, 1u128),
            grid.view_scrollback().len() > 0 ==> r.0 == grid.view_scrollback().len() - self.offset
                && r.1 == grid.view_scrollback().len(),
    {
        let max_offset = grid.scrollback_len();
        if max_offset == 0 {
            return (1, 1);
        }
        (max_offset as i128 - self.offset as i128, max_offset as u128)
    }

    /// Scrollbar size as a fraction `(numerator, denominator)`: the visible
    /// lines over history plus screen, at most 1.
    pub fn scrollbar_size(&self, grid: &Grid) -> (r: (u128, u128))
        ensures
            ({
                let total = grid.view_scrollback().len() + grid.lines;
                &&& total == 0 ==> r == (1u128, 1u128)
                &&& total > 0 ==> r.1 == total && r.0 == min_int(self.visible_lines as int, total)
            }),
    {
        let total: u128 = grid.scrollback_len() as u128 + grid.lines() as u128;
        if total == 0 {
            return (1, 1);
        }
        let v = self.visible_lines as u128;
        (if v < total { v } else { total }, total)
    }
}

impl VisibleRange {
    /// Total visible lines.
    pub fn total(&self) -> (n: usize)
        requires self.scrollback_count + self.active_count <= usize::MAX,
        ensures n == self.scrollback_count + self.active_count,
    {
        self.scrollback_count + self.active_count
    }
}

/// A view never goes past the oldest history line: scrolling up from an
/// offset within the history keeps the offset within it.
pub proof fn lemma_offset_within_history(offset: int, n: int, len: int)
    requires
        0 <= offset <= len,
        0 <= n,
    ensures
        min_int(offset + n, len) <= len,
        min_int(offset + n, len) >= offset,
{
}

} // verus!
