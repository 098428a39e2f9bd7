//! Cursor state and movement.

use vstd::prelude::*;
use super::cell::{Color, CellFlags, rgb, flag_set};

verus! {

/// Cursor shape.
#[derive(Clone, Copy, Debug, PartialEq, Eq, Structural)]
pub enum CursorShape {
    Block,
    Underline,
    Beam,
}

impl Default for CursorShape {
    fn default() -> (s: Self)
        ensures s == CursorShape::Block,
    {
        CursorShape::Block
    }
}

/// Saved cursor state for ESC 7 / ESC 8.
#[derive(Clone, Copy, Debug, PartialEq, Eq, Structural)]
pub struct SavedCursor {
    pub col: u16,
    pub line: u16,
    pub fg: Color,
    pub bg: Color,
    pub flags: CellFlags,
}

/// Terminal cursor.
#[derive(Clone, Copy, Debug, PartialEq, Eq, Structural)]
pub struct Cursor {
    pub col: u16,
    pub line: u16,
    pub fg: Color,
    pub bg: Color,
    pub flags: CellFlags,
    pub visible: bool,
    pub shape: CursorShape,
    /// Whether the cursor shape blinks (DECSCUSR odd values).
    pub blinking: bool,
}

/// The cursor of a fresh terminal: home, white on black, visible blinking block.
pub open spec fn initial_cursor() -> Cursor {
    Cursor {
        col: 0,
        line: 0,
        fg: rgb(255, 255, 255),
        bg: rgb(0, 0, 0),
        flags: flag_set(0),
        visible: true,
        shape: CursorShape::Block,
        blinking: true,
    }
}

/// `a - b`, or 0 when `b > a`.
pub open spec fn sat_sub(a: int, b: int) -> int {
    if a > b { a - b } else { 0 }
}

pub open spec fn min_int(a: int, b: int) -> int {
    if a < b { a } else { b }
}

/// Position after moving forward by `n` within `max` positions (the last one is `max - 1`).
pub open spec fn clamped_advance(pos: int, n: int, max: int) -> int {
    min_int(pos + n, sat_sub(max, 1))
}

impl Default for Cursor {
    fn default() -> (c: Self)
        ensures c == initial_cursor(),
    {
        Self::new()
    }
}

impl Cursor {
    pub fn new() -> (c: Self)
        ensures c == initial_cursor(),
    {
        Cursor {
            col: 0,
            line: 0,
            fg: Color::rgb(255, 255, 255),
            bg: Color::rgb(0, 0, 0),
            flags: CellFlags::empty(),
            visible: true,
            shape: CursorShape::Block,
            blinking: true,
        }
    }

    pub fn move_to(&mut self, col: u16, line: u16)
        ensures *final(self) == (Cursor { col: col, line: line, ..*old(self) }),
    {
        self.col = col;
        self.line = line;
    }

    pub fn move_up(&mut self, n: u16)
        ensures *final(self) == (Cursor { line: sat_sub(old(self).line as int, n as int) as u16, ..*old(self) }),
    {
        self.line = self.line.saturating_sub(n);
    }

    /// Move down `n` lines, stopping at line `max - 1`.
    pub fn move_down(&mut self, n: u16, max: u16)
        requires
            old(self).line + n <= u16::MAX,
        ensures
            *final(self) == (Cursor { line: clamped_advance(old(self).line as int, n as int, max as int) as u16, ..*old(self) }),
    {
        let target: u16 = self.line + n;
        let last: u16 = max.saturating_sub(1);
        self.line = if target < last { target } else { last };
    }

    pub fn move_left(&mut self, n: u16)
        ensures *final(self) == (Cursor { col: sat_sub(old(self).col as int, n as int) as u16, ..*old(self) }),
    {
        self.col = self.col.saturating_sub(n);
    }

    /// Move right `n` columns, stopping at column `max - 1`.
    pub fn move_right(&mut self, n: u16, max: u16)
        requires
            old(self).col + n <= u16::MAX,
        ensures
            *final(self) == (Cursor { col: clamped_advance(old(self).col as int, n as int, max as int) as u16, ..*old(self) }),
    {
        let target: u16 = self.col + n;
        let last: u16 = max.saturating_sub(1);
        self.col = if target < last { target } else { last };
    }

    pub fn carriage_return(&mut self)
        ensures *final(self) == (Cursor { col: 0, ..*old(self) }),
    {
        self.col = 0;
    }

    pub fn save(&self) -> (s: SavedCursor)
        ensures s == saved_of(*self),
    {
        SavedCursor { col: self.col, line: self.line, fg: self.fg, bg: self.bg, flags: self.flags }
    }

    pub fn restore(&mut self, saved: &SavedCursor)
        ensures *final(self) == restored(*old(self), *saved),
    {
        self.col = saved.col;
        self.line = saved.line;
        self.fg = saved.fg;
        self.bg = saved.bg;
        self.flags = saved.flags;
    }

    /// Apply a DECSCUSR shape code: 0 and 1 blinking block, 2 steady block,
    /// 3 blinking underline, 4 steady underline, 5 blinking bar, 6 steady bar;
    /// other codes change nothing.
    pub fn set_shape_decscusr(&mut self, code: u16)
        ensures
            *final(self) == decscusr_applied(*old(self), code),
    {
        if code <= 1 {
            self.shape = CursorShape::Block;
            self.blinking = true;
        } else if code == 2 {
            self.shape = CursorShape::Block;
            self.blinking = false;
        } else if code == 3 {
            self.shape = CursorShape::Underline;
            self.blinking = true;
        } else if code == 4 {
            self.shape = CursorShape::Underline;
            self.blinking = false;
        } else if code == 5 {
            self.shape = CursorShape::Beam;
            self.blinking = true;
        } else if code == 6 {
            self.shape = CursorShape::Beam;
            self.blinking = false;
        }
    }
}

pub open spec fn decscusr_applied(c: Cursor, code: u16) -> Cursor {
    if code <= 1 { Cursor { shape: CursorShape::Block, blinking: true, ..c } }
    else if code == 2 { Cursor { shape: CursorShape::Block, blinking: false, ..c } }
    else if code == 3 { Cursor { shape: CursorShape::Underline, blinking: true, ..c } }
    else if code == 4 { Cursor { shape: CursorShape::Underline, blinking: false, ..c } }
    else if code == 5 { Cursor { shape: CursorShape::Beam, blinking: true, ..c } }
    else if code == 6 { Cursor { shape: CursorShape::Beam, blinking: false, ..c } }
    else { c }
}

pub open spec fn saved_of(c: Cursor) -> SavedCursor {
    SavedCursor { col: c.col, line: c.line, fg: c.fg, bg: c.bg, flags: c.flags }
}

pub open spec fn restored(c: Cursor, s: SavedCursor) -> Cursor {
    Cursor { col: s.col, line: s.line, fg: s.fg, bg: s.bg, flags: s.flags, ..c }
}

/// Restoring what was saved gives back the position and attributes that were
/// saved, whatever happened in between (visibility and shape stay as they are).
pub proof fn lemma_save_restore(saved_from: Cursor, now: Cursor)
    ensures
        restored(now, saved_of(saved_from)).col == saved_from.col,
        restored(now, saved_of(saved_from)).line == saved_from.line,
        restored(now, saved_of(saved_from)).fg == saved_from.fg,
        restored(now, saved_of(saved_from)).bg == saved_from.bg,
        restored(now, saved_of(saved_from)).flags == saved_from.flags,
        restored(now, saved_of(saved_from)).visible == now.visible,
        restored(now, saved_of(saved_from)).shape == now.shape,
{
}

/// Moving down never leaves the cursor past line `max - 1` (for `max > 0`),
/// and moving up never passes line 0.
pub proof fn lemma_move_bounds(line: u16, n: u16, max: u16)
    requires
        max > 0,
    ensures
        clamped_advance(line as int, n as int, max as int) < max,
        clamped_advance(line as int, n as int, max as int) >= 0,
        sat_sub(line as int, n as int) <= line,
        sat_sub(line as int, n as int) >= 0,
{
}

} // verus!
