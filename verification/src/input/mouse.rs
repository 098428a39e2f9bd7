//! Mouse handling: button state, drag detection, the reports a program in a
//! mouse-tracking mode receives, and click selection.

use vstd::prelude::*;
use crate::term::terminal::MouseMode;
use crate::term::selection::{SelectionManager, SelectionType, Selection, Point};
use crate::term::grid::Grid;
use crate::text::{alphanumeric, is_alphanumeric, u64_to_decimal_bytes, decimal_bytes};

verus! {

/// Mouse buttons.
#[derive(Debug, Clone, Copy, PartialEq, Eq, Structural)]
pub enum MouseButton {
    Left,
    Middle,
    Right,
    WheelUp,
    WheelDown,
}

pub open spec fn button_code(b: MouseButton) -> u8 {
    match b {
        MouseButton::Left => 0,
        MouseButton::Middle => 1,
        MouseButton::Right => 2,
        MouseButton::WheelUp => 64,
        MouseButton::WheelDown => 65,
    }
}

impl MouseButton {
    /// The button's code in mouse reports.
    pub fn code(&self) -> (c: u8)
        ensures
            c == button_code(*self),
    {
        match self {
            MouseButton::Left => 0,
            MouseButton::Middle => 1,
            MouseButton::Right => 2,
            MouseButton::WheelUp => 64,
            MouseButton::WheelDown => 65,
        }
    }
}

/// Mouse event kinds.
#[derive(Debug, Clone, Copy, PartialEq, Eq, Structural)]
pub enum MouseEvent {
    Press(MouseButton),
    Release(MouseButton),
    Move,
    Drag(MouseButton),
}

impl MouseEvent {
    /// What the event adds to the button code: 32 for motion.
    pub fn code_modifier(&self) -> (m: u8)
        ensures
            m == match *self {
                MouseEvent::Move | MouseEvent::Drag(_) => 32u8,
                _ => 0u8,
            },
    {
        match self {
            MouseEvent::Press(_) => 0,
            MouseEvent::Release(_) => 0,
            MouseEvent::Move => 32,
            MouseEvent::Drag(_) => 32,
        }
    }
}

/// A position clamped for the one-byte legacy encoding, then made printable.
pub open spec fn legacy_coord(v: u16) -> u8 {
    (32 + (if v < 222 { v as int } else { 222 }) + 1) as u8
}

/// A legacy report: `ESC [ M`, then the button code, column and row, each
/// plus 32 (positions counted from 1).
pub open spec fn legacy_report(code: u8, col: u16, row: u16) -> Seq<u8> {
    seq![0x1bu8, 0x5bu8, 0x4du8, (32 + code) as u8, legacy_coord(col), legacy_coord(row)]
}

/// An SGR report: `ESC [ <` code `;` column `;` row, then `M` for a press or
/// motion and `m` for a release (positions counted from 1).
pub open spec fn sgr_report(code: u8, col: u16, row: u16, release: bool) -> Seq<u8> {
    seq![0x1bu8, 0x5bu8, 0x3cu8] + decimal_bytes(code as nat) + seq![0x3bu8]
        + decimal_bytes((col + 1) as nat) + seq![0x3bu8] + decimal_bytes((row + 1) as nat)
        + seq![if release { 0x6du8 } else { 0x4du8 }]
}

/// The report a program in the given tracking mode receives for an event at
/// (`col`, `row`), if any.
pub open spec fn mouse_report(event: MouseEvent, mode: MouseMode, col: u16, row: u16) -> Option<Seq<u8>> {
    match mode {
        MouseMode::Off => None,
        MouseMode::X10 => match event {
            MouseEvent::Press(b) => Some(legacy_report(button_code(b), col, row)),
            _ => None,
        },
        MouseMode::Normal => match event {
            MouseEvent::Press(b) => Some(legacy_report(button_code(b), col, row)),
            MouseEvent::Release(_) => Some(legacy_report(3, col, row)),
            _ => None,
        },
        MouseMode::ButtonMotion => match event {
            MouseEvent::Press(b) => Some(legacy_report(button_code(b), col, row)),
            MouseEvent::Release(_) => Some(legacy_report(3, col, row)),
            MouseEvent::Drag(b) => Some(legacy_report((button_code(b) + 32) as u8, col, row)),
            MouseEvent::Move => None,
        },
        MouseMode::AnyMotion => match event {
            MouseEvent::Press(b) => Some(legacy_report(button_code(b), col, row)),
            MouseEvent::Release(_) => Some(legacy_report(3, col, row)),
            MouseEvent::Drag(b) => Some(legacy_report((button_code(b) + 32) as u8, col, row)),
            MouseEvent::Move => Some(legacy_report(35, col, row)),
        },
        MouseMode::Sgr => match event {
            MouseEvent::Press(b) => Some(sgr_report(button_code(b), col, row, false)),
            MouseEvent::Release(b) => Some(sgr_report(button_code(b), col, row, true)),
            MouseEvent::Drag(b) => Some(sgr_report((button_code(b) + 32) as u8, col, row, false)),
            MouseEvent::Move => Some(sgr_report(35, col, row, false)),
        },
    }
}

/// A character that belongs to a word: alphanumeric or `_`.
pub open spec fn word_char(c: char) -> bool {
    alphanumeric(c) || c == '_'
}

fn is_word_char(c: char) -> (b: bool)
    ensures
        b == word_char(c),
{
    is_alphanumeric(c) || c == '_'
}

/// The word a double click at (`col`, `row`) selects, as its first and last
/// columns: the run of cells around `col` whose characters are all word
/// characters, or all not, as the clicked one is. A clicked punctuation
/// character (neither a word character nor a space) is its own word.
pub open spec fn word_bounds(g: &Grid, col: int, row: int, bounds: (u16, u16)) -> bool {
    let cur = g.cell_at(col, row).c;
    if !word_char(cur) && cur != ' ' {
        bounds.0 == col && bounds.1 == col
    } else {
        &&& bounds.0 <= col <= bounds.1 < g.cols
        &&& forall|k: int| bounds.0 <= k <= bounds.1 ==> word_char(#[trigger] g.cell_at(k, row).c) == word_char(cur)
        &&& bounds.0 > 0 ==> word_char(g.cell_at(bounds.0 - 1, row).c) != word_char(cur)
        &&& bounds.1 < g.cols - 1 ==> word_char(g.cell_at(bounds.1 + 1, row).c) != word_char(cur)
    }
}

/// Mouse handler state.
#[derive(Debug, Clone, Copy)]
pub struct MouseHandler {
    /// Current mouse position in cells.
    pub cell_pos: (u16, u16),
    /// Previous position, for drag detection.
    pub prev_cell_pos: (u16, u16),
    /// The button held down, if any.
    pub pressed_button: Option<MouseButton>,
    /// Whether the mouse moved to another cell with a button down.
    pub dragging: bool,
    /// Clicks in a row: 1 single, 2 double, 3 triple.
    pub click_count: u8,
}

impl MouseHandler {
    pub fn new() -> (h: MouseHandler)
        ensures
            h.cell_pos == (0u16, 0u16),
            h.prev_cell_pos == (0u16, 0u16),
            h.pressed_button.is_none(),
            !h.dragging,
            h.click_count == 1,
    {
        MouseHandler { cell_pos: (0, 0), prev_cell_pos: (0, 0), pressed_button: None, dragging: false, click_count: 1 }
    }

    /// Move the mouse to a cell; the position it leaves is remembered.
    pub fn update_cell(&mut self, col: u16, row: u16)
        ensures
            *final(self) == (MouseHandler { cell_pos: (col, row), prev_cell_pos: old(self).cell_pos, ..*old(self) }),
    {
        self.prev_cell_pos = self.cell_pos;
        self.cell_pos = (col, row);
    }

    /// Current position in cells.
    pub fn cell_position(&self) -> (p: (u16, u16))
        ensures
            p == self.cell_pos,
    {
        self.cell_pos
    }

    /// A button went down.
    pub fn press(&mut self, button: MouseButton, click_count: u8)
        ensures
            *final(self) == (MouseHandler { pressed_button: Some(button), click_count, dragging: false, ..*old(self) }),
    {
        self.pressed_button = Some(button);
        self.click_count = click_count;
        self.dragging = false;
    }

    /// A button went up.
    pub fn release(&mut self, button: MouseButton)
        ensures
            *final(self) == (MouseHandler { pressed_button: None, dragging: false, ..*old(self) }),
    {
        self.pressed_button = None;
        self.dragging = false;
    }

    /// The mouse moved: with a button down and a new cell, it drags.
    pub fn motion(&mut self)
        ensures
            *final(self) == (MouseHandler {
                dragging: old(self).dragging
                    || (old(self).pressed_button.is_some() && old(self).cell_pos != old(self).prev_cell_pos),
                ..*old(self)
            }),
    {
        if self.pressed_button.is_some() && (self.cell_pos.0 != self.prev_cell_pos.0 || self.cell_pos.1 != self.prev_cell_pos.1) {
            self.dragging = true;
        }
    }

    pub fn is_dragging(&self) -> (b: bool)
        ensures
            b == self.dragging,
    {
        self.dragging
    }

    pub fn pressed_button(&self) -> (b: Option<MouseButton>)
        ensures
            b == self.pressed_button,
    {
        self.pressed_button
    }

    pub fn click_count(&self) -> (n: u8)
        ensures
            n == self.click_count,
    {
        self.click_count
    }

    /// The report for an event in a tracking mode; `None` where the mode
    /// does not report that event.
    pub fn encode_event(&self, event: MouseEvent, mode: MouseMode, col: u16, row: u16) -> (r: Option<Vec<u8>>)
        requires
            mode == MouseMode::Sgr ==> col < u16::MAX && row < u16::MAX,
        ensures
            match r {
                Some(v) => mouse_report(event, mode, col, row) == Some(v@),
                None => mouse_report(event, mode, col, row).is_none(),
            },
    {
        match mode {
            MouseMode::Off => None,
            MouseMode::X10 => match event {
                MouseEvent::Press(b) => Some(encode_legacy(b.code(), col, row)),
                _ => None,
            },
            MouseMode::Normal => match event {
                MouseEvent::Press(b) => Some(encode_legacy(b.code(), col, row)),
                MouseEvent::Release(_) => Some(encode_legacy(3, col, row)),
                _ => None,
            },
            MouseMode::ButtonMotion => match event {
                MouseEvent::Press(b) => Some(encode_legacy(b.code(), col, row)),
                MouseEvent::Release(_) => Some(encode_legacy(3, col, row)),
                MouseEvent::Drag(b) => Some(encode_legacy(b.code() + 32, col, row)),
                MouseEvent::Move => None,
            },
            MouseMode::AnyMotion => match event {
                MouseEvent::Press(b) => Some(encode_legacy(b.code(), col, row)),
                MouseEvent::Release(_) => Some(encode_legacy(3, col, row)),
                MouseEvent::Drag(b) => Some(encode_legacy(b.code() + 32, col, row)),
                MouseEvent::Move => Some(encode_legacy(35, col, row)),
            },
            MouseMode::Sgr => match event {
                MouseEvent::Press(b) => Some(encode_sgr(b.code(), col, row, false)),
                MouseEvent::Release(b) => Some(encode_sgr(b.code(), col, row, true)),
                MouseEvent::Drag(b) => Some(encode_sgr(b.code() + 32, col, row, false)),
                MouseEvent::Move => Some(encode_sgr(35, col, row, false)),
            },
        }
    }

    /// Start a selection for a click: a point for a single click, the word
    /// under the mouse for a double click, the whole line for a triple click.
    pub fn handle_selection(&self, selection: &mut SelectionManager, grid: &Grid, col: u16, row: u16)
        requires
            grid.wf(),
            self.click_count == 2 ==> col < grid.cols && row < grid.lines,
        ensures
            self.click_count == 1 ==> final(selection).selection == Some(Selection {
                selection_type: SelectionType::Normal, anchor: Point { col, line: row },
                current: Point { col, line: row }, active: true }),
            self.click_count == 2 ==> exists|b: (u16, u16)| word_bounds(grid, col as int, row as int, b)
                && final(selection).selection == Some(Selection {
                    selection_type: SelectionType::Word, anchor: Point { col: b.0, line: row },
                    current: Point { col: b.1, line: row }, active: true }),
            self.click_count == 3 ==> final(selection).selection == Some(Selection {
                selection_type: SelectionType::Line, anchor: Point { col: 0, line: row },
                current: Point { col: if grid.cols > 0 { (grid.cols - 1) as u16 } else { 0u16 }, line: row },
                active: true }),
            self.click_count == 0 || self.click_count > 3 ==> *final(selection) == *old(selection),
    {
        if self.click_count == 1 {
            selection.start(col, row, SelectionType::Normal);
        } else if self.click_count == 2 {
            let b = self.find_word_bounds(grid, col, row);
            selection.start(b.0, row, SelectionType::Word);
            selection.update(b.1, row);
        } else if self.click_count == 3 {
            selection.start(0, row, SelectionType::Line);
            let last = if grid.cols() > 0 { grid.cols() - 1 } else { 0 };
            selection.update(last, row);
        }
    }

    /// The word around (`col`, `row`), as its first and last columns.
    pub fn find_word_bounds(&self, grid: &Grid, col: u16, row: u16) -> (b: (u16, u16))
        requires
            grid.wf(),
            col < grid.cols,
            row < grid.lines,
        ensures
            word_bounds(grid, col as int, row as int, b),
    {
        let cols = grid.cols();
        let current = grid.cell(col, row).c;
        let cur_word = is_word_char(current);
        if !cur_word && current != ' ' {
            return (col, col);
        }
        let mut start = col;
        while start > 0
            invariant
                grid.wf(),
                row < grid.lines,
                start <= col < grid.cols,
                cur_word == word_char(grid.cell_at(col as int, row as int).c),
                forall|k: int| start <= k <= col ==> word_char(#[trigger] grid.cell_at(k, row as int).c) == cur_word,
            ensures
                start <= col,
                forall|k: int| start <= k <= col ==> word_char(#[trigger] grid.cell_at(k, row as int).c) == cur_word,
                start > 0 ==> word_char(grid.cell_at(start - 1, row as int).c) != cur_word,
            decreases start,
        {
            let c = grid.cell(start - 1, row).c;
            if is_word_char(c) == cur_word {
                start -= 1;
            } else {
                break;
            }
        }
        let mut end = col;
        while end < cols - 1
            invariant
                grid.wf(),
                row < grid.lines,
                cols == grid.cols,
                col <= end < cols,
                forall|k: int| col <= k <= end ==> word_char(#[trigger] grid.cell_at(k, row as int).c) == cur_word,
            ensures
                col <= end < cols,
                forall|k: int| col <= k <= end ==> word_char(#[trigger] grid.cell_at(k, row as int).c) == cur_word,
                end < cols - 1 ==> word_char(grid.cell_at(end + 1, row as int).c) != cur_word,
            decreases cols - end,
        {
            let c = grid.cell(end + 1, row).c;
            if is_word_char(c) == cur_word {
                end += 1;
            } else {
                break;
            }
        }
        (start, end)
    }

    /// While dragging, the selection follows the mouse.
    pub fn update_selection(&self, selection: &mut SelectionManager, col: u16, row: u16)
        ensures
            self.dragging ==> final(selection).selection == (match old(selection).selection {
                Some(s) => Some(Selection { current: Point { col, line: row }, ..s }),
                None => None,
            }),
            !self.dragging ==> *final(selection) == *old(selection),
    {
        if self.dragging {
            selection.update(col, row);
        }
    }
}

impl Default for MouseHandler {
    fn default() -> (h: MouseHandler)
        ensures
            h.cell_pos == (0u16, 0u16),
            h.pressed_button.is_none(),
            !h.dragging,
            h.click_count == 1,
    {
        MouseHandler::new()
    }
}

fn encode_legacy(code: u8, col: u16, row: u16) -> (v: Vec<u8>)
    requires
        code <= 97,
    ensures
        v@ == legacy_report(code, col, row),
{
    let c: u8 = if col < 222 { col as u8 } else { 222 };
    let r: u8 = if row < 222 { row as u8 } else { 222 };
    let v = vec![0x1bu8, 0x5bu8, 0x4du8, 32 + code, 32 + c + 1, 32 + r + 1];
    proof {
        assert(v@ =~= legacy_report(code, col, row));
    }
    v
}

fn encode_sgr(code: u8, col: u16, row: u16, release: bool) -> (v: Vec<u8>)
    requires
        col < u16::MAX,
        row < u16::MAX,
    ensures
        v@ == sgr_report(code, col, row, release),
{
    let mut v: Vec<u8> = vec![0x1bu8, 0x5bu8, 0x3cu8];
    let mut a = u64_to_decimal_bytes(code as u64);
    v.append(&mut a);
    v.push(0x3b);
    let mut b = u64_to_decimal_bytes((col + 1) as u64);
    v.append(&mut b);
    v.push(0x3b);
    let mut c = u64_to_decimal_bytes((row + 1) as u64);
    v.append(&mut c);
    v.push(if release { 0x6d } else { 0x4d });
    proof {
        assert(v@ =~= sgr_report(code, col, row, release));
    }
    v
}


/// In the legacy tracking modes that report releases, a release is reported
/// with button code 3 whatever the button (the report's code byte is
/// 32 + 3), at the same position bytes a press there would have; so a
/// release report never equals a press report of any button. In SGR mode
/// the release names its button and ends in `m` where a press ends in `M`.
pub proof fn law_release_reports(b: MouseButton, pressed: MouseButton, mode: MouseMode, col: u16, row: u16)
    ensures
        (mode == MouseMode::Normal || mode == MouseMode::ButtonMotion || mode == MouseMode::AnyMotion) ==> {
            let r = mouse_report(MouseEvent::Release(b), mode, col, row).unwrap();
            let p = mouse_report(MouseEvent::Press(pressed), mode, col, row).unwrap();
            &&& mouse_report(MouseEvent::Release(b), mode, col, row).is_some()
            &&& mouse_report(MouseEvent::Press(pressed), mode, col, row).is_some()
            &&& r.len() == 6 && p.len() == 6
            &&& r[0] == 0x1b && r[1] == 0x5b && r[2] == 0x4d
            &&& r[3] == 32 + 3
            &&& r[4] == p[4] && r[5] == p[5]
            &&& r != p
        },
        (mode == MouseMode::Sgr && col < u16::MAX && row < u16::MAX) ==> {
            let r = mouse_report(MouseEvent::Release(b), mode, col, row).unwrap();
            let p = mouse_report(MouseEvent::Press(pressed), mode, col, row).unwrap();
            &&& r.last() == 0x6d
            &&& p.last() == 0x4d
            &&& r != p
        },
{
    let c = button_code(pressed);
    assert(c == 0 || c == 1 || c == 2 || c == 64 || c == 65);
    if mode == MouseMode::Normal || mode == MouseMode::ButtonMotion || mode == MouseMode::AnyMotion {
        let r = mouse_report(MouseEvent::Release(b), mode, col, row).unwrap();
        let p = mouse_report(MouseEvent::Press(pressed), mode, col, row).unwrap();
        assert(p[3] == (32 + c) as u8);
        assert(r[3] != p[3]);
    }
    if mode == MouseMode::Sgr {
        let r = mouse_report(MouseEvent::Release(b), mode, col, row).unwrap();
        let p = mouse_report(MouseEvent::Press(pressed), mode, col, row).unwrap();
        assert(r.last() != p.last());
    }
}


/// A press is reported with the button's xterm code: left 0, middle 1,
/// right 2, wheel up 64, wheel down 65 (plus 32 in the legacy byte), so
/// presses of different buttons give different reports.
pub proof fn law_press_codes(b1: MouseButton, b2: MouseButton, mode: MouseMode, col: u16, row: u16)
    requires
        mode == MouseMode::X10 || mode == MouseMode::Normal || mode == MouseMode::ButtonMotion || mode == MouseMode::AnyMotion,
    ensures
        mouse_report(MouseEvent::Press(b1), mode, col, row).unwrap()[3] == 32 + match b1 {
            MouseButton::Left => 0u8,
            MouseButton::Middle => 1,
            MouseButton::Right => 2,
            MouseButton::WheelUp => 64,
            MouseButton::WheelDown => 65,
        },
        b1 != b2 ==> mouse_report(MouseEvent::Press(b1), mode, col, row) != mouse_report(MouseEvent::Press(b2), mode, col, row),
{
    if b1 != b2 {
        assert(button_code(b1) != button_code(b2));
        let r1 = mouse_report(MouseEvent::Press(b1), mode, col, row).unwrap();
        let r2 = mouse_report(MouseEvent::Press(b2), mode, col, row).unwrap();
        assert(r1[3] != r2[3]);
    }
}

} // verus!
