//! What keys mean to the multiplexer front end: prefix commands, copy-mode
//! navigation, scrollback paging and the mouse wheel.

use vstd::prelude::*;
use crate::render::window::{KeyCode, Modifiers};

verus! {

/// A command given after the prefix key.
#[derive(Debug, Clone, Copy, PartialEq, Eq, Structural)]
pub enum PrefixAction {
    NewWindow,
    SplitHorizontal,
    SplitVertical,
    NextWindow,
    PrevWindow,
    Detach,
    ClosePane,
    ZoomPane,
    SelectWindow(usize),
    CopyMode,
    FocusPaneUp,
    FocusPaneDown,
    FocusPaneLeft,
    FocusPaneRight,
}

/// The command a key names after the prefix: `c` new window, `"` and `%`
/// splits, `n`/`p` next and previous window, `d` detach, `x` close pane,
/// `z` zoom, a digit selects that window, `[` copy mode, arrows move focus.
pub open spec fn prefix_command(key: KeyCode) -> Option<PrefixAction> {
    match key {
        KeyCode::Character(c) => {
            if c == 'c' { Some(PrefixAction::NewWindow) }
            else if c == '"' { Some(PrefixAction::SplitHorizontal) }
            else if c == '%' { Some(PrefixAction::SplitVertical) }
            else if c == 'n' { Some(PrefixAction::NextWindow) }
            else if c == 'p' { Some(PrefixAction::PrevWindow) }
            else if c == 'd' { Some(PrefixAction::Detach) }
            else if c == 'x' { Some(PrefixAction::ClosePane) }
            else if c == 'z' { Some(PrefixAction::ZoomPane) }
            else if '0' <= c <= '9' { Some(PrefixAction::SelectWindow((c as u32 - '0' as u32) as usize)) }
            else if c == '[' { Some(PrefixAction::CopyMode) }
            else { None }
        },
        KeyCode::Up => Some(PrefixAction::FocusPaneUp),
        KeyCode::Down => Some(PrefixAction::FocusPaneDown),
        KeyCode::Left => Some(PrefixAction::FocusPaneLeft),
        KeyCode::Right => Some(PrefixAction::FocusPaneRight),
        _ => None,
    }
}

/// The command for a key pressed after the prefix.
pub fn prefix_action(key: KeyCode) -> (a: Option<PrefixAction>)
    ensures
        a == prefix_command(key),
{
    match key {
        KeyCode::Character(c) => {
            if c == 'c' { Some(PrefixAction::NewWindow) }
            else if c == '"' { Some(PrefixAction::SplitHorizontal) }
            else if c == '%' { Some(PrefixAction::SplitVertical) }
            else if c == 'n' { Some(PrefixAction::NextWindow) }
            else if c == 'p' { Some(PrefixAction::PrevWindow) }
            else if c == 'd' { Some(PrefixAction::Detach) }
            else if c == 'x' { Some(PrefixAction::ClosePane) }
            else if c == 'z' { Some(PrefixAction::ZoomPane) }
            else if '0' <= c && c <= '9' { Some(PrefixAction::SelectWindow((c as u32 - '0' as u32) as usize)) }
            else if c == '[' { Some(PrefixAction::CopyMode) }
            else { None }
        },
        KeyCode::Up => Some(PrefixAction::FocusPaneUp),
        KeyCode::Down => Some(PrefixAction::FocusPaneDown),
        KeyCode::Left => Some(PrefixAction::FocusPaneLeft),
        KeyCode::Right => Some(PrefixAction::FocusPaneRight),
        _ => None,
    }
}

/// What a copy-mode key asks for besides moving the cursor.
#[derive(Debug, Clone, Copy, PartialEq, Eq, Structural)]
pub enum CopyModeCommand {
    /// Only move.
    Move,
    /// Start a selection at the cursor (`v`).
    StartSelection,
    /// Copy the selection and leave copy mode (`y`, Enter).
    Yank,
    /// Leave copy mode (`q`, Escape).
    Exit,
}

pub open spec fn dec(v: u16, n: u16) -> u16 {
    if v >= n { (v - n) as u16 } else { 0 }
}

pub open spec fn inc_to(v: u16, n: u16, max: u16) -> u16 {
    if v + n <= max { (v + n) as u16 } else { max }
}

/// Vi-style copy-mode navigation from `cursor` (column, row) within
/// `max` (last column, last row): `h j k l` and the arrows move one cell,
/// `0` and `$` go to the line's ends, `g` and `G` to the first and last row,
/// `w` and `b` five columns right and left.
pub open spec fn copy_mode_move(cursor: (u16, u16), key: KeyCode, max: (u16, u16)) -> ((u16, u16), CopyModeCommand) {
    let (col, row) = cursor;
    match key {
        KeyCode::Character(c) => {
            if c == 'h' { ((dec(col, 1), row), CopyModeCommand::Move) }
            else if c == 'j' { ((col, inc_to(row, 1, max.1)), CopyModeCommand::Move) }
            else if c == 'k' { ((col, dec(row, 1)), CopyModeCommand::Move) }
            else if c == 'l' { ((inc_to(col, 1, max.0), row), CopyModeCommand::Move) }
            else if c == '0' { ((0u16, row), CopyModeCommand::Move) }
            else if c == '$' { ((max.0, row), CopyModeCommand::Move) }
            else if c == 'g' { ((col, 0u16), CopyModeCommand::Move) }
            else if c == 'G' { ((col, max.1), CopyModeCommand::Move) }
            else if c == 'w' { ((inc_to(col, 5, max.0), row), CopyModeCommand::Move) }
            else if c == 'b' { ((dec(col, 5), row), CopyModeCommand::Move) }
            else if c == 'v' { (cursor, CopyModeCommand::StartSelection) }
            else if c == 'y' { (cursor, CopyModeCommand::Yank) }
            else if c == 'q' { (cursor, CopyModeCommand::Exit) }
            else { (cursor, CopyModeCommand::Move) }
        },
        KeyCode::Escape => (cursor, CopyModeCommand::Exit),
        KeyCode::Enter => (cursor, CopyModeCommand::Yank),
        KeyCode::Up => ((col, dec(row, 1)), CopyModeCommand::Move),
        KeyCode::Down => ((col, inc_to(row, 1, max.1)), CopyModeCommand::Move),
        KeyCode::Left => ((dec(col, 1), row), CopyModeCommand::Move),
        KeyCode::Right => ((inc_to(col, 1, max.0), row), CopyModeCommand::Move),
        _ => (cursor, CopyModeCommand::Move),
    }
}

fn dec_exec(v: u16, n: u16) -> (r: u16)
    ensures
        r == dec(v, n),
{
    if v >= n { v - n } else { 0 }
}

fn inc_exec(v: u16, n: u16, max: u16) -> (r: u16)
    ensures
        r == inc_to(v, n, max),
{
    if v as u32 + n as u32 <= max as u32 { v + n } else { max }
}

/// The copy-mode cursor and command after a key (see `copy_mode_move`).
pub fn copy_mode_key(cursor: (u16, u16), key: KeyCode, max: (u16, u16)) -> (r: ((u16, u16), CopyModeCommand))
    ensures
        r == copy_mode_move(cursor, key, max),
{
    let (col, row) = cursor;
    match key {
        KeyCode::Character(c) => {
            if c == 'h' { ((dec_exec(col, 1), row), CopyModeCommand::Move) }
            else if c == 'j' { ((col, inc_exec(row, 1, max.1)), CopyModeCommand::Move) }
            else if c == 'k' { ((col, dec_exec(row, 1)), CopyModeCommand::Move) }
            else if c == 'l' { ((inc_exec(col, 1, max.0), row), CopyModeCommand::Move) }
            else if c == '0' { ((0u16, row), CopyModeCommand::Move) }
            else if c == '$' { ((max.0, row), CopyModeCommand::Move) }
            else if c == 'g' { ((col, 0u16), CopyModeCommand::Move) }
            else if c == 'G' { ((col, max.1), CopyModeCommand::Move) }
            else if c == 'w' { ((inc_exec(col, 5, max.0), row), CopyModeCommand::Move) }
            else if c == 'b' { ((dec_exec(col, 5), row), CopyModeCommand::Move) }
            else if c == 'v' { (cursor, CopyModeCommand::StartSelection) }
            else if c == 'y' { (cursor, CopyModeCommand::Yank) }
            else if c == 'q' { (cursor, CopyModeCommand::Exit) }
            else { (cursor, CopyModeCommand::Move) }
        },
        KeyCode::Escape => (cursor, CopyModeCommand::Exit),
        KeyCode::Enter => (cursor, CopyModeCommand::Yank),
        KeyCode::Up => ((col, dec_exec(row, 1)), CopyModeCommand::Move),
        KeyCode::Down => ((col, inc_exec(row, 1, max.1)), CopyModeCommand::Move),
        KeyCode::Left => ((dec_exec(col, 1), row), CopyModeCommand::Move),
        KeyCode::Right => ((inc_exec(col, 1, max.0), row), CopyModeCommand::Move),
        _ => (cursor, CopyModeCommand::Move),
    }
}

/// A move of the scrollback view.
#[derive(Debug, Clone, Copy, PartialEq, Eq, Structural)]
pub enum ViewportMove {
    Up(usize),
    Down(usize),
    Top,
    Bottom,
}

/// Scrollback keys on the primary screen: Shift+PageUp and Shift+PageDown
/// page by `page` lines, Shift+Home and Shift+End go to the top and the
/// bottom (Ctrl may be held too). Nothing on the alternate screen or
/// without Shift.
pub open spec fn scrollback_move(key: KeyCode, mods: Modifiers, alternate: bool, page: usize) -> Option<ViewportMove> {
    if !mods.shift || alternate {
        None
    } else {
        match key {
            KeyCode::PageUp => Some(ViewportMove::Up(page)),
            KeyCode::PageDown => Some(ViewportMove::Down(page)),
            KeyCode::Home => Some(ViewportMove::Top),
            KeyCode::End => Some(ViewportMove::Bottom),
            _ => None,
        }
    }
}

/// The scrollback move a key asks for (see `scrollback_move`).
pub fn scrollback_key(key: KeyCode, mods: Modifiers, alternate: bool, page: usize) -> (r: Option<ViewportMove>)
    ensures
        r == scrollback_move(key, mods, alternate, page),
{
    if !mods.shift || alternate {
        return None;
    }
    match key {
        KeyCode::PageUp => Some(ViewportMove::Up(page)),
        KeyCode::PageDown => Some(ViewportMove::Down(page)),
        KeyCode::Home => Some(ViewportMove::Top),
        KeyCode::End => Some(ViewportMove::Bottom),
        _ => None,
    }
}

/// What a wheel turn of `lines` (positive up) does.
#[derive(Debug, Clone, Copy, PartialEq, Eq, Structural)]
pub enum WheelAction {
    /// Nothing.
    Nothing,
    /// On the alternate screen the program gets this many cursor-up
    /// (`up`) or cursor-down key presses.
    SendArrows { up: bool, count: u32 },
    /// On the primary screen the view scrolls.
    Scroll(ViewportMove),
}

pub open spec fn wheel_effect(lines: i32, alternate: bool) -> WheelAction {
    let n: int = if lines >= 0 { lines as int } else { -(lines as int) };
    if lines == 0 {
        WheelAction::Nothing
    } else if alternate {
        WheelAction::SendArrows { up: lines > 0, count: n as u32 }
    } else if lines > 0 {
        WheelAction::Scroll(ViewportMove::Up(n as usize))
    } else {
        WheelAction::Scroll(ViewportMove::Down(n as usize))
    }
}

/// What the wheel does (see `wheel_effect`).
pub fn wheel_action(lines: i32, alternate: bool) -> (r: WheelAction)
    ensures
        r == wheel_effect(lines, alternate),
{
    let n: u32 = if lines >= 0 { lines as u32 } else { (-(lines as i64)) as u32 };
    if lines == 0 {
        WheelAction::Nothing
    } else if alternate {
        WheelAction::SendArrows { up: lines > 0, count: n }
    } else if lines > 0 {
        WheelAction::Scroll(ViewportMove::Up(n as usize))
    } else {
        WheelAction::Scroll(ViewportMove::Down(n as usize))
    }
}

} // verus!
