//! Escape sequence handler trait.

use vstd::prelude::*;
use crate::term::cell::Color;
use super::csi::CsiCall;
use super::osc::{OscCallModel, str_opt};

verus! {

/// Terminal attribute for SGR sequences.
#[derive(Debug, Clone, Copy, PartialEq, Eq, Structural)]
pub enum Attr {
    Reset,
    Bold,
    Dim,
    Italic,
    Underline,
    Blink,
    Inverse,
    Hidden,
    Strike,
    CancelBold,
    CancelDim,
    CancelItalic,
    CancelUnderline,
    CancelBlink,
    CancelInverse,
    CancelHidden,
    CancelStrike,
    /// True color foreground (RGB).
    Foreground(Color),
    /// True color background (RGB).
    Background(Color),
    /// ANSI indexed foreground (0-255, uses palette for 0-15).
    ForegroundIndex(u8),
    /// ANSI indexed background (0-255, uses palette for 0-15).
    BackgroundIndex(u8),
    DefaultForeground,
    DefaultBackground,
}

/// Handler for terminal escape sequences, implemented by terminals (and by
/// whoever wants to observe what a sequence asks for).
pub trait Handler: Sized {
    /// The handler's own well-formedness, which every call keeps; a handler
    /// with nothing to keep need not define it.
    open spec fn inv(&self) -> bool {
        true
    }

    /// What a CSI call does: the relation between the handler before and
    /// after the method the call names. A handler that promises nothing of
    /// its methods need not define it.
    open spec fn csi_effect(&self, call: CsiCall, next: Self) -> bool {
        true
    }

    /// What an OSC call does (see `csi_effect`).
    open spec fn osc_effect(&self, call: OscCallModel, next: Self) -> bool {
        true
    }

    /// Print a character at cursor position.
    fn input(&mut self, c: char)
        requires
            old(self).inv(),
        ensures
            final(self).inv(),
    ;

    /// Move cursor to absolute position (0-indexed).
    fn goto(&mut self, line: u16, col: u16)
        requires
            old(self).inv(),
        ensures
            final(self).inv(),
            old(self).csi_effect(CsiCall::Goto(line, col), *final(self)),
    ;

    /// Move cursor to line.
    fn goto_line(&mut self, line: u16)
        requires
            old(self).inv(),
        ensures
            final(self).inv(),
            old(self).csi_effect(CsiCall::GotoLine(line), *final(self)),
    ;

    /// Move cursor to column.
    fn goto_col(&mut self, col: u16)
        requires
            old(self).inv(),
        ensures
            final(self).inv(),
            old(self).csi_effect(CsiCall::GotoCol(col), *final(self)),
    ;

    fn move_up(&mut self, n: u16)
        requires
            old(self).inv(),
        ensures
            final(self).inv(),
            old(self).csi_effect(CsiCall::MoveUp(n), *final(self)),
    ;

    fn move_down(&mut self, n: u16)
        requires
            old(self).inv(),
        ensures
            final(self).inv(),
            old(self).csi_effect(CsiCall::MoveDown(n), *final(self)),
    ;

    fn move_forward(&mut self, n: u16)
        requires
            old(self).inv(),
        ensures
            final(self).inv(),
            old(self).csi_effect(CsiCall::MoveForward(n), *final(self)),
    ;

    fn move_backward(&mut self, n: u16)
        requires
            old(self).inv(),
        ensures
            final(self).inv(),
            old(self).csi_effect(CsiCall::MoveBackward(n), *final(self)),
    ;

    /// Move cursor down and to column 1.
    fn move_down_and_cr(&mut self, n: u16)
        requires
            old(self).inv(),
        ensures
            final(self).inv(),
            old(self).csi_effect(CsiCall::MoveDownAndCr(n), *final(self)),
    ;

    /// Move cursor up and to column 1.
    fn move_up_and_cr(&mut self, n: u16)
        requires
            old(self).inv(),
        ensures
            final(self).inv(),
            old(self).csi_effect(CsiCall::MoveUpAndCr(n), *final(self)),
    ;

    /// Insert blank characters at cursor.
    fn insert_blank(&mut self, n: u16)
        requires
            old(self).inv(),
        ensures
            final(self).inv(),
            old(self).csi_effect(CsiCall::InsertBlank(n), *final(self)),
    ;

    fn newline(&mut self)
        requires
            old(self).inv(),
        ensures
            final(self).inv(),
    ;

    fn carriage_return(&mut self)
        requires
            old(self).inv(),
        ensures
            final(self).inv(),
    ;

    fn backspace(&mut self)
        requires
            old(self).inv(),
        ensures
            final(self).inv(),
    ;

    /// Horizontal tab.
    fn tab(&mut self)
        requires
            old(self).inv(),
        ensures
            final(self).inv(),
    ;

    /// Erase characters at cursor.
    fn erase_chars(&mut self, n: u16)
        requires
            old(self).inv(),
        ensures
            final(self).inv(),
            old(self).csi_effect(CsiCall::EraseChars(n), *final(self)),
    ;

    /// Delete characters at cursor (shift left).
    fn delete_chars(&mut self, n: u16)
        requires
            old(self).inv(),
        ensures
            final(self).inv(),
            old(self).csi_effect(CsiCall::DeleteChars(n), *final(self)),
    ;

    /// Erase in line: 0=cursor to end, 1=start to cursor, 2=entire line.
    fn erase_in_line(&mut self, mode: u16)
        requires
            old(self).inv(),
        ensures
            final(self).inv(),
            old(self).csi_effect(CsiCall::EraseInLine(mode), *final(self)),
    ;

    /// Erase in display: 0=cursor to end, 1=start to cursor, 2=entire screen, 3=scrollback.
    fn erase_in_display(&mut self, mode: u16)
        requires
            old(self).inv(),
        ensures
            final(self).inv(),
            old(self).csi_effect(CsiCall::EraseInDisplay(mode), *final(self)),
    ;

    fn insert_lines(&mut self, n: u16)
        requires
            old(self).inv(),
        ensures
            final(self).inv(),
            old(self).csi_effect(CsiCall::InsertLines(n), *final(self)),
    ;

    fn delete_lines(&mut self, n: u16)
        requires
            old(self).inv(),
        ensures
            final(self).inv(),
            old(self).csi_effect(CsiCall::DeleteLines(n), *final(self)),
    ;

    fn clear_tab(&mut self, mode: u16)
        requires
            old(self).inv(),
        ensures
            final(self).inv(),
            old(self).csi_effect(CsiCall::ClearTab(mode), *final(self)),
    ;

    fn set_attr(&mut self, attr: Attr)
        requires
            old(self).inv(),
        ensures
            final(self).inv(),
            old(self).csi_effect(CsiCall::SetAttr(attr), *final(self)),
    ;

    fn set_title(&mut self, title: &str)
        requires
            old(self).inv(),
        ensures
            final(self).inv(),
            old(self).osc_effect(OscCallModel::SetTitle(title@), *final(self)),
    ;

    fn bell(&mut self)
        requires
            old(self).inv(),
        ensures
            final(self).inv(),
    ;

    fn reset(&mut self)
        requires
            old(self).inv(),
        ensures
            final(self).inv(),
    ;

    fn save_cursor(&mut self)
        requires
            old(self).inv(),
        ensures
            final(self).inv(),
            old(self).csi_effect(CsiCall::SaveCursor, *final(self)),
    ;

    fn restore_cursor(&mut self)
        requires
            old(self).inv(),
        ensures
            final(self).inv(),
            old(self).csi_effect(CsiCall::RestoreCursor, *final(self)),
    ;

    /// Set scrolling region (top and bottom lines, 1-indexed).
    fn set_scroll_region(&mut self, top: u16, bottom: u16)
        requires
            old(self).inv(),
        ensures
            final(self).inv(),
            old(self).csi_effect(CsiCall::SetScrollRegion(top, bottom), *final(self)),
    ;

    fn scroll_up(&mut self, n: u16)
        requires
            old(self).inv(),
        ensures
            final(self).inv(),
            old(self).csi_effect(CsiCall::ScrollUp(n), *final(self)),
    ;

    fn scroll_down(&mut self, n: u16)
        requires
            old(self).inv(),
        ensures
            final(self).inv(),
            old(self).csi_effect(CsiCall::ScrollDown(n), *final(self)),
    ;

    fn set_cursor_visible(&mut self, visible: bool)
        requires
            old(self).inv(),
        ensures
            final(self).inv(),
    ;

    /// Reverse index (scroll down if at top).
    fn reverse_index(&mut self)
        requires
            old(self).inv(),
        ensures
            final(self).inv(),
    ;

    /// Line feed (may scroll).
    fn linefeed(&mut self)
        requires
            old(self).inv(),
        ensures
            final(self).inv(),
    ;

    /// Set terminal mode (DEC private modes).
    fn set_mode(&mut self, mode: u16, enable: bool)
        requires
            old(self).inv(),
        ensures
            final(self).inv(),
            old(self).csi_effect(CsiCall::SetMode(mode, enable), *final(self)),
    ;

    /// Set hyperlink (OSC 8).
    fn set_hyperlink(&mut self, id: Option<&str>, url: Option<&str>)
        requires
            old(self).inv(),
        ensures
            final(self).inv(),
            old(self).osc_effect(OscCallModel::SetHyperlink(str_opt(id), str_opt(url)), *final(self)),
    ;

    /// Set working directory (OSC 7).
    fn set_working_directory(&mut self, path: &str)
        requires
            old(self).inv(),
        ensures
            final(self).inv(),
            old(self).osc_effect(OscCallModel::SetWorkingDirectory(path@), *final(self)),
    ;

    /// Clipboard operation (OSC 52).
    fn clipboard(&mut self, clipboard: char, data: Option<&str>)
        requires
            old(self).inv(),
        ensures
            final(self).inv(),
            old(self).osc_effect(OscCallModel::Clipboard(clipboard, str_opt(data)), *final(self)),
    ;

    /// DECRQSS - Request Selection or Setting; `None` when not supported.
    fn decrqss(&mut self, query: &str) -> (r: Option<Vec<u8>>)
        requires
            old(self).inv(),
        ensures
            final(self).inv(),
    {
        None
    }

    /// Write response back to the PTY.
    fn write_response(&mut self, response: &[u8])
        requires
            old(self).inv(),
        ensures
            final(self).inv(),
    {
    }

    /// Set tab stop at current cursor position (HTS - ESC H).
    fn set_tab_stop(&mut self)
        requires
            old(self).inv(),
        ensures
            final(self).inv(),
    {
    }

    /// Set cursor shape (DECSCUSR).
    fn set_cursor_shape(&mut self, shape: u16)
        requires
            old(self).inv(),
        ensures
            final(self).inv(),
    {
    }

    /// Primary Device Attributes (DA1).
    fn primary_device_attributes(&mut self)
        requires
            old(self).inv(),
        ensures
            final(self).inv(),
    {
    }

    /// Secondary Device Attributes (DA2).
    fn secondary_device_attributes(&mut self)
        requires
            old(self).inv(),
        ensures
            final(self).inv(),
    {
    }

    /// Tertiary Device Attributes (DA3).
    fn tertiary_device_attributes(&mut self)
        requires
            old(self).inv(),
        ensures
            final(self).inv(),
    {
    }

    /// Device Status Report (DSR).
    fn device_status_report(&mut self, mode: u16)
        requires
            old(self).inv(),
        ensures
            final(self).inv(),
    {
    }

    /// Designate character set G0 (ESC ( X).
    fn designate_g0(&mut self, charset: char)
        requires
            old(self).inv(),
        ensures
            final(self).inv(),
    {
    }

    /// Designate character set G1 (ESC ) X).
    fn designate_g1(&mut self, charset: char)
        requires
            old(self).inv(),
        ensures
            final(self).inv(),
    {
    }

    /// Shift to G0 (SI).
    fn shift_in(&mut self)
        requires
            old(self).inv(),
        ensures
            final(self).inv(),
    {
    }

    /// Shift to G1 (SO).
    fn shift_out(&mut self)
        requires
            old(self).inv(),
        ensures
            final(self).inv(),
    {
    }

    /// Soft reset (DECSTR).
    fn soft_reset(&mut self)
        requires
            old(self).inv(),
        ensures
            final(self).inv(),
    {
    }

    /// Request terminal parameters (DECREQTPARM).
    fn request_terminal_parameters(&mut self, mode: u16)
        requires
            old(self).inv(),
        ensures
            final(self).inv(),
    {
    }

    /// Write data back to PTY.
    fn write_to_pty(&mut self, data: &[u8])
        requires
            old(self).inv(),
        ensures
            final(self).inv(),
    {
    }
}

} // verus!
