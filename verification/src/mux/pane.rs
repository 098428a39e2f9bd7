//! Panes: a terminal with its keyboard state, size, title and exit status.
//! The pseudo-terminal a pane's program runs on is driven by its owner,
//! which hands the pane what it reads.

use vstd::prelude::*;
use crate::term::terminal::Terminal;
use crate::term::cell::ColorPalette;
use crate::input::keyboard::KeyboardHandler;
use crate::error::Result;
use crate::text::{chars_of, concat_string, u64_to_decimal, decimal_digits};

verus! {

/// Unique identifier for a pane.
#[derive(Debug, Clone, Copy, PartialEq, Eq, Hash, Structural)]
pub struct PaneId(pub u32);

impl PaneId {
    pub fn new(id: u32) -> (p: PaneId)
        ensures
            p == PaneId(id),
    {
        PaneId(id)
    }

    /// `pane:` and the number.
    pub fn to_string(&self) -> (s: String)
        ensures
            s@ == "pane:"@ + decimal_digits(self.0 as nat),
    {
        let p = chars_of("pane:");
        let d = u64_to_decimal(self.0 as u64);
        concat_string(p.as_slice(), d.as_slice())
    }
}

/// A pane.
pub struct Pane {
    pub id: PaneId,
    pub terminal: Terminal,
    pub keyboard: KeyboardHandler,
    /// A custom title; empty when the terminal's own title is shown.
    pub title: String,
    pub cols: u16,
    pub rows: u16,
    pub exited: bool,
    pub exit_status: Option<i32>,
}

impl Pane {
    pub open spec fn wf(&self) -> bool {
        self.terminal.wf()
    }

    /// A pane of the given size whose program has not started.
    pub fn new(id: PaneId, cols: u16, rows: u16, scrollback: usize) -> (p: Pane)
        ensures
            p.wf(),
            p.id == id,
            p.cols == cols,
            p.rows == rows,
            p.terminal.grid.scrollback_limit == scrollback,
            p.keyboard == (KeyboardHandler { application_cursor: false, application_keypad: false, bracketed_paste: false }),
            p.terminal.cols == cols,
            p.terminal.rows == rows,
            p.title@.len() == 0,
            !p.exited,
            p.exit_status.is_none(),
    {
        Pane {
            id,
            terminal: Terminal::new(cols, rows, scrollback),
            keyboard: KeyboardHandler::new(),
            title: String::new(),
            cols,
            rows,
            exited: false,
            exit_status: None,
        }
    }

    pub fn id(&self) -> (i: PaneId)
        ensures
            i == self.id,
    {
        self.id
    }

    pub fn terminal(&self) -> (t: &Terminal)
        ensures
            *t == self.terminal,
    {
        &self.terminal
    }

    pub fn terminal_mut(&mut self) -> (t: &mut Terminal)
        ensures
            *t == old(self).terminal,
            *final(self) == (Pane { terminal: *final(t), ..*old(self) }),
    {
        &mut self.terminal
    }

    /// Set the terminal's color palette.
    pub fn set_color_palette(&mut self, palette: ColorPalette)
        requires
            old(self).wf(),
        ensures
            final(self).wf(),
            final(self).terminal == (Terminal { color_palette: palette, ..old(self).terminal }),
            *final(self) == (Pane { terminal: final(self).terminal, ..*old(self) }),
    {
        self.terminal.set_color_palette(palette);
    }

    pub fn keyboard(&self) -> (k: &KeyboardHandler)
        ensures
            *k == self.keyboard,
    {
        &self.keyboard
    }

    pub fn keyboard_mut(&mut self) -> (k: &mut KeyboardHandler)
        ensures
            *k == old(self).keyboard,
            *final(self) == (Pane { keyboard: *final(k), ..*old(self) }),
    {
        &mut self.keyboard
    }

    /// The size in cells (columns, rows).
    pub fn size(&self) -> (s: (u16, u16))
        ensures
            s == (self.cols, self.rows),
    {
        (self.cols, self.rows)
    }

    /// Resize the pane and its terminal (the owner resizes the pseudo-terminal).
    pub fn resize(&mut self, cols: u16, rows: u16) -> (r: Result<()>)
        requires
            old(self).wf(),
        ensures
            final(self).wf(),
            r.is_ok(),
            final(self).cols == cols,
            final(self).rows == rows,
            final(self).terminal.cols == cols,
            final(self).terminal.rows == rows,
            final(self).id == old(self).id,
            final(self).title == old(self).title,
            final(self).exited == old(self).exited,
            final(self).exit_status == old(self).exit_status,
    {
        self.cols = cols;
        self.rows = rows;
        self.terminal.resize(cols, rows);
        Ok(())
    }

    /// The title shown: the custom one, else the terminal's.
    pub fn title(&self) -> (t: &str)
        ensures
            t@ == (if self.title@.len() == 0 { self.terminal.title@ } else { self.title@ }),
    {
        if chars_of(self.title.as_str()).len() == 0 {
            self.terminal.title()
        } else {
            self.title.as_str()
        }
    }

    /// Set a custom title.
    pub fn set_title(&mut self, title: &str)
        ensures
            final(self).title@ == title@,
            *final(self) == (Pane { title: final(self).title, ..*old(self) }),
    {
        self.title = title.to_string();
    }

    pub fn has_exited(&self) -> (b: bool)
        ensures
            b == self.exited,
    {
        self.exited
    }

    pub fn exit_status(&self) -> (s: Option<i32>)
        ensures
            s == self.exit_status,
    {
        self.exit_status
    }

    /// The pane's program exited with `status`.
    pub fn mark_exited(&mut self, status: i32)
        ensures
            *final(self) == (Pane { exited: true, exit_status: Some(status), ..*old(self) }),
    {
        self.exited = true;
        self.exit_status = Some(status);
    }

    /// What a read from the pseudo-terminal gave: no bytes means the program
    /// ended (exit status 0); bytes are fed to the terminal. Returns whether
    /// output was processed. An exited pane takes nothing.
    pub fn handle_output(&mut self, data: &[u8]) -> (processed: bool)
        requires
            old(self).wf(),
        ensures
            final(self).wf(),
            old(self).exited ==> !processed && *final(self) == *old(self),
            !old(self).exited && data@.len() == 0 ==> !processed
                && *final(self) == (Pane { exited: true, exit_status: Some(0), ..*old(self) }),
            !old(self).exited && data@.len() > 0 ==> processed
                && *final(self) == (Pane { terminal: final(self).terminal, ..*old(self) }),
    {
        if self.exited {
            return false;
        }
        if data.len() == 0 {
            self.mark_exited(0);
            return false;
        }
        self.terminal.process(data);
        true
    }
}

} // verus!
